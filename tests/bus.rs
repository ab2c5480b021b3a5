use mactop_rs::event::{Event, EventQueue};
use mactop_rs::metrics::{extract, Metrics};
use mactop_rs::sampler::{next_backoff, BACKOFF_CAP_MS, BACKOFF_START_MS};

type Ev = Event<char, ()>;

fn snapshot(package_mw: u64) -> Metrics {
    extract(&format!("Combined Power (CPU + GPU + ANE): {package_mw} mW\n"))
}

fn package(e: Option<Ev>) -> Option<u64> {
    match e {
        Some(Event::Metrics(m)) => Some(m.cpu_metrics.package_mw),
        _ => None,
    }
}

#[test]
fn queue_is_fifo() {
    let mut q: EventQueue<char, ()> = EventQueue::new(8);
    assert!(q.send(Event::Key('a')));
    assert!(q.send(Event::Tick));
    assert!(q.send(Event::Resize(80, 24)));
    assert!(matches!(q.recv(), Some(Event::Key('a'))));
    assert!(matches!(q.recv(), Some(Event::Tick)));
    assert!(matches!(q.recv(), Some(Event::Resize(80, 24))));
    assert!(q.recv().is_none());
}

#[test]
fn newer_snapshot_replaces_waiting_one() {
    let mut q: EventQueue<char, ()> = EventQueue::new(8);
    assert!(q.send(Event::Metrics(snapshot(1000))));
    assert!(q.send(Event::Key('x')));
    assert!(q.send(Event::Metrics(snapshot(2000))));
    assert_eq!(q.len(), 2);
    assert!(matches!(q.recv(), Some(Event::Key('x'))));
    assert_eq!(package(q.recv()), Some(2000));
    assert!(q.recv().is_none());
}

#[test]
fn full_queue_refuses_events() {
    let mut q: EventQueue<char, ()> = EventQueue::new(2);
    assert!(q.send(Event::Key('a')));
    assert!(q.send(Event::Metrics(snapshot(5))));
    assert!(!q.send(Event::Key('b')));
    assert_eq!(q.len(), 2);
    // A snapshot still fits: it takes the place of the waiting one.
    assert!(q.send(Event::Metrics(snapshot(7))));
    assert!(matches!(q.recv(), Some(Event::Key('a'))));
    assert_eq!(package(q.recv()), Some(7));
}

#[test]
fn full_queue_without_snapshot_refuses_snapshot() {
    let mut q: EventQueue<char, ()> = EventQueue::new(1);
    assert!(q.send(Event::Tick));
    assert!(!q.send(Event::Metrics(Metrics::new())));
    assert!(matches!(q.recv(), Some(Event::Tick)));
    assert!(q.recv().is_none());
}

#[test]
fn error_events_pass_through() {
    let mut q: EventQueue<char, ()> = EventQueue::new(4);
    assert!(q.send(Event::Error("cannot start sampler".to_string())));
    match q.recv() {
        Some(Event::Error(m)) => assert_eq!(m, "cannot start sampler"),
        _ => panic!("expected an error event"),
    }
}

#[test]
fn backoff_doubles_to_cap_and_clears() {
    assert_eq!(next_backoff(0, false), 0);
    assert_eq!(next_backoff(0, true), BACKOFF_START_MS);
    assert_eq!(next_backoff(1000, true), 2000);
    assert_eq!(next_backoff(16000, true), BACKOFF_CAP_MS);
    assert_eq!(next_backoff(BACKOFF_CAP_MS, true), BACKOFF_CAP_MS);
    assert_eq!(next_backoff(BACKOFF_CAP_MS, false), 0);
}
