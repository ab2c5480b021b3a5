//! The consumer-side application state.

use crate::history::{pushed, HistoryBuffer};
use crate::metrics::Metrics;
use crate::soc::SocInfo;
use vstd::prelude::*;

verus! {

/// State owned by the single consumer of events.
pub struct App {
    /// Whether the control loop keeps going.
    pub running: bool,
    /// A small saturating counter driven by the keyboard.
    pub counter: u8,
    /// The latest snapshot.
    pub metrics: Metrics,
    /// Recent package power readings, in milliwatts, oldest first.
    pub power_history_mw: HistoryBuffer,
    /// Machine identity, fixed for the process lifetime.
    pub soc_info: SocInfo,
}

impl App {
    pub open spec fn wf(&self) -> bool {
        self.power_history_mw.wf()
    }

    /// A running application with an empty snapshot and history.
    pub fn new(soc_info: SocInfo) -> (r: App)
        ensures
            r.running,
            r.counter == 0,
            r.metrics == Metrics::zero(),
            r.power_history_mw@ == Seq::<u64>::empty(),
            r.wf(),
    {
        App {
            running: true,
            counter: 0,
            metrics: Metrics::new(),
            power_history_mw: HistoryBuffer::new(),
            soc_info,
        }
    }

    /// Stops the control loop.
    pub fn quit(&mut self)
        ensures
            !final(self).running,
            final(self).counter == old(self).counter,
            final(self).metrics == old(self).metrics,
            final(self).power_history_mw@ == old(self).power_history_mw@,
    {
        self.running = false;
    }

    /// Adds one to the counter unless it is at its maximum.
    pub fn increment_counter(&mut self)
        ensures
            final(self).counter == if old(self).counter < u8::MAX {
                (old(self).counter + 1) as u8
            } else {
                old(self).counter
            },
            final(self).running == old(self).running,
            final(self).metrics == old(self).metrics,
            final(self).power_history_mw@ == old(self).power_history_mw@,
    {
        if let Some(res) = self.counter.checked_add(1) {
            self.counter = res;
        }
    }

    /// Takes one from the counter unless it is zero.
    pub fn decrement_counter(&mut self)
        ensures
            final(self).counter == if old(self).counter > 0 {
                (old(self).counter - 1) as u8
            } else {
                old(self).counter
            },
            final(self).running == old(self).running,
            final(self).metrics == old(self).metrics,
            final(self).power_history_mw@ == old(self).power_history_mw@,
    {
        if let Some(res) = self.counter.checked_sub(1) {
            self.counter = res;
        }
    }

    /// Installs a new snapshot: its package power joins the history and it
    /// replaces the previous snapshot whole.
    pub fn on_metrics(&mut self, m: Metrics)
        requires
            old(self).wf(),
        ensures
            final(self).metrics == m,
            final(self).power_history_mw@ == pushed(old(self).power_history_mw@, m.cpu_metrics.package_mw),
            final(self).running == old(self).running,
            final(self).counter == old(self).counter,
            final(self).wf(),
    {
        self.power_history_mw.push(m.cpu_metrics.package_mw);
        self.metrics = m;
    }
}

/// Successive cycles fill the history in order: three snapshots installed
/// one after another on a fresh application leave exactly their package
/// power readings, oldest first, and the last snapshot in place.
pub proof fn lemma_cycles_in_order(
    app: App,
    m1: Metrics,
    m2: Metrics,
    m3: Metrics,
    a1: App,
    a2: App,
    a3: App,
)
    requires
        app.power_history_mw@ == Seq::<u64>::empty(),
        a1.power_history_mw@ == pushed(app.power_history_mw@, m1.cpu_metrics.package_mw),
        a2.power_history_mw@ == pushed(a1.power_history_mw@, m2.cpu_metrics.package_mw),
        a3.power_history_mw@ == pushed(a2.power_history_mw@, m3.cpu_metrics.package_mw),
        a3.metrics == m3,
    ensures
        a3.power_history_mw@ == seq![
            m1.cpu_metrics.package_mw,
            m2.cpu_metrics.package_mw,
            m3.cpu_metrics.package_mw,
        ],
        a3.metrics.cpu_metrics.package_mw == m3.cpu_metrics.package_mw,
{
    assert(a3.power_history_mw@ =~= seq![
        m1.cpu_metrics.package_mw,
        m2.cpu_metrics.package_mw,
        m3.cpu_metrics.package_mw,
    ]);
}

} // verus!
