use mactop_rs::app::App;
use mactop_rs::history::HistoryBuffer;
use mactop_rs::metrics::{extract, Metrics};
use mactop_rs::soc::{get_core_count, get_cpu_info, get_gpu_cores, get_soc_info, lookup_first, lookup_last};

fn no_soc() -> mactop_rs::soc::SocInfo {
    get_soc_info("", "", "")
}

#[test]
fn history_keeps_latest_twenty_five() {
    let mut h = HistoryBuffer::new();
    for v in 1..=30u64 {
        h.push(v);
    }
    assert_eq!(h.values(), (6..=30u64).collect::<Vec<u64>>());
    assert_eq!(h.len(), 25);
    assert_eq!(h.last(), Some(30));
}

#[test]
fn history_chart_bound() {
    let mut h = HistoryBuffer::new();
    assert_eq!(h.y_max(), 10);
    assert_eq!(h.last(), None);
    h.push(300);
    h.push(900);
    h.push(200);
    assert_eq!(h.y_max(), 900);
}

#[test]
fn three_cycles_end_to_end() {
    let mut app = App::new(no_soc());
    for report in [
        "Combined Power (CPU + GPU + ANE): 2000 mW\n",
        "Combined Power (CPU + GPU + ANE): 2500 mW\n",
        "Combined Power (CPU + GPU + ANE): 3100 mW\n",
    ] {
        app.on_metrics(extract(report));
    }
    assert_eq!(app.power_history_mw.values(), vec![2000, 2500, 3100]);
    assert_eq!(app.metrics.cpu_metrics.package_mw, 3100);
    assert!(app.running);
}

#[test]
fn quit_and_counter() {
    let mut app = App::new(no_soc());
    assert_eq!(app.metrics, Metrics::new());
    app.decrement_counter();
    assert_eq!(app.counter, 0);
    app.increment_counter();
    app.increment_counter();
    assert_eq!(app.counter, 2);
    app.decrement_counter();
    assert_eq!(app.counter, 1);
    app.counter = 255;
    app.increment_counter();
    assert_eq!(app.counter, 255);
    app.quit();
    assert!(!app.running);
}

#[test]
fn cpu_info_lookup() {
    let report = "machdep.cpu.brand_string: Apple M1 Pro\nmachdep.cpu.core_count: 10\nmachdep.cpu.cores_per_package: 10\n";
    let (name, cores) = get_cpu_info(report);
    assert_eq!(name.as_deref(), Some("Apple M1 Pro"));
    assert_eq!(cores.as_deref(), Some("10"));
}

#[test]
fn core_count_lookup() {
    let (p, e) = get_core_count("hw.perflevel0.logicalcpu: 8\nhw.perflevel1.logicalcpu: 2\n");
    assert_eq!(p.as_deref(), Some("8"));
    assert_eq!(e.as_deref(), Some("2"));
    let (p, e) = get_core_count("");
    assert_eq!(p, None);
    assert_eq!(e, None);
}

#[test]
fn gpu_cores_default_marker() {
    assert_eq!(get_gpu_cores("Graphics/Displays:\n    Apple M1 Pro:\n      Total Number of Cores: 16\n"), "16");
    assert_eq!(get_gpu_cores("Graphics/Displays:\n"), "?");
}

#[test]
fn lookup_takes_trimmed_value_after_first_colon() {
    assert_eq!(lookup_last("  a key :  x: y  \n", "a key").as_deref(), Some("x: y"));
    assert_eq!(lookup_last("nothing here\n", "nothing here"), None);
    assert_eq!(lookup_first("the key is here\n", "key"), None);
}

#[test]
fn sysctl_lookup_keeps_last_line_containing_key() {
    let report = "machdep.cpu.core_count: 8\nmachdep.cpu.brand_string: Apple M1\nx machdep.cpu.core_count = 9\nprefix machdep.cpu.core_count: 10\n";
    let (name, cores) = get_cpu_info(report);
    assert_eq!(name.as_deref(), Some("Apple M1"));
    assert_eq!(cores.as_deref(), Some("10"));
    let (p, _) = get_core_count("hw.perflevel0.logicalcpu: 4\nhw.perflevel0.logicalcpu: 6\n");
    assert_eq!(p.as_deref(), Some("6"));
}

#[test]
fn gpu_cores_take_first_line_containing_phrase() {
    let report = "Chipset Model: Apple M1\n  Total Number of Cores (GPU): 8\n  Total Number of Cores: 16\n";
    assert_eq!(get_gpu_cores(report), "8");
}

#[test]
fn soc_info_gathers_all() {
    let s = get_soc_info(
        "machdep.cpu.brand_string: Apple M2\nmachdep.cpu.core_count: 8\n",
        "hw.perflevel0.logicalcpu: 4\nhw.perflevel1.logicalcpu: 4\n",
        "Total Number of Cores: 10\n",
    );
    assert_eq!(s.name.as_deref(), Some("Apple M2"));
    assert_eq!(s.core_count.as_deref(), Some("8"));
    assert_eq!(s.p_core_count.as_deref(), Some("4"));
    assert_eq!(s.e_core_count.as_deref(), Some("4"));
    assert_eq!(s.gpu_core_count, "10");
}
