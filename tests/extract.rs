use mactop_rs::metrics::{extract, MemoryMetrics, Metrics};

const SAMPLE: &str = "*** Sampled system activity ***\n\
E-Cluster HW active frequency: 1020 MHz\n\
E-Cluster HW active residency:  68.92% (600 MHz:   0% 972 MHz:  68%)\n\
P0-Cluster HW active frequency: 3228 MHz\n\
P0-Cluster HW active residency:  41.50% (600 MHz:   0%)\n\
P1-Cluster HW active frequency: 2000 MHz\n\
P1-Cluster HW active residency:  20.10% (600 MHz:   0%)\n\
ANE Power: 0 mW\n\
CPU Power: 1234 mW\n\
GPU Power: 56 mW\n\
Combined Power (CPU + GPU + ANE): 1290 mW\n\
GPU HW active frequency: 389 MHz\n\
GPU HW active residency:   2.94% (389 MHz: 100%)\n\
out: 12.34 packets/s, 5678.90 bytes/s\n\
in:  3.99 packets/s, 1100.90 bytes/s\n\
read: 7.00 ops/s 45.67 KBytes/s\n\
write: 8.50 ops/s 120.00 KBytes/s\n";

#[test]
fn efficiency_activity_is_mean_of_clusters() {
    let report = "E0-Cluster HW active residency: 10.00%\nE1-Cluster HW active residency: 30.00%\n";
    let m = extract(report);
    assert_eq!(m.cpu_metrics.e_cluster_active, 20);
}

#[test]
fn efficiency_mean_truncates() {
    let report = "E0-Cluster HW active residency: 10.00%\nE1-Cluster HW active residency: 15.00%\n";
    assert_eq!(extract(report).cpu_metrics.e_cluster_active, 12);
}

#[test]
fn single_performance_cluster() {
    let report = "P0-Cluster HW active residency: 41.00%\nP0-Cluster HW active frequency: 3228 MHz\n";
    let m = extract(report);
    assert_eq!(m.cpu_metrics.p_cluster_active, 41);
    assert_eq!(m.cpu_metrics.p_cluster_freq_mhz, 3228);
}

#[test]
fn cpu_power_line_in_milliwatts() {
    let m = extract("CPU Power: 2500 mW 00:00:01");
    assert_eq!(m.cpu_metrics.cpu_mw, 2500);
    assert_eq!(m.cpu_metrics.cpu_mw as f64 / 1000.0, 2.5);
}

#[test]
fn extract_is_idempotent() {
    assert_eq!(extract(SAMPLE), extract(SAMPLE));
}

#[test]
fn gpu_activity_resets_when_missing() {
    let mut m = Metrics::new();
    m.collect_metrics("GPU HW active residency:  57.00% (389 MHz: 100%)\n", MemoryMetrics::new());
    assert_eq!(m.gpu_metrics.active_centi, 5700);
    m.collect_metrics("CPU Power: 100 mW\n", MemoryMetrics::new());
    assert_eq!(m.gpu_metrics.active_centi, 0);
    assert_eq!(m.cpu_metrics.cpu_mw, 100);
}

#[test]
fn collect_sets_memory_from_readings() {
    let mut m = Metrics::new();
    m.mem.update(99, 99, 99, 99, 99);
    let mem = MemoryMetrics { total: 16, used: 8, available: 7, swap_total: 2, swap_used: 1 };
    m.collect_metrics(SAMPLE, mem);
    assert_eq!(m.mem, mem);
    assert_eq!(m.cpu_metrics.package_mw, 1290);
    assert_eq!(m.gpu_metrics.active_centi, 294);
}

#[test]
fn decimals_keep_two_places() {
    let m = extract("GPU HW active residency: 12.34%\nGPU HW active frequency: 444 MHz\nout: 7 packets/s, 0.5 bytes/s\nin: 1.239 packets/s, 18446744073709551615 bytes/s\n");
    assert_eq!(m.gpu_metrics.active_centi, 1234);
    assert_eq!(m.gpu_metrics.freq_mhz, 444);
    assert_eq!(m.net_disk_metrics.out_packets_per_sec_centi, 700);
    assert_eq!(m.net_disk_metrics.out_bytes_per_sec_centi, 50);
    assert_eq!(m.net_disk_metrics.in_packets_per_sec_centi, 123);
    assert_eq!(m.net_disk_metrics.in_bytes_per_sec_centi, 0);
}

#[test]
fn full_sample() {
    let m = extract(SAMPLE);
    assert_eq!(m.cpu_metrics.e_cluster_active, 68);
    assert_eq!(m.cpu_metrics.e_cluster_freq_mhz, 1020);
    assert_eq!(m.cpu_metrics.p_cluster_active, 30);
    assert_eq!(m.cpu_metrics.p_cluster_freq_mhz, 3228);
    assert_eq!(m.cpu_metrics.ane_mw, 0);
    assert_eq!(m.cpu_metrics.cpu_mw, 1234);
    assert_eq!(m.cpu_metrics.gpu_mw, 56);
    assert_eq!(m.cpu_metrics.package_mw, 1290);
    assert_eq!(m.gpu_metrics.freq_mhz, 389);
    assert_eq!(m.gpu_metrics.active_centi, 294);
    assert_eq!(m.net_disk_metrics.out_packets_per_sec_centi, 1234);
    assert_eq!(m.net_disk_metrics.out_bytes_per_sec_centi, 567890);
    assert_eq!(m.net_disk_metrics.in_packets_per_sec_centi, 399);
    assert_eq!(m.net_disk_metrics.in_bytes_per_sec_centi, 110090);
    assert_eq!(m.net_disk_metrics.read_ops_per_sec_centi, 700);
    assert_eq!(m.net_disk_metrics.read_k_bytes_per_sec_centi, 4567);
    assert_eq!(m.net_disk_metrics.write_ops_per_sec_centi, 850);
    assert_eq!(m.net_disk_metrics.write_k_bytes_per_sec_centi, 12000);
    assert_eq!(m.mem, MemoryMetrics::new());
}

#[test]
fn empty_report_is_all_zero() {
    assert_eq!(extract(""), Metrics::new());
    assert_eq!(extract("\n\n   \n"), Metrics::new());
}

#[test]
fn percent_is_clamped() {
    let m = extract("GPU active residency: 150.00%\nE0-Cluster HW active residency: 250.5%\n");
    assert_eq!(m.gpu_metrics.active_centi, 10000);
    assert_eq!(m.cpu_metrics.e_cluster_active, 100);
}

#[test]
fn gpu_frequency_without_hw_word() {
    let m = extract("GPU active frequency: 444 MHz\n");
    assert_eq!(m.gpu_metrics.freq_mhz, 444);
}

#[test]
fn malformed_numbers_skip_only_their_field() {
    let m = extract("CPU Power: 12x4 mW\nGPU Power: 77 mW\nout: 1.2.3 packets/s, 9.5 bytes/s\nE0-Cluster HW active residency: abc%\n");
    assert_eq!(m.cpu_metrics.cpu_mw, 0);
    assert_eq!(m.cpu_metrics.gpu_mw, 77);
    assert_eq!(m.net_disk_metrics.out_packets_per_sec_centi, 0);
    assert_eq!(m.net_disk_metrics.out_bytes_per_sec_centi, 950);
    assert_eq!(m.cpu_metrics.e_cluster_active, 0);
}

#[test]
fn overflowing_number_is_skipped() {
    let m = extract("CPU Power: 18446744073709551616 mW\nANE Power: 18446744073709551615 mW\n");
    assert_eq!(m.cpu_metrics.cpu_mw, 0);
    assert_eq!(m.cpu_metrics.ane_mw, u64::MAX);
}

#[test]
fn unknown_cluster_label_is_ignored() {
    let m = extract("X0-Cluster HW active residency: 50.00%\nX0-Cluster HW active frequency: 900 MHz\n");
    assert_eq!(m, Metrics::new());
}

#[test]
fn frequency_aggregate_is_maximum() {
    let m = extract("E0-Cluster HW active frequency: 900 MHz\nE1-Cluster HW active frequency: 1200 MHz\nE2-Cluster HW active frequency: 1000 MHz\n");
    assert_eq!(m.cpu_metrics.e_cluster_freq_mhz, 1200);
}

#[test]
fn last_line_wins_for_single_fields() {
    let m = extract("CPU Power: 10 mW\nCPU Power: 20 mW\n");
    assert_eq!(m.cpu_metrics.cpu_mw, 20);
}

#[test]
fn memory_update_replaces_all_figures() {
    let mut mem = MemoryMetrics::new();
    mem.update(1, 2, 3, 4, 5);
    assert_eq!(mem, MemoryMetrics { total: 1, used: 2, available: 3, swap_total: 4, swap_used: 5 });
}
