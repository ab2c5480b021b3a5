use mactop_rs::clusters::{clusters, Cluster};

fn c(label: &str, active: u64, freq_mhz: u64) -> Cluster {
    Cluster { label: label.to_string(), active, freq_mhz }
}

#[test]
fn clusters_in_order_of_first_appearance() {
    let report = "E0-Cluster HW active frequency: 1020 MHz\n\
P0-Cluster HW active residency:  41.50% (600 MHz:   0%)\n\
E0-Cluster HW active residency:  68.92% (600 MHz:   0%)\n\
P0-Cluster HW active frequency: 3228 MHz\n\
P1-Cluster HW active residency:  5.00%\n";
    assert_eq!(
        clusters(report),
        vec![c("E0", 68, 1020), c("P0", 41, 3228), c("P1", 5, 0)]
    );
}

#[test]
fn clusters_keep_latest_values_and_skip_unknown_labels() {
    let report = "E-Cluster HW active residency: 10.00%\n\
X1-Cluster HW active residency: 50.00%\n\
E-Cluster HW active residency: 12.00%\n\
CPU Power: 5 mW\n";
    assert_eq!(clusters(report), vec![c("E", 12, 0)]);
    assert_eq!(clusters(""), Vec::<Cluster>::new());
}
