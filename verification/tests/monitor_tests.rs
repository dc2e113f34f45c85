use glowlay::config::Config;
use glowlay::monitor::{
    board_label, choose_sensors, choose_temperature_sensors, collect_disks, cpu_label, disks_from_matches,
    first_matching_mount, network_totals, network_totals_fit, MonitorState, MountReading, NetworkReading,
    NetworkTracker, Readings,
};

fn s(v: &[&str]) -> Vec<String> {
    v.iter().map(|x| x.to_string()).collect()
}

fn mount(p: &str, total: u64, available: u64) -> MountReading {
    MountReading { mount_point: p.to_string(), total_space: total, available_space: available }
}

fn net(name: &str, rx: u64, tx: u64) -> NetworkReading {
    NetworkReading { name: name.to_string(), received: rx, transmitted: tx }
}

#[test]
fn sensor_label_keywords() {
    assert!(cpu_label("coretemp package id 0"));
    assert!(cpu_label("k10temp tctl"));
    assert!(cpu_label("cpu_thermal"));
    assert!(!cpu_label("nvme composite"));
    assert!(board_label("acpitz temp1"));
    assert!(board_label("mb sensor"));
    assert!(board_label("amdgpu edge"));
    assert!(!board_label("nvme composite"));
}

#[test]
fn first_nonzero_matching_sensor_is_chosen() {
    let labels = s(&["nvme composite", "coretemp package id 0", "core 0", "acpitz"]);
    let zero = vec![false, true, false, false];
    let c = choose_sensors(&labels, &zero);
    assert_eq!(c.cpu, Some(2));
    assert_eq!(c.board, Some(3));
}

#[test]
fn one_sensor_may_serve_both() {
    // "coretemp" holds both "core" and "temp".
    let c = choose_sensors(&s(&["coretemp"]), &vec![false]);
    assert_eq!(c.cpu, Some(0));
    assert_eq!(c.board, Some(0));
}

#[test]
fn no_usable_sensor_gives_none() {
    let c = choose_sensors(&s(&["nvme", "cpu"]), &vec![false, true]);
    assert_eq!(c.cpu, None);
    assert_eq!(c.board, None);
    let e = choose_sensors(&Vec::new(), &Vec::new());
    assert_eq!(e.cpu, None);
    assert_eq!(e.board, None);
}

#[test]
fn labels_are_compared_lower_cased() {
    let c = choose_temperature_sensors(&s(&["NVMe Composite", "Core 0", "ACPI Zone"]), &vec![false, false, false]);
    assert_eq!(c.cpu, Some(1));
    assert_eq!(c.board, Some(2));
}

#[test]
fn tctl_label_upper_case() {
    let c = choose_temperature_sensors(&s(&["Tctl"]), &vec![false]);
    assert_eq!(c.cpu, Some(0));
    assert_eq!(c.board, None);
}

#[test]
fn disks_follow_configured_order() {
    let paths = s(&["/home", "/"]);
    let mounts = vec![mount("/", 1000, 400), mount("/boot", 100, 50), mount("/home", 5000, 1000)];
    let d = collect_disks(&paths, &mounts);
    assert_eq!(d.len(), 2);
    assert_eq!((d[0].path.as_str(), d[0].used, d[0].total), ("/home", 4000, 5000));
    assert_eq!((d[1].path.as_str(), d[1].used, d[1].total), ("/", 600, 1000));
}

#[test]
fn unmounted_paths_get_no_row() {
    let d = collect_disks(&s(&["/data", "/"]), &vec![mount("/", 10, 3)]);
    assert_eq!(d.len(), 1);
    assert_eq!(d[0].path, "/");
    assert_eq!(d[0].used, 7);
}

#[test]
fn used_space_saturates_at_zero() {
    let d = collect_disks(&s(&["/"]), &vec![mount("/", 10, 30)]);
    assert_eq!(d[0].used, 0);
    assert_eq!(d[0].total, 10);
}

#[test]
fn first_of_duplicate_mounts_wins() {
    let mounts = vec![mount("/", 10, 5), mount("/", 20, 5)];
    assert_eq!(first_matching_mount("/", &mounts), Some(0));
    let d = collect_disks(&s(&["/"]), &mounts);
    assert_eq!(d[0].total, 10);
}

#[test]
fn mount_points_compare_as_paths() {
    let mounts = vec![mount("/home", 10, 5)];
    assert_eq!(first_matching_mount("/home/", &mounts), Some(0));
    assert_eq!(first_matching_mount("/home//", &mounts), Some(0));
    assert_eq!(first_matching_mount("/hom", &mounts), None);
}

#[test]
fn rows_from_given_matches() {
    let paths = s(&["/a", "/b", "/c"]);
    let mounts = vec![mount("/x", 9, 4), mount("/y", 3, 1)];
    let d = disks_from_matches(&paths, &mounts, &vec![Some(1), None, Some(0)]);
    assert_eq!(d.len(), 2);
    assert_eq!((d[0].path.as_str(), d[0].used, d[0].total), ("/a", 2, 3));
    assert_eq!((d[1].path.as_str(), d[1].used, d[1].total), ("/c", 5, 9));
}

#[test]
fn all_interfaces_but_loopback_are_summed() {
    let nets = vec![net("lo", 1000, 1000), net("eth0", 10, 20), net("wlan0", 5, 7)];
    assert_eq!(network_totals("", &nets), (15, 27));
}

#[test]
fn named_interface_is_watched_alone() {
    let nets = vec![net("lo", 1000, 1000), net("eth0", 10, 20), net("wlan0", 5, 7)];
    assert_eq!(network_totals("wlan0", &nets), (5, 7));
    assert_eq!(network_totals("lo", &nets), (1000, 1000));
}

#[test]
fn missing_interface_reads_zero() {
    let nets = vec![net("eth0", 10, 20)];
    assert_eq!(network_totals("eth9", &nets), (0, 0));
}

#[test]
fn totals_overflow_is_detected() {
    let nets = vec![net("a", u64::MAX, 1), net("b", 1, 1)];
    assert!(!network_totals_fit(&nets));
    let fine = vec![net("a", u64::MAX, 1), net("lo", 1, 1)];
    assert!(network_totals_fit(&fine));
    assert_eq!(network_totals("", &fine), (u64::MAX, 1));
}

#[test]
fn first_reading_has_no_traffic() {
    let mut t = NetworkTracker::new();
    assert_eq!(t.observe(100, 50), None);
    assert_eq!(t.last, Some((100, 50)));
}

#[test]
fn traffic_is_growth_since_last_reading() {
    let mut t = NetworkTracker::new();
    t.observe(100, 50);
    assert_eq!(t.observe(1124, 60), Some((1024, 10)));
    // A counter reset reads as no traffic rather than a negative amount.
    assert_eq!(t.observe(10, 70), Some((0, 10)));
}

fn readings() -> Readings {
    Readings {
        mem_total: 16,
        mem_used: 4,
        sensor_labels: s(&["Core 0", "acpitz"]),
        sensor_at_zero: vec![false, false],
        mounts: vec![mount("/", 100, 40)],
        networks: vec![net("lo", 9, 9), net("eth0", 1000, 2000)],
    }
}

#[test]
fn sampling_with_everything_on() {
    let mut m = MonitorState::new(Config::fallback());
    let first = m.sample(&readings());
    assert_eq!(first.mem_total, 16);
    assert_eq!(first.mem_used, 4);
    assert_eq!(first.sensors.cpu, Some(0));
    assert_eq!(first.sensors.board, Some(1));
    assert_eq!(first.disks.len(), 1);
    assert_eq!(first.disks[0].used, 60);
    assert_eq!(first.traffic, None);
    let mut r = readings();
    r.networks[1].received = 3048;
    let second = m.sample(&r);
    assert_eq!(second.traffic, Some((2048, 0)));
}

#[test]
fn sampling_with_storage_and_network_off() {
    let mut c = Config::fallback();
    c.features.enable_storage = false;
    c.features.enable_network = false;
    let mut m = MonitorState::new(c);
    let a = m.sample(&readings());
    assert!(a.disks.is_empty());
    assert_eq!(a.traffic, None);
    assert_eq!(m.network.last, None);
}

use glowlay::monitor::disks_by_path;

#[test]
fn each_path_keeps_its_own_row() {
    let paths = s(&["/data", "/", "/home"]);
    let mounts = vec![mount("/", 100, 40), mount("/home", 50, 10)];
    let slots = disks_by_path(&paths, &mounts);
    assert_eq!(slots.len(), 3);
    assert!(slots[0].is_none());
    let root = slots[1].as_ref().unwrap();
    assert_eq!((root.path.as_str(), root.used, root.total), ("/", 60, 100));
    let home = slots[2].as_ref().unwrap();
    assert_eq!((home.path.as_str(), home.used, home.total), ("/home", 40, 50));
    // The compact list holds the same rows, without the gap.
    let rows = collect_disks(&paths, &mounts);
    assert_eq!(rows.len(), 2);
    assert_eq!(rows[0].path, "/");
    assert_eq!(rows[1].path, "/home");
}

#[test]
fn sample_reports_rows_per_path() {
    let mut m = MonitorState::new(Config::fallback());
    let mut r = readings();
    r.mounts = vec![mount("/boot", 10, 5)];
    let a = m.sample(&r);
    assert!(a.disks.is_empty());
    assert_eq!(a.disks_by_path.len(), 1);
    assert!(a.disks_by_path[0].is_none());
}

#[test]
fn path_components_decide_matches() {
    let root = vec![mount("/", 10, 5)];
    assert_eq!(first_matching_mount("/mnt/absent", &root), None);
    let mounts = vec![mount("/a/b", 10, 5)];
    assert_eq!(first_matching_mount("/a/./b", &mounts), Some(0));
    assert_eq!(first_matching_mount("/a/b/.", &mounts), Some(0));
    assert_eq!(first_matching_mount("a/b", &mounts), None);
    let relative = vec![mount("a", 1, 1)];
    assert_eq!(first_matching_mount("./a", &relative), None);
    assert_eq!(first_matching_mount("a/", &relative), Some(0));
}
