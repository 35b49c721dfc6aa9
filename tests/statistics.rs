use keyhunt::stats::{rate_per_second, Statistics};

#[test]
fn new_counters_are_zero() {
    let s = Statistics::new();
    assert_eq!((s.keys_checked, s.found_count, s.cpu_keys_checked, s.gpu_keys_checked), (0, 0, 0, 0));
}

#[test]
fn lane_rate_is_count_over_time() {
    let mut s = Statistics::new();
    s.add_cpu_keys(5000);
    assert_eq!(s.get_cpu_rate(2000), 2500);
    assert_eq!(s.get_gpu_rate(2000), 0);
    assert_eq!(s.get_rate(2000), 2500);
}

#[test]
fn total_rate_is_sum_of_lanes() {
    let mut s = Statistics::new();
    s.add_cpu_keys(3000);
    s.add_gpu_keys(7000);
    assert_eq!(s.keys_checked, 10000);
    assert_eq!(s.get_rate(4000), s.get_cpu_rate(4000) + s.get_gpu_rate(4000));
}

#[test]
fn rounded_lane_rates_stay_within_one() {
    let mut s = Statistics::new();
    s.add_cpu_keys(1);
    s.add_gpu_keys(1);
    let total = s.get_rate(3000);
    let sum = s.get_cpu_rate(3000) + s.get_gpu_rate(3000);
    assert!(sum <= total && total <= sum + 1);
}

#[test]
fn no_elapsed_time_gives_zero_rate() {
    let mut s = Statistics::new();
    s.add_keys(10);
    assert_eq!(s.get_rate(0), 0);
    assert_eq!(rate_per_second(10, 0), 0);
}

#[test]
fn unattributed_keys_count_in_total_only() {
    let mut s = Statistics::new();
    s.add_keys(4);
    assert_eq!((s.keys_checked, s.cpu_keys_checked, s.gpu_keys_checked), (4, 0, 0));
}

#[test]
fn instant_rate_uses_window() {
    let mut s = Statistics::new();
    s.add_cpu_keys(1000);
    let earlier = Statistics { ..s };
    s.add_cpu_keys(500);
    assert_eq!(s.instant_rate(&earlier, 250), 2000);
    s.add_found();
    assert_eq!(s.found_count, 1);
}
