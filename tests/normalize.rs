use cpuload::load::{normalize, request_from_options, Load, LoadSpec};

fn effective(num_cpus: Option<i32>, time_seconds: Option<i32>) -> LoadSpec {
    normalize(request_from_options(num_cpus, time_seconds))
}

#[test]
fn absent_or_non_positive_cpus_become_one() {
    assert_eq!(effective(None, Some(3)).cpu_count, 1);
    assert_eq!(effective(Some(0), Some(3)).cpu_count, 1);
    assert_eq!(effective(Some(-4), Some(3)).cpu_count, 1);
    assert_eq!(effective(Some(i32::MIN), Some(3)).cpu_count, 1);
}

#[test]
fn positive_cpus_are_kept() {
    assert_eq!(effective(Some(1), None).cpu_count, 1);
    assert_eq!(effective(Some(6), None).cpu_count, 6);
    assert_eq!(effective(Some(i32::MAX), None).cpu_count, i32::MAX);
}

#[test]
fn absent_time_is_five_seconds() {
    assert_eq!(request_from_options(None, None), Load { cpus: 1, time_seconds: 5 });
    assert_eq!(effective(Some(2), None).duration_seconds, 5);
}

#[test]
fn non_positive_time_is_raised_to_one_second() {
    assert_eq!(effective(None, Some(0)).duration_seconds, 1);
    assert_eq!(effective(None, Some(-30)).duration_seconds, 1);
    assert_eq!(effective(None, Some(12)).duration_seconds, 12);
}

#[test]
fn supplied_values_reach_the_request_unchanged() {
    assert_eq!(request_from_options(Some(-2), Some(0)), Load { cpus: -2, time_seconds: 0 });
}

#[test]
fn normalize_zero_request() {
    let s = normalize(Load { cpus: 0, time_seconds: 0 });
    assert_eq!(s, LoadSpec { cpu_count: 1, duration_seconds: 1 });
    assert_eq!(s.worker_count(), 1);
    assert_eq!(s.duration_secs(), 1);
}

#[test]
fn normalize_keeps_valid_request() {
    let s = normalize(Load { cpus: 3, time_seconds: 7 });
    assert_eq!(s, LoadSpec { cpu_count: 3, duration_seconds: 7 });
    assert_eq!(s.worker_count(), 3usize);
    assert_eq!(s.duration_secs(), 7u64);
}
