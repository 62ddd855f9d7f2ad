use cruise_pid::recorder::ResultLog;

#[test]
fn empty_log_has_no_summary() {
    let log = ResultLog::new();
    assert!(log.summary().is_none());
    assert_eq!(log.len(), 0);
}

#[test]
fn summary_reports_extremes_and_truncated_means() {
    let mut log = ResultLog::new();
    log.push(10_000, 9_000, 1_000, 500); // error  1000
    log.push(10_000, 11_000, 1_100, -400); // error -1000
    log.push(10_000, 9_500, 1_200, 200); // error   500
    assert_eq!(log.len(), 3);
    let s = log.summary().expect("three rows were pushed");
    assert_eq!(s.data_points, 3);
    assert_eq!(s.min_error, -1_000);
    assert_eq!(s.max_error, 1_000);
    assert_eq!(s.avg_error, 166); // 500 / 3, truncated
    assert_eq!(s.min_acceleration, -400);
    assert_eq!(s.max_acceleration, 500);
    assert_eq!(s.avg_acceleration, 100);
}

#[test]
fn summary_truncates_toward_zero() {
    let mut log = ResultLog::new();
    log.push(0, 1_000, 1_000, -100);
    log.push(0, 0, 1_100, -100);
    log.push(0, 0, 1_200, -100);
    let s = log.summary().expect("three rows were pushed");
    // The error sum is -1000 over three points: -333 after truncation.
    assert_eq!(s.avg_error, -333);
    assert_eq!(s.avg_acceleration, -100);
}

#[test]
fn single_row_summary_is_that_row() {
    let mut log = ResultLog::new();
    log.push(20_000, 15_000, 2_000, 1_500);
    let s = log.summary().expect("one row was pushed");
    assert_eq!(s.data_points, 1);
    assert_eq!(s.min_error, 5_000);
    assert_eq!(s.max_error, 5_000);
    assert_eq!(s.avg_error, 5_000);
    assert_eq!(s.min_acceleration, 1_500);
    assert_eq!(s.max_acceleration, 1_500);
    assert_eq!(s.avg_acceleration, 1_500);
}
