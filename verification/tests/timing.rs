use socks2http::timing::TimingRecord;

#[test]
fn splits_the_time_at_its_milestones() {
    let record = TimingRecord::from_samples(50, 120, 1500).unwrap();
    assert_eq!(record.connect_latency, 50);
    assert_eq!(record.auth_latency, 70);
    assert_eq!(record.relay_duration, 1380);
    assert_eq!(record.total(), Some(1500));
}

#[test]
fn accepts_milestones_at_the_same_instant() {
    let record = TimingRecord::from_samples(0, 0, 0).unwrap();
    assert_eq!(
        record,
        TimingRecord { connect_latency: 0, auth_latency: 0, relay_duration: 0 }
    );
    let record = TimingRecord::from_samples(7, 7, 7).unwrap();
    assert_eq!(
        record,
        TimingRecord { connect_latency: 7, auth_latency: 0, relay_duration: 0 }
    );
}

#[test]
fn takes_the_largest_readings() {
    let record = TimingRecord::from_samples(1, u128::MAX - 1, u128::MAX).unwrap();
    assert_eq!(record.connect_latency, 1);
    assert_eq!(record.auth_latency, u128::MAX - 2);
    assert_eq!(record.relay_duration, 1);
    assert_eq!(record.total(), Some(u128::MAX));
}

#[test]
fn gives_no_record_when_the_clock_went_back() {
    assert_eq!(TimingRecord::from_samples(120, 50, 1500), None);
    assert_eq!(TimingRecord::from_samples(50, 1500, 120), None);
    assert_eq!(TimingRecord::from_samples(1500, 120, 50), None);
}

#[test]
fn has_no_total_beyond_the_widest_integer() {
    let record =
        TimingRecord { connect_latency: u128::MAX, auth_latency: 1, relay_duration: 0 };
    assert_eq!(record.total(), None);
    let record =
        TimingRecord { connect_latency: u128::MAX - 1, auth_latency: 1, relay_duration: 1 };
    assert_eq!(record.total(), None);
    let record =
        TimingRecord { connect_latency: u128::MAX - 1, auth_latency: 1, relay_duration: 0 };
    assert_eq!(record.total(), Some(u128::MAX));
}
