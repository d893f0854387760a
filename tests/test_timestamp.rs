use es4forensics::{InvalidTimestamp, Macb, PosixFile, TimeZone, Timestamp};

#[test]
fn sentinel_is_absent() {
    assert_eq!(Timestamp::from_epoch(-1, &TimeZone::utc()), Ok(None));
    assert_eq!(Timestamp::from_epoch(-1, &TimeZone::new("Europe/Berlin")), Ok(None));
    assert_eq!(Timestamp::from_epoch(-1, &TimeZone::new("No/Such_Zone")), Ok(None));
}

#[test]
fn utc_epoch_round_trip() {
    let t = Timestamp::from_epoch(1577092511, &TimeZone::utc()).unwrap().unwrap();
    assert_eq!(t.timestamp_millis(), 1577092511000);
    let t = Timestamp::from_epoch(0, &TimeZone::utc()).unwrap().unwrap();
    assert_eq!(t.timestamp_millis(), 0);
}

#[test]
fn local_time_is_normalized_to_utc() {
    // 2019-12-23 09:15:11 in Berlin is 08:15:11 UTC
    let t = Timestamp::from_epoch(1577092511, &TimeZone::new("Europe/Berlin")).unwrap().unwrap();
    assert_eq!(t.timestamp_millis(), 1577088911000);
}

#[test]
fn ambiguous_local_time_takes_the_earlier_instant() {
    // 2019-10-27 02:30 happens twice in Berlin; the first is 00:30 UTC
    let t = Timestamp::from_epoch(1572143400, &TimeZone::new("Europe/Berlin")).unwrap().unwrap();
    assert_eq!(t.timestamp_millis(), 1572136200000);
}

#[test]
fn skipped_local_time_is_invalid() {
    // 2019-03-31 02:30 does not happen in Berlin
    let r = Timestamp::from_epoch(1553999400, &TimeZone::new("Europe/Berlin"));
    assert_eq!(r, Err(InvalidTimestamp { raw: 1553999400 }));
}

#[test]
fn unknown_zone_is_invalid() {
    let r = Timestamp::from_epoch(1577092511, &TimeZone::new("Mars/Olympus_Mons"));
    assert_eq!(r, Err(InvalidTimestamp { raw: 1577092511 }));
}

#[test]
fn out_of_range_value_is_invalid() {
    let r = Timestamp::from_epoch(i64::MAX, &TimeZone::utc());
    assert_eq!(r, Err(InvalidTimestamp { raw: i64::MAX }));
}

#[test]
fn record_with_bad_time_fails_with_that_time() {
    let r = PosixFile::try_from_values(
        "/x".to_string(), "1".to_string(), 0, 0, 0, 1577092511, i64::MAX, -1, -1, &TimeZone::utc(),
    );
    assert_eq!(r.err(), Some(InvalidTimestamp { raw: i64::MAX }));
}

#[test]
fn macb_flags_and_encodings() {
    let t = |ms: i64| Some(Timestamp::from_millis(ms));
    let r = Timestamp::from_millis(5);
    let f = Macb::compute(t(5), t(6), t(5), None, r);
    assert_eq!(f, Macb { modified: true, accessed: false, changed: true, created: false });
    assert_eq!(f.short(), "m.c.");
    assert_eq!(f.long(), vec!["modified".to_string(), "changed".to_string()]);
    let all = Macb::compute(t(5), t(5), t(5), t(5), r);
    assert_eq!(all.short(), "macb");
    assert_eq!(all.long(), vec!["modified", "accessed", "changed", "born"]);
    let none = Macb::compute(None, None, None, None, r);
    assert_eq!(none.short(), "....");
    assert!(none.long().is_empty());
}

#[test]
fn generate_macb_compares_every_role() {
    let p = PosixFile::try_from_values(
        "/x".to_string(), "1".to_string(), 0, 0, 0, 10, 10, 20, 10, &TimeZone::utc(),
    )
    .unwrap();
    let f = p.generate_macb(&Timestamp::from_millis(10000));
    assert_eq!(f, Macb { modified: true, accessed: true, changed: false, created: true });
    assert_eq!(p.get_inode(), "1");
    assert_eq!(PosixFile::load_timestamp(-1, &TimeZone::utc()), Ok(None));
}

#[test]
fn earliest_candidate_instant_wins() {
    assert_eq!(
        Timestamp::from_instants(9, Some(vec![3000, 1000])),
        Ok(Some(Timestamp::from_millis(1000)))
    );
    assert_eq!(Timestamp::from_instants(9, Some(vec![])), Err(InvalidTimestamp { raw: 9 }));
    assert_eq!(Timestamp::from_instants(9, None), Err(InvalidTimestamp { raw: 9 }));
}
