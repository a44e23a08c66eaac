use frame_engine::clock::get_time;
use frame_engine::clock::reading_of;
use frame_engine::clock::ClockError;

#[test]
fn the_clock_reads_milliseconds_since_the_epoch() {
    // 2020-01-01 in milliseconds: the time of any run lies after it.
    let first = get_time().unwrap();
    assert!(first > 1_577_836_800_000);
    // And before the year 3000.
    assert!(first < 32_503_680_000_000);
}

#[test]
fn a_clock_before_the_epoch_has_no_reading() {
    assert_eq!(reading_of(None), Err(ClockError::BeforeEpoch));
}

#[test]
fn a_clock_after_the_epoch_reads_the_milliseconds_since() {
    assert_eq!(reading_of(Some(0)), Ok(0));
    assert_eq!(reading_of(Some(1_577_836_800_000)), Ok(1_577_836_800_000));
    assert_eq!(reading_of(Some(u128::MAX)), Ok(u128::MAX));
}
