use room_egress::schedule::{tick_interval, TickInterval, NANOS_PER_SEC};

#[test]
fn a_frame_of_1024_samples_at_48_khz_lasts_about_21_ms() {
    assert_eq!(tick_interval(1024, 48_000), TickInterval { secs: 0, nanos: 21_333_333 });
}

#[test]
fn whole_seconds() {
    assert_eq!(NANOS_PER_SEC, 1_000_000_000);
    assert_eq!(tick_interval(48_000, 48_000), TickInterval { secs: 1, nanos: 0 });
    assert_eq!(tick_interval(96_000, 48_000), TickInterval { secs: 2, nanos: 0 });
    assert_eq!(tick_interval(0, 48_000), TickInterval { secs: 0, nanos: 0 });
}

#[test]
fn seconds_and_a_fraction() {
    assert_eq!(tick_interval(72_000, 48_000), TickInterval { secs: 1, nanos: 500_000_000 });
    assert_eq!(tick_interval(7, 3), TickInterval { secs: 2, nanos: 333_333_333 });
    assert_eq!(tick_interval(2, 3), TickInterval { secs: 0, nanos: 666_666_666 });
    assert_eq!(tick_interval(1, 1), TickInterval { secs: 1, nanos: 0 });
    assert_eq!(
        tick_interval(u32::MAX as usize - 1, u32::MAX),
        TickInterval { secs: 0, nanos: 999_999_999 }
    );
    assert_eq!(tick_interval(960, 44_100), TickInterval { secs: 0, nanos: 21_768_707 });
}
