//! Parameter codecs: exact register encodings, round trips, and
//! ordering.

use cc1101::lowlevel::convert::{
    from_chanbw, from_deviation, from_drate, from_freq_if, from_frequency, to_chanbw, to_deviation,
    to_drate, to_frequency,
};
use cc1101::rssi::rssi_to_dbm;

#[test]
fn frequency_encodings_match_reference_values() {
    assert_eq!(from_frequency(433_920_000), (0x34, 0x12, 0x10));
    assert_eq!(from_frequency(868_300_000), (0xC5, 0x28, 0x20));
    assert_eq!(from_frequency(915_000_000), (0x8E, 0xE3, 0x21));
}

#[test]
fn frequency_round_trip_is_within_one_step() {
    // One quantization step is 27 MHz / 2^16, just under 412 Hz.
    for hz in [433_920_000u64, 868_300_000, 915_000_000, 300_000_000, 1_000_000] {
        let (f0, f1, f2) = from_frequency(hz);
        let back = to_frequency(f0, f1, f2);
        let diff = if back > hz { back - hz } else { hz - back };
        assert!(diff <= 412, "{hz} came back as {back}");
    }
}

#[test]
fn frequency_saturates_at_the_word_limit() {
    assert_eq!(from_frequency(u64::MAX), (0xFF, 0xFF, 0xFF));
}

#[test]
fn data_rate_encoding_matches_reference_value() {
    assert_eq!(from_drate(38_400), (117, 10));
    assert_eq!(to_drate(117, 10), 38_418);
    assert_eq!(from_drate(0), (0, 0));
    assert_eq!(from_drate(5_000_000), (255, 15));
}

#[test]
fn data_rate_round_trip_is_idempotent() {
    for baud in [1_200u64, 4_800, 38_400, 99_975, 250_000, 500_000] {
        let (m, e) = from_drate(baud);
        let once = to_drate(m, e);
        let (m2, e2) = from_drate(once);
        assert_eq!((m2, e2), (m, e), "rate {baud}");
        assert_eq!(to_drate(m2, e2), once);
    }
}

#[test]
fn data_rate_is_monotone_in_the_request() {
    let mut last = 0u64;
    for baud in [0u64, 600, 1_200, 38_400, 76_800, 250_000, 500_000, 10_000_000] {
        let (m, e) = from_drate(baud);
        let configured = to_drate(m, e);
        assert!(configured >= last);
        last = configured;
    }
}

#[test]
fn deviation_encoding_matches_reference_value() {
    assert_eq!(from_deviation(20_000), (4, 3));
    assert_eq!(to_deviation(4, 3), 19_775);
}

#[test]
fn deviation_round_trip_is_idempotent_over_both_fields() {
    for e in 0..8u8 {
        for m in 0..8u8 {
            let v = to_deviation(m, e);
            assert_eq!(from_deviation(v), (m, e));
        }
    }
}

#[test]
fn bandwidth_encoding_matches_reference_value() {
    assert_eq!(from_chanbw(101_562), (0, 3));
    assert_eq!(to_chanbw(0, 3), 105_469);
    assert_eq!(from_chanbw(0), (3, 3));
    assert_eq!(from_chanbw(1_000_000_000), (0, 0));
}

#[test]
fn bandwidth_round_trip_is_idempotent_over_both_fields() {
    for e in 0..4u8 {
        for m in 0..4u8 {
            let v = to_chanbw(m, e);
            assert_eq!(from_chanbw(v), (m, e));
        }
    }
}

#[test]
fn bandwidth_is_monotone_in_the_request() {
    let mut last = 0u64;
    for bw in [58_000u64, 101_562, 232_000, 325_000, 540_000, 843_750, 2_000_000] {
        let (m, e) = from_chanbw(bw);
        let configured = to_chanbw(m, e);
        assert!(configured >= last);
        last = configured;
    }
}

#[test]
fn intermediate_frequency_field_saturates_at_five_bits() {
    assert_eq!(from_freq_if(152_343), 6);
    assert_eq!(from_freq_if(1_000_000_000), 31);
    assert_eq!(from_freq_if(0), 0);
}

#[test]
fn rssi_boundaries() {
    assert_eq!(rssi_to_dbm(0), -74);
    assert_eq!(rssi_to_dbm(128), -138);
    for raw in 0..=255u8 {
        assert!(rssi_to_dbm(raw) >= -138);
    }
}

#[test]
fn rssi_wraps_continuously_through_zero() {
    assert_eq!(rssi_to_dbm(255), -74);
    assert_eq!(rssi_to_dbm(254), -75);
    assert_eq!(rssi_to_dbm(1), -74);
    assert_eq!(rssi_to_dbm(2), -73);
    assert_eq!(rssi_to_dbm(127), -11);
    assert_eq!(rssi_to_dbm(129), -137);
}

#[test]
fn agc_enums_convert_to_their_field_values() {
    assert_eq!(u8::from(cc1101::TargetAmplitude::Db42), 7);
    assert_eq!(u8::from(cc1101::TargetAmplitude::Db24), 0);
    assert_eq!(u8::from(cc1101::FilterLength::Samples32), 2);
}
