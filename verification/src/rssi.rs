//! Received signal strength: decoding the raw RSSI status byte.
//!
//! The raw byte is a signed half-dB-scaled reading: values of 128 and
//! above are negative via two's-complement wraparound, values below 128
//! are nonnegative. After halving, a fixed offset of 74 dB is
//! subtracted. Quotients truncate toward zero, as the byte is at most
//! one half-dB step wide.

use vstd::prelude::*;

use vstd::arithmetic::div_mod::lemma_div_is_ordered;

verus! {

/// The fixed offset subtracted from every halved reading, in dB.
pub const RSSI_OFFSET: i16 = 74;

/// The signal strength in dBm a raw RSSI byte denotes.
pub open spec fn spec_rssi_dbm(raw: u8) -> int {
    if raw >= 128 {
        -((256 - raw) / 2) - 74
    } else {
        raw / 2 - 74
    }
}

/// Decodes the raw RSSI status byte to dBm.
pub fn rssi_to_dbm(raw: u8) -> (r: i16)
    ensures
        r == spec_rssi_dbm(raw),
{
    if raw >= 128 {
        let neg: u16 = (256 - raw as u16) / 2;
        -(neg as i16) - RSSI_OFFSET
    } else {
        (raw / 2) as i16 - RSSI_OFFSET
    }
}

/// The decode's fixed points: the zero byte decodes to the bare negative
/// offset, and byte 128 decodes to the most negative representable
/// value, below or equal to every other decoded reading.
pub proof fn lemma_rssi_boundaries()
    ensures
        spec_rssi_dbm(0) == -74,
        spec_rssi_dbm(128) == -138,
        forall|raw: u8| spec_rssi_dbm(128) <= #[trigger] spec_rssi_dbm(raw),
{
    assert forall|raw: u8| spec_rssi_dbm(128) <= #[trigger] spec_rssi_dbm(raw) by {
        if raw >= 128 {
            lemma_div_is_ordered(256 - raw, 128, 2);
        }
    }
}

/// Within each sign branch the decode moves by at most one dB per raw
/// step, and it is continuous across the two's-complement wraparound:
/// byte 255 (one half-dB below zero) and byte 0 decode alike.
pub proof fn lemma_rssi_continuity(raw: u8)
    requires
        raw != 127,
        raw != 255,
    ensures
        spec_rssi_dbm(raw) <= spec_rssi_dbm((raw + 1) as u8),
        spec_rssi_dbm((raw + 1) as u8) <= spec_rssi_dbm(raw) + 1,
        spec_rssi_dbm(255) == spec_rssi_dbm(0),
{
    assert((raw + 1) / 2 == raw / 2 || (raw + 1) / 2 == raw / 2 + 1) by (bit_vector)
        requires
            raw < 255,
    ;
    if raw >= 128 {
        assert((256 - (raw + 1)) / 2 == (256 - raw) / 2 || (256 - (raw + 1)) / 2 + 1 == (256 - raw)
            / 2) by (bit_vector)
            requires
                128 <= raw < 255,
        ;
    }
}

} // verus!

