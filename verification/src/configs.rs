//! The fixed register configuration profile that `configure` applies.
//!
//! One explicit write per register, in a fixed order: the ready-signal
//! pin is set to assert on a CRC-valid received packet, packets are
//! fixed 32-byte frames with CRC and whitening, and the synthesizer
//! calibrates automatically when leaving idle.

use vstd::prelude::*;

use crate::lowlevel::registers::Config;
use crate::lowlevel::op_reg_write;
use crate::port::{BusPort, TraceOp};
use crate::Cc1101;

verus! {

broadcast use crate::port::lemma_prefix_push, crate::port::lemma_prefix_transitive;

/// The register writes of the configuration profile, in order.
pub open spec fn config_profile() -> Seq<TraceOp> {
    seq![
        op_reg_write(Config::IOCFG2, 0x07),
        op_reg_write(Config::FIFOTHR, 0x47),
        op_reg_write(Config::PKTLEN, 0x20),
        op_reg_write(Config::PKTCTRL1, 0x04),
        op_reg_write(Config::PKTCTRL0, 0x44),
        op_reg_write(Config::FSCTRL1, 0x06),
        op_reg_write(Config::MCSM0, 0x18),
        op_reg_write(Config::FOCCFG, 0x16),
        op_reg_write(Config::AGCCTRL2, 0x43),
        op_reg_write(Config::FREND0, 0x10),
    ]
}

/// Writes the configuration profile, register by register, in the
/// order `config_profile` lists.
pub(crate) fn config_1<B: BusPort>(cc: &mut Cc1101<B>) -> (r: Result<(), B::Fault>)
    ensures
        old(cc).trace().is_prefix_of(final(cc).trace()),
        r is Ok ==> final(cc).trace() == old(cc).trace() + config_profile(),
{
    match cc.0.write_register(Config::IOCFG2, 0x07) {
        Ok(()) => (),
        Err(e) => {
            return Err(e);
        },
    };
    match cc.0.write_register(Config::FIFOTHR, 0x47) {
        Ok(()) => (),
        Err(e) => {
            return Err(e);
        },
    };
    match cc.0.write_register(Config::PKTLEN, 0x20) {
        Ok(()) => (),
        Err(e) => {
            return Err(e);
        },
    };
    match cc.0.write_register(Config::PKTCTRL1, 0x04) {
        Ok(()) => (),
        Err(e) => {
            return Err(e);
        },
    };
    match cc.0.write_register(Config::PKTCTRL0, 0x44) {
        Ok(()) => (),
        Err(e) => {
            return Err(e);
        },
    };
    match cc.0.write_register(Config::FSCTRL1, 0x06) {
        Ok(()) => (),
        Err(e) => {
            return Err(e);
        },
    };
    match cc.0.write_register(Config::MCSM0, 0x18) {
        Ok(()) => (),
        Err(e) => {
            return Err(e);
        },
    };
    match cc.0.write_register(Config::FOCCFG, 0x16) {
        Ok(()) => (),
        Err(e) => {
            return Err(e);
        },
    };
    match cc.0.write_register(Config::AGCCTRL2, 0x43) {
        Ok(()) => (),
        Err(e) => {
            return Err(e);
        },
    };
    match cc.0.write_register(Config::FREND0, 0x10) {
        Ok(()) => (),
        Err(e) => {
            return Err(e);
        },
    };
    proof {
        assert(cc.trace() =~= old(cc).trace() + config_profile());
    }
    Ok(())
}

} // verus!
