//! Packet transmit and receive over the FIFO, and the one-call chip
//! configuration.
//!
//! Transmit writes the whole payload into the FIFO, strobes transmit,
//! polls the machine state until the chip returns to idle (it does so
//! by itself after sending a complete fixed-length frame), and then
//! flushes the TX FIFO; the ordering of those bus transactions is part
//! of each contract. Receive is driven by the ready-signal pin alone:
//! while the pin reads low it touches the bus not at all.
//!
//! `configure` applies the fixed register profile and then always
//! rewrites the power amplifier table, so that a chip coming out of
//! power-down is fully restored by one call.

use vstd::prelude::*;

use crate::configs::{config_1, config_profile};
use crate::lowlevel::registers::Command;
use crate::lowlevel::types::MachineState;
use crate::lowlevel::{op_burst_read, op_burst_write, op_strobe};
use crate::port::{BusPort, ReadyPin, TraceOp};
use crate::{
    is_marc_poll, polled_state, strobe_then_await, Cc1101, Error, NbError, NbResult, RadioMode,
    MAX_STATE_POLLS,
};

verus! {

broadcast use crate::port::lemma_prefix_push, crate::port::lemma_prefix_transitive;

/// The payload bytes of a fixed-length frame.
pub const FIXED_PACKET_LENGTH: usize = 32;

/// The largest payload of a length-prefixed variable frame.
pub const MAX_VARIABLE_PACKET_LENGTH: usize = 63;

/// The bytes `write_patable` programs into the power amplifier table.
pub open spec fn patable_bytes() -> Seq<u8> {
    seq![0x03u8, 0x0Eu8, 0x1Eu8, 0x27u8, 0x8Eu8, 0xCDu8, 0xC7u8, 0xC0u8]
}

/// `post` extends `pre` by exactly a complete fixed-frame
/// transmission: one burst write of the payload into the FIFO, the
/// transmit strobe, at least one machine state poll ending on idle,
/// and the TX FIFO flush strobe — in that order and nothing else.
pub open spec fn transmit_trace(pre: Seq<TraceOp>, post: Seq<TraceOp>, payload: Seq<u8>) -> bool {
    let n = pre.len() as int;
    &&& post.len() >= n + 4
    &&& post.subrange(0, n) == pre
    &&& post[n] == op_burst_write(Command::FIFO.spec_addr(), payload)
    &&& strobe_then_await(
        post,
        n + 1,
        post.len() - 1,
        Command::STX,
        MachineState::IDLE.spec_value(),
    )
    &&& post.last() == op_strobe(Command::SFTX)
}

impl<B: BusPort> Cc1101<B> {
    /// Transmits one fixed-length frame, blocking:
    ///
    /// - writes the payload to the FIFO,
    /// - strobes transmit mode,
    /// - polls until the radio is back in idle,
    /// - flushes the TX buffer.
    pub fn transmit(&mut self, payload: &[u8; 32]) -> (r: Result<(), Error<B::Fault>>)
        ensures
            old(self).trace().is_prefix_of(final(self).trace()),
            r is Ok ==> transmit_trace(old(self).trace(), final(self).trace(), payload@),
    {
        let ghost n = old(self).trace().len() as int;
        match self.0.write_fifo(payload.as_slice()) {
            Ok(()) => (),
            Err(e) => {
                return Err(Error::Spi(e));
            },
        };
        let ghost t1 = self.trace();
        match self.send_radio_mode_strobe(RadioMode::Transmit) {
            Ok(_) => (),
            Err(e) => {
                return Err(e);
            },
        };
        let ghost t2 = self.trace();
        match self.await_machine_state(MachineState::IDLE, MAX_STATE_POLLS) {
            Ok(()) => (),
            Err(e) => {
                return Err(e);
            },
        };
        let ghost t3 = self.trace();
        match self.flush_tx() {
            Ok(()) => {
                proof {
                    let t = self.trace();
                    assert(t.subrange(0, n) =~= old(self).trace());
                    assert(t2.len() == n + 2);
                    assert(t2[n + 1] == op_strobe(Command::STX));
                    assert forall|i: int| 0 <= i < t3.len() implies t[i] == t3[i] by {}
                    assert forall|i: int| 0 <= i < t2.len() implies t3[i] == t2[i] by {
                        assert(t3[i] == t3.subrange(0, t2.len() as int)[i]);
                    }
                    assert(t[n] == op_burst_write(Command::FIFO.spec_addr(), payload@));
                    assert(t[n + 1] == op_strobe(Command::STX));
                    assert(crate::poll_seg(
                        t,
                        n + 2,
                        t.len() - 1,
                        MachineState::IDLE.spec_value(),
                        true,
                    ));
                }
                Ok(())
            },
            Err(e) => Err(e),
        }
    }

    /// Starts a transmission without waiting for it: writes the
    /// payload to the FIFO and strobes transmit mode, nothing more.
    /// Completion is observed later with `transmit_poll`.
    pub fn transmit_start(&mut self, payload: &[u8; 32]) -> (r: Result<(), Error<B::Fault>>)
        ensures
            old(self).trace().is_prefix_of(final(self).trace()),
            r is Ok ==> final(self).trace() == old(self).trace() + seq![
                op_burst_write(Command::FIFO.spec_addr(), payload@),
                op_strobe(Command::STX),
            ],
    {
        match self.0.write_fifo(payload.as_slice()) {
            Ok(()) => (),
            Err(e) => {
                return Err(Error::Spi(e));
            },
        };
        let ghost t1 = self.trace();
        match self.send_radio_mode_strobe(RadioMode::Transmit) {
            Ok(_) => {
                proof {
                    let t = self.trace();
                    assert forall|i: int| 0 <= i < t1.len() implies t[i] == t1[i] by {
                        assert(t1[i] == t.subrange(0, t1.len() as int)[i]);
                    }
                    assert(self.trace() =~= old(self).trace() + seq![
                        op_burst_write(Command::FIFO.spec_addr(), payload@),
                        op_strobe(Command::STX),
                    ]);
                }
                Ok(())
            },
            Err(e) => Err(e),
        }
    }

    /// Finishes a started transmission without blocking: polls the
    /// machine state once; if the radio is back in idle, flushes the
    /// TX buffer and reports completion, else reports would-block and
    /// leaves the bus untouched beyond that single poll.
    pub fn transmit_poll(&mut self) -> (r: NbResult<(), Error<B::Fault>>)
        ensures
            old(self).trace().is_prefix_of(final(self).trace()),
            r is Ok ==> {
                let t = final(self).trace();
                let n = old(self).trace().len() as int;
                &&& t.len() == n + 2
                &&& t.subrange(0, n) == old(self).trace()
                &&& is_marc_poll(t[n])
                &&& polled_state(t[n]) == MachineState::IDLE.spec_value()
                &&& t[n + 1] == op_strobe(Command::SFTX)
            },
            r matches Err(e) && e is WouldBlock ==> {
                let t = final(self).trace();
                let n = old(self).trace().len() as int;
                &&& t.len() == n + 1
                &&& t.subrange(0, n) == old(self).trace()
                &&& is_marc_poll(t[n])
                &&& polled_state(t[n]) != MachineState::IDLE.spec_value()
            },
    {
        let idle = match self.is_state_machine(MachineState::IDLE) {
            Ok(b) => b,
            Err(e) => {
                return Err(NbError::Other(e));
            },
        };
        if idle {
            let ghost t1 = self.trace();
            match self.flush_tx() {
                Ok(()) => {
                    proof {
                        let t = self.trace();
                        let n = old(self).trace().len() as int;
                        assert(t.subrange(0, n) =~= old(self).trace());
                        assert(t[n] == t1[n]);
                    }
                    Ok(())
                },
                Err(e) => Err(NbError::Other(e)),
            }
        } else {
            proof {
                let t = self.trace();
                let n = old(self).trace().len() as int;
                assert(t.subrange(0, n) =~= old(self).trace());
            }
            Err(NbError::WouldBlock)
        }
    }

    /// Receives one fixed-length frame, without blocking. The
    /// ready-signal pin is high exactly when a complete, CRC-valid
    /// packet is buffered: while it reads low, this issues no bus
    /// transaction at all and reports would-block; once it reads
    /// high, one burst read drains the frame from the FIFO.
    pub fn receive<P: ReadyPin>(&mut self, gdo2: &mut P) -> (r: NbResult<Vec<u8>, Error<B::Fault>>)
        ensures
            old(self).trace().is_prefix_of(final(self).trace()),
            r matches Ok(payload) ==> {
                &&& final(gdo2).sampled() == old(gdo2).sampled().push(true)
                &&& payload@.len() == 32
                &&& final(self).trace() == old(self).trace().push(
                    op_burst_read(Command::FIFO.spec_addr(), payload@),
                )
            },
            r matches Err(e) && e is WouldBlock ==> {
                &&& final(gdo2).sampled() == old(gdo2).sampled().push(false)
                &&& final(self).trace() == old(self).trace()
            },
            r matches Err(e) && e is Other ==> final(gdo2).sampled() == old(gdo2).sampled().push(
                true,
            ),
    {
        if gdo2.is_high() {
            match self.0.read_fifo(FIXED_PACKET_LENGTH) {
                Ok(payload) => Ok(payload),
                Err(e) => Err(NbError::Other(Error::Spi(e))),
            }
        } else {
            Err(NbError::WouldBlock)
        }
    }


    /// Receives one fixed-length frame and explicitly checks the
    /// chip's CRC verdict before trusting it, without blocking: after
    /// the FIFO read, one status read of the link quality register
    /// follows, and a clear CRC flag is surfaced as a CRC mismatch
    /// rather than silently dropped.
    pub fn receive_checked<P: ReadyPin>(&mut self, gdo2: &mut P) -> (r: NbResult<
        Vec<u8>,
        Error<B::Fault>,
    >)
        ensures
            old(self).trace().is_prefix_of(final(self).trace()),
            r matches Ok(payload) ==> {
                let t = final(self).trace();
                let n = old(self).trace().len() as int;
                &&& final(gdo2).sampled() == old(gdo2).sampled().push(true)
                &&& payload@.len() == 32
                &&& t.len() == n + 2
                &&& t.subrange(0, n) == old(self).trace()
                &&& t[n] == op_burst_read(Command::FIFO.spec_addr(), payload@)
                &&& crate::is_reg_read(
                    t[n + 1],
                    crate::lowlevel::registers::Register::Status(
                        crate::lowlevel::registers::Status::LQI,
                    ),
                )
                &&& crate::read_value(t[n + 1]) >> 7 > 0
            },
            r matches Err(e) ==> (e is WouldBlock ==> {
                &&& final(gdo2).sampled() == old(gdo2).sampled().push(false)
                &&& final(self).trace() == old(self).trace()
            }),
            r matches Err(e) ==> (e matches NbError::Other(Error::CrcMismatch) ==> {
                let t = final(self).trace();
                let n = old(self).trace().len() as int;
                &&& t.len() == n + 2
                &&& crate::is_reg_read(
                    t[n + 1],
                    crate::lowlevel::registers::Register::Status(
                        crate::lowlevel::registers::Status::LQI,
                    ),
                )
                &&& crate::read_value(t[n + 1]) >> 7 == 0
            }),
    {
        if !gdo2.is_high() {
            return Err(NbError::WouldBlock);
        }
        let payload = match self.0.read_fifo(FIXED_PACKET_LENGTH) {
            Ok(v) => v,
            Err(e) => {
                return Err(NbError::Other(Error::Spi(e)));
            },
        };
        let ghost t1 = self.trace();
        let (crc_ok, _) = match self.get_crc_lqi() {
            Ok(v) => v,
            Err(e) => {
                return Err(NbError::Other(e));
            },
        };
        proof {
            let t = self.trace();
            let n = old(self).trace().len() as int;
            assert(t.subrange(0, n) =~= old(self).trace());
            assert(t[n] == t1[n]);
        }
        if crc_ok {
            Ok(payload)
        } else {
            Err(NbError::Other(Error::CrcMismatch))
        }
    }

    /// Receives one length-prefixed variable frame, without blocking.
    /// While the ready-signal pin reads low, no bus transaction is
    /// issued. Once it reads high, one burst read takes the length
    /// byte; a length over the variable-frame maximum is reported as
    /// an RX FIFO overflow, otherwise a second burst read drains that
    /// many payload bytes.
    pub fn receive_variable<P: ReadyPin>(&mut self, gdo2: &mut P) -> (r: NbResult<
        Vec<u8>,
        Error<B::Fault>,
    >)
        ensures
            old(self).trace().is_prefix_of(final(self).trace()),
            r matches Ok(payload) ==> {
                let t = final(self).trace();
                let n = old(self).trace().len() as int;
                &&& final(gdo2).sampled() == old(gdo2).sampled().push(true)
                &&& t.len() == n + 2
                &&& t.subrange(0, n) == old(self).trace()
                &&& payload@.len() <= 63
                &&& t[n] == op_burst_read(
                    Command::FIFO.spec_addr(),
                    seq![payload@.len() as u8],
                )
                &&& t[n + 1] == op_burst_read(Command::FIFO.spec_addr(), payload@)
            },
            r matches Err(e) && e is WouldBlock ==> {
                &&& final(gdo2).sampled() == old(gdo2).sampled().push(false)
                &&& final(self).trace() == old(self).trace()
            },
            r matches Err(e) ==> (e matches NbError::Other(Error::RxOverflow) ==> {
                let t = final(self).trace();
                let n = old(self).trace().len() as int;
                &&& final(gdo2).sampled() == old(gdo2).sampled().push(true)
                &&& t.len() == n + 1
                &&& exists|len_byte: u8|
                    len_byte > 63 && t[n] == op_burst_read(
                        Command::FIFO.spec_addr(),
                        seq![len_byte],
                    )
            }),
    {
        if !gdo2.is_high() {
            return Err(NbError::WouldBlock);
        }
        let header = match self.0.read_fifo(1) {
            Ok(v) => v,
            Err(e) => {
                return Err(NbError::Other(Error::Spi(e)));
            },
        };
        let length = header[0];
        if length as usize > MAX_VARIABLE_PACKET_LENGTH {
            proof {
                let t = self.trace();
                let n = old(self).trace().len() as int;
                assert(header@ =~= seq![length]);
                assert(t[n] == op_burst_read(Command::FIFO.spec_addr(), seq![length]));
                assert(exists|len_byte: u8|
                    len_byte > 63 && t[n] == op_burst_read(
                        Command::FIFO.spec_addr(),
                        seq![len_byte],
                    ));
            }
            return Err(NbError::Other(Error::RxOverflow));
        }
        let ghost t1 = self.trace();
        match self.0.read_fifo(length as usize) {
            Ok(payload) => {
                proof {
                    let t = self.trace();
                    let n = old(self).trace().len() as int;
                    assert(t.subrange(0, n) =~= old(self).trace());
                    assert(header@ =~= seq![header@[0]]);
                    assert(t[n] == t1[n]);
                }
                Ok(payload)
            },
            Err(e) => Err(NbError::Other(Error::Spi(e))),
        }
    }

    /// Applies the fixed register configuration profile and then
    /// rewrites the power amplifier table. The table is volatile
    /// across power-down, so `configure` always rewrites it: one call
    /// fully restores a chip that has been powered down.
    pub fn configure(&mut self) -> (r: Result<(), B::Fault>)
        ensures
            old(self).trace().is_prefix_of(final(self).trace()),
            r is Ok ==> final(self).trace() == old(self).trace() + config_profile().push(
                op_burst_write(Command::PATABLE.spec_addr(), patable_bytes()),
            ),
    {
        match config_1(self) {
            Ok(()) => (),
            Err(e) => {
                return Err(e);
            },
        };
        match self.write_patable() {
            Ok(()) => {
                proof {
                    assert(self.trace() =~= old(self).trace() + config_profile().push(
                        op_burst_write(Command::PATABLE.spec_addr(), patable_bytes()),
                    ));
                }
                Ok(())
            },
            Err(e) => Err(e),
        }
    }

    /// Programs the fixed output-power table. It is lost whenever the
    /// chip powers down and must be rewritten before the next use.
    pub fn write_patable(&mut self) -> (r: Result<(), B::Fault>)
        ensures
            old(self).trace().is_prefix_of(final(self).trace()),
            r is Ok ==> final(self).trace() == old(self).trace().push(
                op_burst_write(Command::PATABLE.spec_addr(), patable_bytes()),
            ),
    {
        let table: [u8; 8] = [0x03, 0x0E, 0x1E, 0x27, 0x8E, 0xCD, 0xC7, 0xC0];
        proof {
            assert(table@ =~= patable_bytes());
        }
        self.0.write_patable(table.as_slice())
    }
}

} // verus!
