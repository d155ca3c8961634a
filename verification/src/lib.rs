//! Driver for a sub-GHz SPI-attached radio transceiver chip.
//!
//! The driver is split in layers. The bus framer ([`lowlevel`]) builds
//! correctly-addressed single, burst and strobe transactions on top of a
//! caller-supplied bus port; the parameter codecs ([`lowlevel::convert`])
//! translate physical units into the chip's register encodings; the radio
//! state machine and the packet paths sequence strobes, status polls and
//! FIFO transfers. Every bus transaction a driver call performs is
//! recorded in a ghost trace, and each operation's contract states the
//! exact transactions it adds to that trace.
//!
//! Every status poll loop is bounded: where the chip never reports the
//! awaited state, the driver returns [`Error::TimedOut`] instead of
//! spinning forever.

use vstd::prelude::*;

pub mod config0;
mod configs;
pub mod lowlevel;
pub mod port;
pub mod rssi;

use crate::lowlevel::convert::{
    from_deviation, from_drate, from_frequency, from_freq_if, spec_from_chanbw,
    spec_from_deviation, spec_from_drate, spec_from_freq_if, spec_from_frequency, from_chanbw,
};
use crate::lowlevel::registers::{Command, Config, Register, Status};
use crate::lowlevel::types::{
    with_adr_chk, with_chanbw_e, with_chanbw_m, with_deviation_e, with_deviation_m, with_drate_e,
    with_filter_length, with_freq_if, with_fs_autocal, with_length_config, with_magn_target,
    with_mod_format, with_sync_mode, AddressCheck, AutoCalibration, LengthConfig, MachineState,
    ModFormat, SyncCheck, AGCCTRL0, AGCCTRL2, DEVIATN, FSCTRL1, LQI, MARCSTATE, MCSM0, MDMCFG2,
    MDMCFG3, MDMCFG4, SYNC0, SYNC1,
};
use crate::lowlevel::{
    is_reg_read, is_status_exchange, op_reg_write, op_strobe, read_value, reg_rmw_step,
    status_byte,
};
use crate::port::{BusPort, TraceOp};
use crate::rssi::{rssi_to_dbm, spec_rssi_dbm};

verus! {

broadcast use crate::port::lemma_prefix_push, crate::port::lemma_prefix_transitive;

/// Driver errors.
#[derive(Debug)]
pub enum Error<SpiE> {
    /// Platform-dependent bus error, propagated from the bus port.
    Spi(SpiE),
    /// The RX FIFO buffer overflowed: too small a buffer for the
    /// configured packet length.
    RxOverflow,
    /// Corrupt packet received with invalid CRC.
    CrcMismatch,
    /// A status poll loop exhausted its attempt bound without observing
    /// the expected machine state.
    TimedOut,
}

impl<SpiE> From<SpiE> for Error<SpiE> {
    fn from(e: SpiE) -> (r: Self) {
        Error::Spi(e)
    }
}

impl<SpiE> vstd::std_specs::convert::FromSpecImpl<SpiE> for Error<SpiE> {
    open spec fn obeys_from_spec() -> bool {
        true
    }

    open spec fn from_spec(e: SpiE) -> Self {
        Error::Spi(e)
    }
}

/// Outcome of a non-blocking call that cannot finish yet.
#[derive(Debug)]
pub enum NbError<E> {
    /// The underlying operation failed.
    Other(E),
    /// The operation cannot complete yet; retry later.
    WouldBlock,
}

/// Result of a non-blocking call.
pub type NbResult<T, E> = Result<T, NbError<E>>;

/// How many status polls a blocking wait spends before it gives up and
/// returns [`Error::TimedOut`].
pub const MAX_STATE_POLLS: usize = 4096;

/// Modulation format configuration.
#[derive(Copy, Clone, Debug, PartialEq, Eq, Structural)]
pub enum Modulation {
    /// 2-FSK.
    BinaryFrequencyShiftKeying,
    /// GFSK.
    GaussianFrequencyShiftKeying,
    /// ASK / OOK.
    OnOffKeying,
    /// 4-FSK.
    FourFrequencyShiftKeying,
    /// MSK.
    MinimumShiftKeying,
}

/// Packet length configuration.
#[derive(Copy, Clone, Debug, PartialEq, Eq, Structural)]
pub enum PacketLength {
    /// Set packet length to a fixed value.
    Fixed(u8),
    /// Set upper bound of variable packet length.
    Variable(u8),
    /// Infinite packet length, streaming mode.
    Infinite,
}

/// Address check configuration.
#[derive(Copy, Clone, Debug, PartialEq, Eq, Structural)]
pub enum AddressFilter {
    /// No address check.
    Disabled,
    /// Address check, no broadcast.
    Device(u8),
    /// Address check and 0 (0x00) broadcast.
    DeviceLowBroadcast(u8),
    /// Address check and 0 (0x00) and 255 (0xFF) broadcast.
    DeviceHighLowBroadcast(u8),
}

/// Radio operational mode.
#[derive(Copy, Clone, Debug, PartialEq, Eq, Structural)]
pub enum RadioMode {
    Receive,
    Transmit,
    Idle,
    Calibrate,
}

/// Sync word configuration.
#[derive(Copy, Clone, Debug, PartialEq, Eq, Structural)]
pub enum SyncMode {
    /// No sync word.
    Disabled,
    /// Match 15 of 16 bits of given sync word.
    MatchPartial(u16),
    /// Match 30 of 32 bits of a repetition of given sync word.
    MatchPartialRepeated(u16),
    /// Match 16 of 16 bits of given sync word.
    MatchFull(u16),
}

/// Target amplitude for AGC.
#[derive(Copy, Clone, Debug, PartialEq, Eq, Structural)]
pub enum TargetAmplitude {
    /// 24 dB
    Db24,
    /// 27 dB
    Db27,
    /// 30 dB
    Db30,
    /// 33 dB
    Db33,
    /// 36 dB
    Db36,
    /// 38 dB
    Db38,
    /// 40 dB
    Db40,
    /// 42 dB
    Db42,
}

impl TargetAmplitude {
    /// The three-bit field encoding of this target.
    pub open spec fn spec_value(self) -> u8 {
        match self {
            TargetAmplitude::Db24 => 0,
            TargetAmplitude::Db27 => 1,
            TargetAmplitude::Db30 => 2,
            TargetAmplitude::Db33 => 3,
            TargetAmplitude::Db36 => 4,
            TargetAmplitude::Db38 => 5,
            TargetAmplitude::Db40 => 6,
            TargetAmplitude::Db42 => 7,
        }
    }

    /// The three-bit field encoding of this target.
    pub fn value(self) -> (r: u8)
        ensures
            r == self.spec_value(),
    {
        match self {
            TargetAmplitude::Db24 => 0,
            TargetAmplitude::Db27 => 1,
            TargetAmplitude::Db30 => 2,
            TargetAmplitude::Db33 => 3,
            TargetAmplitude::Db36 => 4,
            TargetAmplitude::Db38 => 5,
            TargetAmplitude::Db40 => 6,
            TargetAmplitude::Db42 => 7,
        }
    }
}

impl From<TargetAmplitude> for u8 {
    fn from(value: TargetAmplitude) -> (r: u8) {
        value.value()
    }
}

impl vstd::std_specs::convert::FromSpecImpl<TargetAmplitude> for u8 {
    open spec fn obeys_from_spec() -> bool {
        true
    }

    open spec fn from_spec(value: TargetAmplitude) -> u8 {
        value.spec_value()
    }
}

/// Channel filter samples or OOK/ASK decision boundary for AGC.
#[derive(Copy, Clone, Debug, PartialEq, Eq, Structural)]
pub enum FilterLength {
    /// 8 filter samples for FSK/MSK, or 4 dB for OOK/ASK.
    Samples8,
    /// 16 filter samples for FSK/MSK, or 8 dB for OOK/ASK.
    Samples16,
    /// 32 filter samples for FSK/MSK, or 12 dB for OOK/ASK.
    Samples32,
    /// 64 filter samples for FSK/MSK, or 16 dB for OOK/ASK.
    Samples64,
}

impl FilterLength {
    /// The two-bit field encoding of this filter length.
    pub open spec fn spec_value(self) -> u8 {
        match self {
            FilterLength::Samples8 => 0,
            FilterLength::Samples16 => 1,
            FilterLength::Samples32 => 2,
            FilterLength::Samples64 => 3,
        }
    }

    /// The two-bit field encoding of this filter length.
    pub fn value(self) -> (r: u8)
        ensures
            r == self.spec_value(),
    {
        match self {
            FilterLength::Samples8 => 0,
            FilterLength::Samples16 => 1,
            FilterLength::Samples32 => 2,
            FilterLength::Samples64 => 3,
        }
    }
}

impl From<FilterLength> for u8 {
    fn from(value: FilterLength) -> (r: u8) {
        value.value()
    }
}

impl vstd::std_specs::convert::FromSpecImpl<FilterLength> for u8 {
    open spec fn obeys_from_spec() -> bool {
        true
    }

    open spec fn from_spec(value: FilterLength) -> u8 {
        value.spec_value()
    }
}

/// The strobe that requests a radio mode.
pub open spec fn mode_strobe(mode: RadioMode) -> Command {
    match mode {
        RadioMode::Receive => Command::SRX,
        RadioMode::Transmit => Command::STX,
        RadioMode::Idle => Command::SIDLE,
        RadioMode::Calibrate => Command::SCAL,
    }
}

/// The machine state in which a requested mode transition is complete.
pub open spec fn mode_target(mode: RadioMode) -> MachineState {
    match mode {
        RadioMode::Receive => MachineState::RX,
        RadioMode::Transmit => MachineState::TX,
        RadioMode::Idle => MachineState::IDLE,
        RadioMode::Calibrate => MachineState::IDLE,
    }
}

/// Entering `Calibrate` routes through `Idle` first, so it ranks above
/// the direct modes.
pub open spec fn mode_rank(mode: RadioMode) -> nat {
    match mode {
        RadioMode::Calibrate => 1,
        _ => 0,
    }
}

/// Does `op` poll the machine state register?
pub open spec fn is_marc_poll(op: TraceOp) -> bool {
    is_reg_read(op, Register::Status(Status::MARCSTATE))
}

/// The five-bit machine state code a poll returned.
pub open spec fn polled_state(op: TraceOp) -> u8 {
    read_value(op) & 0x1F
}

/// `t[lo..hi]` is a run of machine state polls: every poll before the
/// last observed a state other than `target`, and the last observed
/// `target` exactly when `reached` holds.
pub open spec fn poll_seg(t: Seq<TraceOp>, lo: int, hi: int, target: u8, reached: bool) -> bool {
    &&& 0 <= lo < hi <= t.len()
    &&& (forall|i: int| lo <= i < hi ==> is_marc_poll(#[trigger] t[i]))
    &&& (forall|i: int| lo <= i < hi - 1 ==> polled_state(#[trigger] t[i]) != target)
    &&& reached == (polled_state(t[hi - 1]) == target)
}

/// `t[lo..hi]` is one strobe of `cmd` followed by a poll run that ends
/// on `target`.
pub open spec fn strobe_then_await(
    t: Seq<TraceOp>,
    lo: int,
    hi: int,
    cmd: Command,
    target: u8,
) -> bool {
    &&& 0 <= lo < hi <= t.len()
    &&& t[lo] == op_strobe(cmd)
    &&& poll_seg(t, lo + 1, hi, target, true)
}

/// `t[lo..hi]` holds the strobes that request `mode`: one strobe for
/// the direct modes; for `Calibrate`, an idle strobe, a poll run back
/// to idle, then the calibrate strobe.
pub open spec fn mode_strobe_seg(t: Seq<TraceOp>, lo: int, hi: int, mode: RadioMode) -> bool {
    if mode is Calibrate {
        &&& 0 <= lo
        &&& lo < hi - 1
        &&& hi <= t.len()
        &&& strobe_then_await(t, lo, hi - 1, Command::SIDLE, MachineState::IDLE.spec_value())
        &&& t[hi - 1] == op_strobe(Command::SCAL)
    } else {
        &&& 0 <= lo < hi <= t.len()
        &&& hi == lo + 1
        &&& t[lo] == op_strobe(mode_strobe(mode))
    }
}

/// `t[lo..hi]` is a complete entry into `mode`: the mode's strobes,
/// then a poll run that ends on the mode's terminal state.
pub open spec fn mode_entry(t: Seq<TraceOp>, lo: int, hi: int, mode: RadioMode) -> bool {
    exists|mid: int|
        #![auto]
        mode_strobe_seg(t, lo, mid, mode) && poll_seg(
            t,
            mid,
            hi,
            mode_target(mode).spec_value(),
            true,
        )
}

/// `t[lo..hi]` is a run of no-op status exchanges: every exchange
/// before the last saw the chip still unready, and the last saw it
/// ready exactly when `success` holds.
pub open spec fn ready_seg(t: Seq<TraceOp>, lo: int, hi: int, success: bool) -> bool {
    &&& 0 <= lo < hi <= t.len()
    &&& (forall|i: int| lo <= i < hi ==> is_status_exchange(#[trigger] t[i]))
    &&& (forall|i: int| lo <= i < hi - 1 ==> status_byte(#[trigger] t[i]) & 0x80 != 0)
    &&& success == (status_byte(t[hi - 1]) & 0x80 == 0)
}


/// The sync word qualifier field value and the sync word a sync mode
/// configures; a disabled check restores the reset sync word.
pub open spec fn sync_parts(m: SyncMode) -> (u8, u16) {
    match m {
        SyncMode::Disabled => (SyncCheck::DISABLED.spec_value(), 0xD391),
        SyncMode::MatchPartial(w) => (SyncCheck::CHECK_15_16.spec_value(), w),
        SyncMode::MatchPartialRepeated(w) => (SyncCheck::CHECK_30_32.spec_value(), w),
        SyncMode::MatchFull(w) => (SyncCheck::CHECK_16_16.spec_value(), w),
    }
}

/// The modulation format field value of a modulation choice.
pub open spec fn mod_format_value(format: Modulation) -> u8 {
    match format {
        Modulation::BinaryFrequencyShiftKeying => ModFormat::MOD_2FSK.spec_value(),
        Modulation::GaussianFrequencyShiftKeying => ModFormat::MOD_GFSK.spec_value(),
        Modulation::OnOffKeying => ModFormat::MOD_ASK_OOK.spec_value(),
        Modulation::FourFrequencyShiftKeying => ModFormat::MOD_4FSK.spec_value(),
        Modulation::MinimumShiftKeying => ModFormat::MOD_MSK.spec_value(),
    }
}

/// The address check field value and the device address an address
/// filter configures; a disabled filter restores the reset address.
pub open spec fn address_parts(filter: AddressFilter) -> (u8, u8) {
    match filter {
        AddressFilter::Disabled => (AddressCheck::DISABLED.spec_value(), 0),
        AddressFilter::Device(a) => (AddressCheck::SELF.spec_value(), a),
        AddressFilter::DeviceLowBroadcast(a) => (AddressCheck::SELF_LOW_BROADCAST.spec_value(), a),
        AddressFilter::DeviceHighLowBroadcast(a) => (
            AddressCheck::SELF_HIGH_LOW_BROADCAST.spec_value(),
            a,
        ),
    }
}

/// The length mode field value and the packet length byte a packet
/// length choice configures; infinite mode keeps the reset length.
pub open spec fn length_parts(length: PacketLength) -> (u8, u8) {
    match length {
        PacketLength::Fixed(limit) => (LengthConfig::FIXED.spec_value(), limit),
        PacketLength::Variable(max_limit) => (LengthConfig::VARIABLE.spec_value(), max_limit),
        PacketLength::Infinite => (LengthConfig::INFINITE.spec_value(), 0xFF),
    }
}


/// A read-modify-write whose written byte agrees with `h` on the byte
/// actually read is a read-modify-write of `h`.
proof fn lemma_rmw_named<F: Fn(u8) -> u8>(
    pre: Seq<TraceOp>,
    post: Seq<TraceOp>,
    reg: Config,
    f: F,
    h: spec_fn(u8) -> u8,
)
    requires
        exists|g: spec_fn(u8) -> u8|
            reg_rmw_step(pre, post, reg, g) && call_ensures(
                f,
                (read_value(post[pre.len() as int]),),
                g(read_value(post[pre.len() as int])),
            ),
        forall|b: u8, out: u8| call_ensures(f, (b,), out) ==> out == h(b),
    ensures
        reg_rmw_step(pre, post, reg, h),
{
    let g = choose|g: spec_fn(u8) -> u8|
        reg_rmw_step(pre, post, reg, g) && call_ensures(
            f,
            (read_value(post[pre.len() as int]),),
            g(read_value(post[pre.len() as int])),
        );
    assert(g(read_value(post[pre.len() as int])) == h(read_value(post[pre.len() as int])));
}

/// High level API for interacting with the radio chip.
pub struct Cc1101<B>(pub lowlevel::Cc1101<B>);

impl<B: BusPort> Cc1101<B> {
    /// All bus transactions performed through this driver, oldest
    /// first.
    pub open spec fn trace(&self) -> Seq<TraceOp> {
        self.0.trace()
    }

    /// Makes a new driver over a bus port.
    ///
    /// Callers should `reset` the chip right after, wait about a
    /// millisecond for it to stabilize, and then `configure` it.
    pub fn new(spi: B) -> (r: Result<Self, Error<B::Fault>>)
        ensures
            r matches Ok(c) ==> c.trace() == spi.trace(),
    {
        match lowlevel::Cc1101::new(spi) {
            Ok(c) => Ok(Cc1101(c)),
            Err(e) => Err(Error::Spi(e)),
        }
    }

    /// Resets the chip.
    pub fn reset(&mut self) -> (r: Result<(), Error<B::Fault>>)
        ensures
            old(self).trace().is_prefix_of(final(self).trace()),
            r is Ok ==> final(self).trace() == old(self).trace().push(op_strobe(Command::SRES)),
    {
        match self.0.write_strobe(Command::SRES) {
            Ok(()) => Ok(()),
            Err(e) => Err(Error::Spi(e)),
        }
    }

    /// Flushes the RX FIFO buffer.
    pub fn flush_rx(&mut self) -> (r: Result<(), Error<B::Fault>>)
        ensures
            old(self).trace().is_prefix_of(final(self).trace()),
            r is Ok ==> final(self).trace() == old(self).trace().push(op_strobe(Command::SFRX)),
    {
        match self.0.write_strobe(Command::SFRX) {
            Ok(()) => Ok(()),
            Err(e) => Err(Error::Spi(e)),
        }
    }

    /// Flushes the TX FIFO buffer.
    pub fn flush_tx(&mut self) -> (r: Result<(), Error<B::Fault>>)
        ensures
            old(self).trace().is_prefix_of(final(self).trace()),
            r is Ok ==> final(self).trace() == old(self).trace().push(op_strobe(Command::SFTX)),
    {
        match self.0.write_strobe(Command::SFTX) {
            Ok(()) => Ok(()),
            Err(e) => Err(Error::Spi(e)),
        }
    }

    /// Enters power-down mode once the chip-select line goes high.
    /// The power table is lost afterwards, so it has to be written
    /// again with `write_patable`.
    pub fn power_down(&mut self) -> (r: Result<(), Error<B::Fault>>)
        ensures
            old(self).trace().is_prefix_of(final(self).trace()),
            r is Ok ==> final(self).trace() == old(self).trace().push(op_strobe(Command::SPWD)),
    {
        match self.0.write_strobe(Command::SPWD) {
            Ok(()) => Ok(()),
            Err(e) => Err(Error::Spi(e)),
        }
    }

    /// Reads the hardware part number and version.
    pub fn get_hw_info(&mut self) -> (r: Result<(u8, u8), Error<B::Fault>>)
        ensures
            old(self).trace().is_prefix_of(final(self).trace()),
            r matches Ok(v) ==> {
                let t = final(self).trace();
                let n = old(self).trace().len() as int;
                &&& t.len() == n + 2
                &&& t.subrange(0, n) == old(self).trace()
                &&& is_reg_read(t[n], Register::Status(Status::PARTNUM))
                &&& read_value(t[n]) == v.0
                &&& is_reg_read(t[n + 1], Register::Status(Status::VERSION))
                &&& read_value(t[n + 1]) == v.1
            },
    {
        let partnum = match self.0.read_register(Register::Status(Status::PARTNUM)) {
            Ok(v) => v,
            Err(e) => {
                return Err(Error::Spi(e));
            },
        };
        let version = match self.0.read_register(Register::Status(Status::VERSION)) {
            Ok(v) => v,
            Err(e) => {
                return Err(Error::Spi(e));
            },
        };
        proof {
            assert(self.trace().subrange(0, old(self).trace().len() as int) =~= old(self).trace());
        }
        Ok((partnum, version))
    }

    /// Reads the received signal strength indicator, in dBm: an
    /// estimate of the signal power level in the chosen channel.
    pub fn get_rssi_dbm(&mut self) -> (r: Result<i16, Error<B::Fault>>)
        ensures
            old(self).trace().is_prefix_of(final(self).trace()),
            r matches Ok(v) ==> {
                let t = final(self).trace();
                &&& t.len() == old(self).trace().len() + 1
                &&& t.drop_last() == old(self).trace()
                &&& is_reg_read(t.last(), Register::Status(Status::RSSI))
                &&& v == spec_rssi_dbm(read_value(t.last()))
            },
    {
        match self.0.read_register(Register::Status(Status::RSSI)) {
            Ok(raw) => Ok(rssi_to_dbm(raw)),
            Err(e) => Err(Error::Spi(e)),
        }
    }

    /// Reads the link quality indicator of the last received packet,
    /// and whether its CRC check passed.
    pub fn get_crc_lqi(&mut self) -> (r: Result<(bool, u8), Error<B::Fault>>)
        ensures
            old(self).trace().is_prefix_of(final(self).trace()),
            r matches Err(e) ==> e is Spi,
            r matches Ok(v) ==> {
                let t = final(self).trace();
                &&& t.len() == old(self).trace().len() + 1
                &&& t.drop_last() == old(self).trace()
                &&& is_reg_read(t.last(), Register::Status(Status::LQI))
                &&& v.0 == (read_value(t.last()) >> 7 > 0)
                &&& v.1 == (read_value(t.last()) & 0x7F)
            },
    {
        match self.0.read_register(Register::Status(Status::LQI)) {
            Ok(raw) => {
                let lqi = LQI(raw);
                Ok((lqi.crc_ok() > 0, lqi.lqi()))
            },
            Err(e) => Err(Error::Spi(e)),
        }
    }

    /// Reads the chip's current machine state code.
    pub fn get_marc_state(&mut self) -> (r: Result<u8, Error<B::Fault>>)
        ensures
            old(self).trace().is_prefix_of(final(self).trace()),
            final(self).trace().len() <= old(self).trace().len() + 1,
            r matches Err(e) ==> e is Spi,
            r matches Ok(v) ==> {
                let t = final(self).trace();
                &&& t.len() == old(self).trace().len() + 1
                &&& t.drop_last() == old(self).trace()
                &&& is_marc_poll(t.last())
                &&& v == polled_state(t.last())
            },
    {
        match self.0.read_register(Register::Status(Status::MARCSTATE)) {
            Ok(raw) => Ok(MARCSTATE(raw).marc_state()),
            Err(e) => Err(Error::Spi(e)),
        }
    }

    /// Polls the machine state once and reports whether it equals
    /// `target`: the non-blocking step of every mode wait.
    pub fn is_state_machine(&mut self, target: MachineState) -> (r: Result<bool, Error<B::Fault>>)
        ensures
            old(self).trace().is_prefix_of(final(self).trace()),
            final(self).trace().len() <= old(self).trace().len() + 1,
            r matches Err(e) ==> e is Spi,
            r matches Ok(b) ==> {
                let t = final(self).trace();
                &&& t.len() == old(self).trace().len() + 1
                &&& t.drop_last() == old(self).trace()
                &&& is_marc_poll(t.last())
                &&& b == (polled_state(t.last()) == target.spec_value())
            },
    {
        let state = match self.get_marc_state() {
            Ok(v) => v,
            Err(e) => {
                return Err(e);
            },
        };
        Ok(target.value() == state)
    }


    /// Sets the carrier frequency (in Hertz).
    pub fn set_frequency(&mut self, hz: u64) -> (r: Result<(), Error<B::Fault>>)
        ensures
            old(self).trace().is_prefix_of(final(self).trace()),
            r is Ok ==> final(self).trace() == old(self).trace() + seq![
                op_reg_write(Config::FREQ0, spec_from_frequency(hz).0),
                op_reg_write(Config::FREQ1, spec_from_frequency(hz).1),
                op_reg_write(Config::FREQ2, spec_from_frequency(hz).2),
            ],
    {
        let (freq0, freq1, freq2) = from_frequency(hz);
        match self.0.write_register(Config::FREQ0, freq0) {
            Ok(()) => (),
            Err(e) => {
                return Err(Error::Spi(e));
            },
        };
        match self.0.write_register(Config::FREQ1, freq1) {
            Ok(()) => (),
            Err(e) => {
                return Err(Error::Spi(e));
            },
        };
        match self.0.write_register(Config::FREQ2, freq2) {
            Ok(()) => (),
            Err(e) => {
                return Err(Error::Spi(e));
            },
        };
        proof {
            assert(self.trace() =~= old(self).trace() + seq![
                op_reg_write(Config::FREQ0, spec_from_frequency(hz).0),
                op_reg_write(Config::FREQ1, spec_from_frequency(hz).1),
                op_reg_write(Config::FREQ2, spec_from_frequency(hz).2),
            ]);
        }
        Ok(())
    }

    /// Sets the frequency synthesizer intermediate frequency (in
    /// Hertz).
    pub fn set_synthesizer_if(&mut self, hz: u64) -> (r: Result<(), Error<B::Fault>>)
        ensures
            old(self).trace().is_prefix_of(final(self).trace()),
            r is Ok ==> final(self).trace() == old(self).trace().push(
                op_reg_write(Config::FSCTRL1, with_freq_if(0x0F, spec_from_freq_if(hz))),
            ),
    {
        let w = from_freq_if(hz);
        match self.0.write_register(Config::FSCTRL1, FSCTRL1::default().freq_if(w).bits()) {
            Ok(()) => Ok(()),
            Err(e) => Err(Error::Spi(e)),
        }
    }

    /// Sets the target value for the averaged amplitude from the
    /// digital channel filter.
    pub fn set_agc_target(&mut self, target: TargetAmplitude) -> (r: Result<(), Error<B::Fault>>)
        ensures
            old(self).trace().is_prefix_of(final(self).trace()),
            r is Ok ==> reg_rmw_step(
                old(self).trace(),
                final(self).trace(),
                Config::AGCCTRL2,
                (|b: u8| with_magn_target(b, target.spec_value())),
            ),
    {
        let f = |b: u8| -> (out: u8)
            ensures
                out == with_magn_target(b, target.spec_value()),
            { AGCCTRL2(b).magn_target(target.value()).bits() };
        match self.0.modify_register(Config::AGCCTRL2, f) {
            Ok(()) => {
                proof {
                    lemma_rmw_named(
                        old(self).trace(),
                        self.trace(),
                        Config::AGCCTRL2,
                        f,
                        (|b: u8| with_magn_target(b, target.spec_value())),
                    );
                }
                Ok(())
            },
            Err(e) => Err(Error::Spi(e)),
        }
    }

    /// Sets the filter length (in FSK/MSK mode) or decision boundary
    /// (in OOK/ASK mode) for the AGC.
    pub fn set_agc_filter_length(&mut self, filter_length: FilterLength) -> (r: Result<
        (),
        Error<B::Fault>,
    >)
        ensures
            old(self).trace().is_prefix_of(final(self).trace()),
            r is Ok ==> reg_rmw_step(
                old(self).trace(),
                final(self).trace(),
                Config::AGCCTRL0,
                (|b: u8| with_filter_length(b, filter_length.spec_value())),
            ),
    {
        let f = |b: u8| -> (out: u8)
            ensures
                out == with_filter_length(b, filter_length.spec_value()),
            { AGCCTRL0(b).filter_length(filter_length.value()).bits() };
        match self.0.modify_register(Config::AGCCTRL0, f) {
            Ok(()) => {
                proof {
                    lemma_rmw_named(
                        old(self).trace(),
                        self.trace(),
                        Config::AGCCTRL0,
                        f,
                        (|b: u8| with_filter_length(b, filter_length.spec_value())),
                    );
                }
                Ok(())
            },
            Err(e) => Err(Error::Spi(e)),
        }
    }

    /// Configures when the chip runs automatic calibration.
    pub fn set_autocalibration(&mut self, autocal: AutoCalibration) -> (r: Result<
        (),
        Error<B::Fault>,
    >)
        ensures
            old(self).trace().is_prefix_of(final(self).trace()),
            r is Ok ==> reg_rmw_step(
                old(self).trace(),
                final(self).trace(),
                Config::MCSM0,
                (|b: u8| with_fs_autocal(b, autocal.spec_value())),
            ),
    {
        let f = |b: u8| -> (out: u8)
            ensures
                out == with_fs_autocal(b, autocal.spec_value()),
            { MCSM0(b).fs_autocal(autocal.value()).bits() };
        match self.0.modify_register(Config::MCSM0, f) {
            Ok(()) => {
                proof {
                    lemma_rmw_named(
                        old(self).trace(),
                        self.trace(),
                        Config::MCSM0,
                        f,
                        (|b: u8| with_fs_autocal(b, autocal.spec_value())),
                    );
                }
                Ok(())
            },
            Err(e) => Err(Error::Spi(e)),
        }
    }

    /// Sets the frequency deviation (in Hertz).
    pub fn set_deviation(&mut self, deviation: u64) -> (r: Result<(), Error<B::Fault>>)
        ensures
            old(self).trace().is_prefix_of(final(self).trace()),
            r is Ok ==> final(self).trace() == old(self).trace().push(
                op_reg_write(
                    Config::DEVIATN,
                    with_deviation_e(
                        with_deviation_m(0x47, spec_from_deviation(deviation).0),
                        spec_from_deviation(deviation).1,
                    ),
                ),
            ),
    {
        let (mantissa, exponent) = from_deviation(deviation);
        let byte = DEVIATN::default().deviation_m(mantissa).deviation_e(exponent).bits();
        match self.0.write_register(Config::DEVIATN, byte) {
            Ok(()) => Ok(()),
            Err(e) => Err(Error::Spi(e)),
        }
    }

    /// Sets the data rate (in bits per second).
    pub fn set_data_rate(&mut self, baud: u64) -> (r: Result<(), Error<B::Fault>>)
        ensures
            old(self).trace().is_prefix_of(final(self).trace()),
            r is Ok ==> {
                let t = final(self).trace();
                let n = old(self).trace().len() as int;
                &&& t.len() == n + 3
                &&& t.subrange(0, n) == old(self).trace()
                &&& is_reg_read(t[n], Register::Config(Config::MDMCFG4))
                &&& t[n + 1] == op_reg_write(
                    Config::MDMCFG4,
                    with_drate_e(read_value(t[n]), spec_from_drate(baud).1),
                )
                &&& t[n + 2] == op_reg_write(Config::MDMCFG3, spec_from_drate(baud).0)
            },
    {
        let (mantissa, exponent) = from_drate(baud);
        let f = |b: u8| -> (out: u8)
            ensures
                out == with_drate_e(b, spec_from_drate(baud).1),
            { MDMCFG4(b).drate_e(exponent).bits() };
        match self.0.modify_register(Config::MDMCFG4, f) {
            Ok(()) => (),
            Err(e) => {
                return Err(Error::Spi(e));
            },
        };
        proof {
            lemma_rmw_named(
                old(self).trace(),
                self.trace(),
                Config::MDMCFG4,
                f,
                (|b: u8| with_drate_e(b, spec_from_drate(baud).1)),
            );
        }
        let ghost t1 = self.trace();
        match self.0.write_register(Config::MDMCFG3, MDMCFG3::default().drate_m(mantissa).bits()) {
            Ok(()) => {
                proof {
                    let t = self.trace();
                    let n = old(self).trace().len() as int;
                    assert(t.subrange(0, n) =~= old(self).trace());
                    assert(t[n] == t1[n] && t[n + 1] == t1[n + 1]);
                }
                Ok(())
            },
            Err(e) => Err(Error::Spi(e)),
        }
    }

    /// Sets the channel bandwidth (in Hertz).
    pub fn set_chanbw(&mut self, bandwidth: u64) -> (r: Result<(), Error<B::Fault>>)
        ensures
            old(self).trace().is_prefix_of(final(self).trace()),
            r is Ok ==> reg_rmw_step(
                old(self).trace(),
                final(self).trace(),
                Config::MDMCFG4,
                (|b: u8| with_chanbw_e(
                    with_chanbw_m(b, spec_from_chanbw(bandwidth).0),
                    spec_from_chanbw(bandwidth).1,
                )),
            ),
    {
        let (mantissa, exponent) = from_chanbw(bandwidth);
        let f = |b: u8| -> (out: u8)
            ensures
                out == with_chanbw_e(
                    with_chanbw_m(b, spec_from_chanbw(bandwidth).0),
                    spec_from_chanbw(bandwidth).1,
                ),
            { MDMCFG4(b).chanbw_m(mantissa).chanbw_e(exponent).bits() };
        match self.0.modify_register(Config::MDMCFG4, f) {
            Ok(()) => {
                proof {
                    lemma_rmw_named(
                        old(self).trace(),
                        self.trace(),
                        Config::MDMCFG4,
                        f,
                        (|b: u8| with_chanbw_e(
                            with_chanbw_m(b, spec_from_chanbw(bandwidth).0),
                            spec_from_chanbw(bandwidth).1,
                        )),
                    );
                }
                Ok(())
            },
            Err(e) => Err(Error::Spi(e)),
        }
    }

    /// Configures the sync word to use, and at what level it should be
    /// verified.
    pub fn set_sync_mode(&mut self, sync_mode: SyncMode) -> (r: Result<(), Error<B::Fault>>)
        ensures
            old(self).trace().is_prefix_of(final(self).trace()),
            r is Ok ==> {
                let t = final(self).trace();
                let n = old(self).trace().len() as int;
                &&& t.len() == n + 4
                &&& t.subrange(0, n) == old(self).trace()
                &&& is_reg_read(t[n], Register::Config(Config::MDMCFG2))
                &&& t[n + 1] == op_reg_write(
                    Config::MDMCFG2,
                    with_sync_mode(read_value(t[n]), sync_parts(sync_mode).0),
                )
                &&& t[n + 2] == op_reg_write(Config::SYNC1, (sync_parts(sync_mode).1 >> 8) as u8)
                &&& t[n + 3] == op_reg_write(Config::SYNC0, (sync_parts(sync_mode).1 & 0xFF) as u8)
            },
    {
        let reset: u16 = ((SYNC1::default().bits() as u16) << 8) | (SYNC0::default().bits() as u16);
        let (mode, word): (u8, u16) = match sync_mode {
            SyncMode::Disabled => (SyncCheck::DISABLED.value(), reset),
            SyncMode::MatchPartial(w) => (SyncCheck::CHECK_15_16.value(), w),
            SyncMode::MatchPartialRepeated(w) => (SyncCheck::CHECK_30_32.value(), w),
            SyncMode::MatchFull(w) => (SyncCheck::CHECK_16_16.value(), w),
        };
        proof {
            assert(((0xD3u16 << 8) | 0x91u16) == 0xD391) by (bit_vector);
            assert(mode == sync_parts(sync_mode).0 && word == sync_parts(sync_mode).1);
        }
        let f = |b: u8| -> (out: u8)
            ensures
                out == with_sync_mode(b, sync_parts(sync_mode).0),
            { MDMCFG2(b).sync_mode(mode).bits() };
        match self.0.modify_register(Config::MDMCFG2, f) {
            Ok(()) => (),
            Err(e) => {
                return Err(Error::Spi(e));
            },
        };
        proof {
            lemma_rmw_named(
                old(self).trace(),
                self.trace(),
                Config::MDMCFG2,
                f,
                (|b: u8| with_sync_mode(b, sync_parts(sync_mode).0)),
            );
        }
        let ghost t1 = self.trace();
        match self.0.write_register(Config::SYNC1, (word >> 8) as u8) {
            Ok(()) => (),
            Err(e) => {
                return Err(Error::Spi(e));
            },
        };
        let ghost t2 = self.trace();
        match self.0.write_register(Config::SYNC0, (word & 0xFF) as u8) {
            Ok(()) => {
                proof {
                    let t = self.trace();
                    let n = old(self).trace().len() as int;
                    assert(t.subrange(0, n) =~= old(self).trace());
                    assert(t[n] == t1[n] && t[n + 1] == t1[n + 1] && t[n + 2] == t2[n + 2]);
                }
                Ok(())
            },
            Err(e) => Err(Error::Spi(e)),
        }
    }

    /// Configures the signal modulation.
    pub fn set_modulation(&mut self, format: Modulation) -> (r: Result<(), Error<B::Fault>>)
        ensures
            old(self).trace().is_prefix_of(final(self).trace()),
            r is Ok ==> reg_rmw_step(
                old(self).trace(),
                final(self).trace(),
                Config::MDMCFG2,
                (|b: u8| with_mod_format(b, mod_format_value(format))),
            ),
    {
        let value: u8 = match format {
            Modulation::BinaryFrequencyShiftKeying => ModFormat::MOD_2FSK.value(),
            Modulation::GaussianFrequencyShiftKeying => ModFormat::MOD_GFSK.value(),
            Modulation::OnOffKeying => ModFormat::MOD_ASK_OOK.value(),
            Modulation::FourFrequencyShiftKeying => ModFormat::MOD_4FSK.value(),
            Modulation::MinimumShiftKeying => ModFormat::MOD_MSK.value(),
        };
        let f = |b: u8| -> (out: u8)
            ensures
                out == with_mod_format(b, mod_format_value(format)),
            { MDMCFG2(b).mod_format(value).bits() };
        match self.0.modify_register(Config::MDMCFG2, f) {
            Ok(()) => {
                proof {
                    lemma_rmw_named(
                        old(self).trace(),
                        self.trace(),
                        Config::MDMCFG2,
                        f,
                        (|b: u8| with_mod_format(b, mod_format_value(format))),
                    );
                }
                Ok(())
            },
            Err(e) => Err(Error::Spi(e)),
        }
    }

    /// Configures the device address, and address filtering.
    pub fn set_address_filter(&mut self, filter: AddressFilter) -> (r: Result<(), Error<B::Fault>>)
        ensures
            old(self).trace().is_prefix_of(final(self).trace()),
            r is Ok ==> {
                let t = final(self).trace();
                let n = old(self).trace().len() as int;
                &&& t.len() == n + 3
                &&& t.subrange(0, n) == old(self).trace()
                &&& is_reg_read(t[n], Register::Config(Config::PKTCTRL1))
                &&& t[n + 1] == op_reg_write(
                    Config::PKTCTRL1,
                    with_adr_chk(read_value(t[n]), address_parts(filter).0),
                )
                &&& t[n + 2] == op_reg_write(Config::ADDR, address_parts(filter).1)
            },
    {
        let (mode, addr): (u8, u8) = match filter {
            AddressFilter::Disabled => (AddressCheck::DISABLED.value(), 0),
            AddressFilter::Device(a) => (AddressCheck::SELF.value(), a),
            AddressFilter::DeviceLowBroadcast(a) => (AddressCheck::SELF_LOW_BROADCAST.value(), a),
            AddressFilter::DeviceHighLowBroadcast(a) => (
                AddressCheck::SELF_HIGH_LOW_BROADCAST.value(),
                a,
            ),
        };
        let f = |b: u8| -> (out: u8)
            ensures
                out == with_adr_chk(b, address_parts(filter).0),
            { crate::lowlevel::types::PKTCTRL1(b).adr_chk(mode).bits() };
        match self.0.modify_register(Config::PKTCTRL1, f) {
            Ok(()) => (),
            Err(e) => {
                return Err(Error::Spi(e));
            },
        };
        proof {
            lemma_rmw_named(
                old(self).trace(),
                self.trace(),
                Config::PKTCTRL1,
                f,
                (|b: u8| with_adr_chk(b, address_parts(filter).0)),
            );
        }
        let ghost t1 = self.trace();
        match self.0.write_register(Config::ADDR, addr) {
            Ok(()) => {
                proof {
                    let t = self.trace();
                    let n = old(self).trace().len() as int;
                    assert(t.subrange(0, n) =~= old(self).trace());
                    assert(t[n] == t1[n] && t[n + 1] == t1[n + 1]);
                }
                Ok(())
            },
            Err(e) => Err(Error::Spi(e)),
        }
    }

    /// Configures the packet length mode, and the length byte.
    pub fn set_packet_length(&mut self, length: PacketLength) -> (r: Result<(), Error<B::Fault>>)
        ensures
            old(self).trace().is_prefix_of(final(self).trace()),
            r is Ok ==> {
                let t = final(self).trace();
                let n = old(self).trace().len() as int;
                &&& t.len() == n + 3
                &&& t.subrange(0, n) == old(self).trace()
                &&& is_reg_read(t[n], Register::Config(Config::PKTCTRL0))
                &&& t[n + 1] == op_reg_write(
                    Config::PKTCTRL0,
                    with_length_config(read_value(t[n]), length_parts(length).0),
                )
                &&& t[n + 2] == op_reg_write(Config::PKTLEN, length_parts(length).1)
            },
    {
        let (format, pktlen): (u8, u8) = match length {
            PacketLength::Fixed(limit) => (LengthConfig::FIXED.value(), limit),
            PacketLength::Variable(max_limit) => (LengthConfig::VARIABLE.value(), max_limit),
            PacketLength::Infinite => (LengthConfig::INFINITE.value(), 0xFF),
        };
        let f = |b: u8| -> (out: u8)
            ensures
                out == with_length_config(b, length_parts(length).0),
            { crate::lowlevel::types::PKTCTRL0(b).length_config(format).bits() };
        match self.0.modify_register(Config::PKTCTRL0, f) {
            Ok(()) => (),
            Err(e) => {
                return Err(Error::Spi(e));
            },
        };
        proof {
            lemma_rmw_named(
                old(self).trace(),
                self.trace(),
                Config::PKTCTRL0,
                f,
                (|b: u8| with_length_config(b, length_parts(length).0)),
            );
        }
        let ghost t1 = self.trace();
        match self.0.write_register(Config::PKTLEN, pktlen) {
            Ok(()) => {
                proof {
                    let t = self.trace();
                    let n = old(self).trace().len() as int;
                    assert(t.subrange(0, n) =~= old(self).trace());
                    assert(t[n] == t1[n] && t[n + 1] == t1[n + 1]);
                }
                Ok(())
            },
            Err(e) => Err(Error::Spi(e)),
        }
    }

    /// Polls the machine state until it equals `target`, spending at
    /// most `max_polls` polls; returns [`Error::TimedOut`] once they
    /// are spent without the chip reporting `target`.
    pub fn await_machine_state(&mut self, target: MachineState, max_polls: usize) -> (r: Result<
        (),
        Error<B::Fault>,
    >)
        requires
            max_polls >= 1,
        ensures
            old(self).trace().is_prefix_of(final(self).trace()),
            final(self).trace().len() <= old(self).trace().len() + max_polls,
            r is Ok ==> {
                let t = final(self).trace();
                let n = old(self).trace().len() as int;
                &&& t.subrange(0, n) == old(self).trace()
                &&& poll_seg(t, n, t.len() as int, target.spec_value(), true)
            },
            r matches Err(e) && e is TimedOut ==> {
                let t = final(self).trace();
                let n = old(self).trace().len() as int;
                &&& t.len() == n + max_polls
                &&& t.subrange(0, n) == old(self).trace()
                &&& poll_seg(t, n, t.len() as int, target.spec_value(), false)
            },
    {
        let ghost pre = old(self).trace();
        let ghost n = old(self).trace().len() as int;
        let mut polls: usize = 0;
        while polls < max_polls
            invariant
                polls <= max_polls,
                max_polls >= 1,
                self.trace().len() == n + polls,
                n == pre.len(),
                pre == old(self).trace(),
                self.trace().subrange(0, n) == pre,
                pre.is_prefix_of(self.trace()),
                forall|i: int|
                    n <= i < n + polls ==> is_marc_poll(#[trigger] self.trace()[i]) && polled_state(
                        self.trace()[i],
                    ) != target.spec_value(),
            decreases max_polls - polls,
        {
            let ghost mid = self.trace();
            let reached = match self.is_state_machine(target) {
                Ok(b) => b,
                Err(e) => {
                    return Err(e);
                },
            };
            proof {
                assert(self.trace().subrange(0, n) =~= pre);
                assert forall|i: int| n <= i < n + polls implies is_marc_poll(
                    #[trigger] self.trace()[i],
                ) && polled_state(self.trace()[i]) != target.spec_value() by {
                    assert(self.trace()[i] == mid[i]);
                }
            }
            if reached {
                return Ok(());
            }
            polls = polls + 1;
        }
        Err(Error::TimedOut)
    }

    /// Sends the command strobe that requests `radio_mode` and returns
    /// the machine state in which the transition will be complete. A
    /// calibrate request first routes through idle: it enters idle,
    /// waits for it, and then strobes the calibration.
    pub fn send_radio_mode_strobe(&mut self, radio_mode: RadioMode) -> (r: Result<
        MachineState,
        Error<B::Fault>,
    >)
        ensures
            old(self).trace().is_prefix_of(final(self).trace()),
            r matches Ok(st) ==> {
                let t = final(self).trace();
                let n = old(self).trace().len() as int;
                &&& st == mode_target(radio_mode)
                &&& t.subrange(0, n) == old(self).trace()
                &&& mode_strobe_seg(t, n, t.len() as int, radio_mode)
            },
        decreases mode_rank(radio_mode), 0int,
    {
        match radio_mode {
            RadioMode::Receive => {
                match self.0.write_strobe(Command::SRX) {
                    Ok(()) => {
                        proof {
                            assert(self.trace().subrange(0, old(self).trace().len() as int) =~= old(
                                self,
                            ).trace());
                        }
                        Ok(MachineState::RX)
                    },
                    Err(e) => Err(Error::Spi(e)),
                }
            },
            RadioMode::Transmit => {
                match self.0.write_strobe(Command::STX) {
                    Ok(()) => {
                        proof {
                            assert(self.trace().subrange(0, old(self).trace().len() as int) =~= old(
                                self,
                            ).trace());
                        }
                        Ok(MachineState::TX)
                    },
                    Err(e) => Err(Error::Spi(e)),
                }
            },
            RadioMode::Idle => {
                match self.0.write_strobe(Command::SIDLE) {
                    Ok(()) => {
                        proof {
                            assert(self.trace().subrange(0, old(self).trace().len() as int) =~= old(
                                self,
                            ).trace());
                        }
                        Ok(MachineState::IDLE)
                    },
                    Err(e) => Err(Error::Spi(e)),
                }
            },
            RadioMode::Calibrate => {
                let ghost n = old(self).trace().len() as int;
                match self.set_radio_mode(RadioMode::Idle) {
                    Ok(()) => (),
                    Err(e) => {
                        return Err(e);
                    },
                };
                let ghost t1 = self.trace();
                proof {
                    let mid = choose|mid: int|
                        #![auto]
                        mode_strobe_seg(t1, n, mid, RadioMode::Idle) && poll_seg(
                            t1,
                            mid,
                            t1.len() as int,
                            mode_target(RadioMode::Idle).spec_value(),
                            true,
                        );
                    assert(mid == n + 1);
                    assert(strobe_then_await(
                        t1,
                        n,
                        t1.len() as int,
                        Command::SIDLE,
                        MachineState::IDLE.spec_value(),
                    ));
                }
                match self.0.write_strobe(Command::SCAL) {
                    Ok(()) => {
                        proof {
                            let t = self.trace();
                            assert(t.subrange(0, n) =~= old(self).trace());
                            assert forall|i: int| n <= i < t1.len() implies t[i] == t1[i] by {}
                            assert(strobe_then_await(
                                t,
                                n,
                                t.len() - 1,
                                Command::SIDLE,
                                MachineState::IDLE.spec_value(),
                            ));
                        }
                        Ok(MachineState::IDLE)
                    },
                    Err(e) => Err(Error::Spi(e)),
                }
            },
        }
    }

    /// Sets the radio to receive, transmit, idle or calibrate mode,
    /// polling the machine state until the transition is complete,
    /// with at most [`MAX_STATE_POLLS`] polls per wait.
    pub fn set_radio_mode(&mut self, radio_mode: RadioMode) -> (r: Result<(), Error<B::Fault>>)
        ensures
            old(self).trace().is_prefix_of(final(self).trace()),
            r is Ok ==> {
                let t = final(self).trace();
                let n = old(self).trace().len() as int;
                &&& t.subrange(0, n) == old(self).trace()
                &&& mode_entry(t, n, t.len() as int, radio_mode)
            },
        decreases mode_rank(radio_mode), 1int,
    {
        let ghost n = old(self).trace().len() as int;
        let target = match self.send_radio_mode_strobe(radio_mode) {
            Ok(st) => st,
            Err(e) => {
                return Err(e);
            },
        };
        let ghost t1 = self.trace();
        match self.await_machine_state(target, MAX_STATE_POLLS) {
            Ok(()) => {
                proof {
                    let t = self.trace();
                    assert(t.subrange(0, n) =~= old(self).trace());
                    assert(t.subrange(0, t1.len() as int) =~= t1);
                    assert forall|i: int| 0 <= i < t1.len() implies t[i] == t1[i] by {
                        assert(t1[i] == t.subrange(0, t1.len() as int)[i]);
                    }
                    assert(mode_strobe_seg(t, n, t1.len() as int, radio_mode));
                    assert(poll_seg(
                        t,
                        t1.len() as int,
                        t.len() as int,
                        mode_target(radio_mode).spec_value(),
                        true,
                    ));
                }
                Ok(())
            },
            Err(e) => Err(e),
        }
    }

    /// Sets the radio to idle mode, waiting for the transition.
    pub fn to_idle(&mut self) -> (r: Result<(), Error<B::Fault>>)
        ensures
            old(self).trace().is_prefix_of(final(self).trace()),
            r is Ok ==> {
                let t = final(self).trace();
                let n = old(self).trace().len() as int;
                &&& t.subrange(0, n) == old(self).trace()
                &&& mode_entry(t, n, t.len() as int, RadioMode::Idle)
            },
    {
        self.set_radio_mode(RadioMode::Idle)
    }

    /// Sets the radio to transmit mode, waiting for the transition.
    pub fn to_tx(&mut self) -> (r: Result<(), Error<B::Fault>>)
        ensures
            old(self).trace().is_prefix_of(final(self).trace()),
            r is Ok ==> {
                let t = final(self).trace();
                let n = old(self).trace().len() as int;
                &&& t.subrange(0, n) == old(self).trace()
                &&& mode_entry(t, n, t.len() as int, RadioMode::Transmit)
            },
    {
        self.set_radio_mode(RadioMode::Transmit)
    }

    /// Sets the radio to receive mode, waiting for the transition.
    pub fn to_rx(&mut self) -> (r: Result<(), Error<B::Fault>>)
        ensures
            old(self).trace().is_prefix_of(final(self).trace()),
            r is Ok ==> {
                let t = final(self).trace();
                let n = old(self).trace().len() as int;
                &&& t.subrange(0, n) == old(self).trace()
                &&& mode_entry(t, n, t.len() as int, RadioMode::Receive)
            },
    {
        self.set_radio_mode(RadioMode::Receive)
    }

    /// Issues no-op strobes until the chip reports itself ready to
    /// accept commands, spending at most `max_attempts` exchanges;
    /// returns [`Error::TimedOut`] once they are spent.
    pub fn wake_up_wait(&mut self, max_attempts: usize) -> (r: Result<(), Error<B::Fault>>)
        requires
            max_attempts >= 1,
        ensures
            old(self).trace().is_prefix_of(final(self).trace()),
            final(self).trace().len() <= old(self).trace().len() + max_attempts,
            r is Ok ==> {
                let t = final(self).trace();
                let n = old(self).trace().len() as int;
                &&& t.subrange(0, n) == old(self).trace()
                &&& ready_seg(t, n, t.len() as int, true)
            },
            r matches Err(e) && e is TimedOut ==> {
                let t = final(self).trace();
                let n = old(self).trace().len() as int;
                &&& t.len() == n + max_attempts
                &&& t.subrange(0, n) == old(self).trace()
                &&& ready_seg(t, n, t.len() as int, false)
            },
    {
        let ghost pre = old(self).trace();
        let ghost n = old(self).trace().len() as int;
        let mut attempts: usize = 0;
        while attempts < max_attempts
            invariant
                attempts <= max_attempts,
                max_attempts >= 1,
                self.trace().len() == n + attempts,
                n == pre.len(),
                pre == old(self).trace(),
                self.trace().subrange(0, n) == pre,
                pre.is_prefix_of(self.trace()),
                forall|i: int|
                    n <= i < n + attempts ==> is_status_exchange(#[trigger] self.trace()[i])
                        && status_byte(self.trace()[i]) & 0x80 != 0,
            decreases max_attempts - attempts,
        {
            let ghost mid = self.trace();
            let ready = match self.0.chip_rdyn() {
                Ok(b) => b,
                Err(e) => {
                    return Err(Error::Spi(e));
                },
            };
            proof {
                assert(self.trace().subrange(0, n) =~= pre);
                assert forall|i: int| n <= i < n + attempts implies is_status_exchange(
                    #[trigger] self.trace()[i],
                ) && status_byte(self.trace()[i]) & 0x80 != 0 by {
                    assert(self.trace()[i] == mid[i]);
                }
            }
            if ready {
                return Ok(());
            }
            attempts = attempts + 1;
        }
        Err(Error::TimedOut)
    }
}

} // verus!
