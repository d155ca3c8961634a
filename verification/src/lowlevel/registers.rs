//! The chip's register and command address map, and the address framing
//! rules for single, burst and strobe transactions.
//!
//! Every address is six bits wide. On the wire, bit 7 of the header byte
//! is the read flag and bit 6 the burst flag: a single write sends the
//! address unmodified, a single read sets exactly the read flag, a burst
//! write sets exactly the burst flag, and a burst read sets both. Status
//! registers share their six-bit addresses with the strobe commands; on
//! those addresses the burst flag selects the status register space, so
//! status reads always carry both flags.

use vstd::prelude::*;

verus! {

/// Read-write configuration registers.
#[derive(Copy, Clone, Debug, PartialEq, Eq, Structural)]
#[allow(non_camel_case_types)]
pub enum Config {
    IOCFG2,
    IOCFG1,
    IOCFG0,
    FIFOTHR,
    SYNC1,
    SYNC0,
    PKTLEN,
    PKTCTRL1,
    PKTCTRL0,
    ADDR,
    CHANNR,
    FSCTRL1,
    FSCTRL0,
    FREQ2,
    FREQ1,
    FREQ0,
    MDMCFG4,
    MDMCFG3,
    MDMCFG2,
    MDMCFG1,
    MDMCFG0,
    DEVIATN,
    MCSM2,
    MCSM1,
    MCSM0,
    FOCCFG,
    BSCFG,
    AGCCTRL2,
    AGCCTRL1,
    AGCCTRL0,
    WOREVT1,
    WOREVT0,
    WORCTRL,
    FREND1,
    FREND0,
    FSCAL3,
    FSCAL2,
    FSCAL1,
    FSCAL0,
    RCCTRL1,
    RCCTRL0,
    FSTEST,
    PTEST,
    AGCTEST,
    TEST2,
    TEST1,
    TEST0,
}

impl Config {
    /// Six-bit base address of the register.
    pub open spec fn spec_addr(self) -> u8 {
        match self {
            Config::IOCFG2 => 0x00,
            Config::IOCFG1 => 0x01,
            Config::IOCFG0 => 0x02,
            Config::FIFOTHR => 0x03,
            Config::SYNC1 => 0x04,
            Config::SYNC0 => 0x05,
            Config::PKTLEN => 0x06,
            Config::PKTCTRL1 => 0x07,
            Config::PKTCTRL0 => 0x08,
            Config::ADDR => 0x09,
            Config::CHANNR => 0x0A,
            Config::FSCTRL1 => 0x0B,
            Config::FSCTRL0 => 0x0C,
            Config::FREQ2 => 0x0D,
            Config::FREQ1 => 0x0E,
            Config::FREQ0 => 0x0F,
            Config::MDMCFG4 => 0x10,
            Config::MDMCFG3 => 0x11,
            Config::MDMCFG2 => 0x12,
            Config::MDMCFG1 => 0x13,
            Config::MDMCFG0 => 0x14,
            Config::DEVIATN => 0x15,
            Config::MCSM2 => 0x16,
            Config::MCSM1 => 0x17,
            Config::MCSM0 => 0x18,
            Config::FOCCFG => 0x19,
            Config::BSCFG => 0x1A,
            Config::AGCCTRL2 => 0x1B,
            Config::AGCCTRL1 => 0x1C,
            Config::AGCCTRL0 => 0x1D,
            Config::WOREVT1 => 0x1E,
            Config::WOREVT0 => 0x1F,
            Config::WORCTRL => 0x20,
            Config::FREND1 => 0x21,
            Config::FREND0 => 0x22,
            Config::FSCAL3 => 0x23,
            Config::FSCAL2 => 0x24,
            Config::FSCAL1 => 0x25,
            Config::FSCAL0 => 0x26,
            Config::RCCTRL1 => 0x27,
            Config::RCCTRL0 => 0x28,
            Config::FSTEST => 0x29,
            Config::PTEST => 0x2A,
            Config::AGCTEST => 0x2B,
            Config::TEST2 => 0x2C,
            Config::TEST1 => 0x2D,
            Config::TEST0 => 0x2E,
        }
    }

    /// Six-bit base address of the register.
    pub fn addr(self) -> (r: u8)
        ensures
            r == self.spec_addr(),
    {
        match self {
            Config::IOCFG2 => 0x00,
            Config::IOCFG1 => 0x01,
            Config::IOCFG0 => 0x02,
            Config::FIFOTHR => 0x03,
            Config::SYNC1 => 0x04,
            Config::SYNC0 => 0x05,
            Config::PKTLEN => 0x06,
            Config::PKTCTRL1 => 0x07,
            Config::PKTCTRL0 => 0x08,
            Config::ADDR => 0x09,
            Config::CHANNR => 0x0A,
            Config::FSCTRL1 => 0x0B,
            Config::FSCTRL0 => 0x0C,
            Config::FREQ2 => 0x0D,
            Config::FREQ1 => 0x0E,
            Config::FREQ0 => 0x0F,
            Config::MDMCFG4 => 0x10,
            Config::MDMCFG3 => 0x11,
            Config::MDMCFG2 => 0x12,
            Config::MDMCFG1 => 0x13,
            Config::MDMCFG0 => 0x14,
            Config::DEVIATN => 0x15,
            Config::MCSM2 => 0x16,
            Config::MCSM1 => 0x17,
            Config::MCSM0 => 0x18,
            Config::FOCCFG => 0x19,
            Config::BSCFG => 0x1A,
            Config::AGCCTRL2 => 0x1B,
            Config::AGCCTRL1 => 0x1C,
            Config::AGCCTRL0 => 0x1D,
            Config::WOREVT1 => 0x1E,
            Config::WOREVT0 => 0x1F,
            Config::WORCTRL => 0x20,
            Config::FREND1 => 0x21,
            Config::FREND0 => 0x22,
            Config::FSCAL3 => 0x23,
            Config::FSCAL2 => 0x24,
            Config::FSCAL1 => 0x25,
            Config::FSCAL0 => 0x26,
            Config::RCCTRL1 => 0x27,
            Config::RCCTRL0 => 0x28,
            Config::FSTEST => 0x29,
            Config::PTEST => 0x2A,
            Config::AGCTEST => 0x2B,
            Config::TEST2 => 0x2C,
            Config::TEST1 => 0x2D,
            Config::TEST0 => 0x2E,
        }
    }
}

/// Read-only status registers. They share six-bit addresses with the
/// strobe commands; the burst flag in the header selects this space.
#[derive(Copy, Clone, Debug, PartialEq, Eq, Structural)]
#[allow(non_camel_case_types)]
pub enum Status {
    PARTNUM,
    VERSION,
    FREQEST,
    LQI,
    RSSI,
    MARCSTATE,
    WORTIME1,
    WORTIME0,
    PKTSTATUS,
    VCO_VC_DAC,
    TXBYTES,
    RXBYTES,
    RCCTRL1_STATUS,
    RCCTRL0_STATUS,
}

impl Status {
    /// Six-bit base address of the status register.
    pub open spec fn spec_addr(self) -> u8 {
        match self {
            Status::PARTNUM => 0x30,
            Status::VERSION => 0x31,
            Status::FREQEST => 0x32,
            Status::LQI => 0x33,
            Status::RSSI => 0x34,
            Status::MARCSTATE => 0x35,
            Status::WORTIME1 => 0x36,
            Status::WORTIME0 => 0x37,
            Status::PKTSTATUS => 0x38,
            Status::VCO_VC_DAC => 0x39,
            Status::TXBYTES => 0x3A,
            Status::RXBYTES => 0x3B,
            Status::RCCTRL1_STATUS => 0x3C,
            Status::RCCTRL0_STATUS => 0x3D,
        }
    }

    /// Six-bit base address of the status register.
    pub fn addr(self) -> (r: u8)
        ensures
            r == self.spec_addr(),
    {
        match self {
            Status::PARTNUM => 0x30,
            Status::VERSION => 0x31,
            Status::FREQEST => 0x32,
            Status::LQI => 0x33,
            Status::RSSI => 0x34,
            Status::MARCSTATE => 0x35,
            Status::WORTIME1 => 0x36,
            Status::WORTIME0 => 0x37,
            Status::PKTSTATUS => 0x38,
            Status::VCO_VC_DAC => 0x39,
            Status::TXBYTES => 0x3A,
            Status::RXBYTES => 0x3B,
            Status::RCCTRL1_STATUS => 0x3C,
            Status::RCCTRL0_STATUS => 0x3D,
        }
    }
}

/// Strobe commands, plus the PATABLE and FIFO access addresses.
/// A strobe triggers an immediate chip action and has no data phase.
#[derive(Copy, Clone, Debug, PartialEq, Eq, Structural)]
pub enum Command {
    /// Reset chip.
    SRES,
    /// Enable and calibrate frequency synthesizer.
    SFSTXON,
    /// Turn off crystal oscillator.
    SXOFF,
    /// Calibrate frequency synthesizer and turn it off.
    SCAL,
    /// Enable RX.
    SRX,
    /// Enable TX.
    STX,
    /// Exit RX / TX.
    SIDLE,
    /// Start automatic RX polling sequence.
    SWOR,
    /// Enter power-down mode when the chip-select line goes high.
    SPWD,
    /// Flush the RX FIFO buffer.
    SFRX,
    /// Flush the TX FIFO buffer.
    SFTX,
    /// Reset real-time clock to Event1 value.
    SWORRST,
    /// No operation; reads back the status byte.
    SNOP,
    /// Power amplifier table access address.
    PATABLE,
    /// FIFO access address.
    FIFO,
}

impl Command {
    /// Six-bit address of the command.
    pub open spec fn spec_addr(self) -> u8 {
        match self {
            Command::SRES => 0x30,
            Command::SFSTXON => 0x31,
            Command::SXOFF => 0x32,
            Command::SCAL => 0x33,
            Command::SRX => 0x34,
            Command::STX => 0x35,
            Command::SIDLE => 0x36,
            Command::SWOR => 0x38,
            Command::SPWD => 0x39,
            Command::SFRX => 0x3A,
            Command::SFTX => 0x3B,
            Command::SWORRST => 0x3C,
            Command::SNOP => 0x3D,
            Command::PATABLE => 0x3E,
            Command::FIFO => 0x3F,
        }
    }

    /// Six-bit address of the command.
    pub fn addr(self) -> (r: u8)
        ensures
            r == self.spec_addr(),
    {
        match self {
            Command::SRES => 0x30,
            Command::SFSTXON => 0x31,
            Command::SXOFF => 0x32,
            Command::SCAL => 0x33,
            Command::SRX => 0x34,
            Command::STX => 0x35,
            Command::SIDLE => 0x36,
            Command::SWOR => 0x38,
            Command::SPWD => 0x39,
            Command::SFRX => 0x3A,
            Command::SFTX => 0x3B,
            Command::SWORRST => 0x3C,
            Command::SNOP => 0x3D,
            Command::PATABLE => 0x3E,
            Command::FIFO => 0x3F,
        }
    }
}

/// A readable register of either access class.
#[derive(Copy, Clone, Debug, PartialEq, Eq, Structural)]
pub enum Register {
    Config(Config),
    Status(Status),
}

impl Register {
    /// Six-bit base address.
    pub open spec fn spec_addr(self) -> u8 {
        match self {
            Register::Config(c) => c.spec_addr(),
            Register::Status(s) => s.spec_addr(),
        }
    }

    /// Header byte of a single read of this register. A config register
    /// read sets the read flag alone; a status register read also sets
    /// the burst flag, which on those addresses selects the status space.
    pub open spec fn spec_read_header(self) -> u8 {
        match self {
            Register::Config(c) => single_read_header(c.spec_addr()),
            Register::Status(s) => burst_read_header(s.spec_addr()),
        }
    }

    /// Header byte of a single read of this register.
    pub fn read_header(self) -> (r: u8)
        ensures
            r == self.spec_read_header(),
    {
        match self {
            Register::Config(c) => c.addr() | 0x80,
            Register::Status(s) => s.addr() | 0xC0,
        }
    }
}

/// Header of a single write: the six-bit address, unmodified.
pub open spec fn single_write_header(addr: u8) -> u8 {
    addr
}

/// Header of a single read: the address with the read flag set.
pub open spec fn single_read_header(addr: u8) -> u8 {
    addr | 0x80
}

/// Header of a burst write: the address with the burst flag set.
pub open spec fn burst_write_header(addr: u8) -> u8 {
    addr | 0x40
}

/// Header of a burst read: the address with both flags set.
pub open spec fn burst_read_header(addr: u8) -> u8 {
    addr | 0xC0
}

/// Address framing touches nothing but the two flag bits: for every
/// six-bit address, a single write leaves the address unmodified with
/// both flags clear, a single read sets exactly the read flag, a burst
/// write sets exactly the burst flag, and a burst read sets exactly both;
/// each framing keeps the six address bits intact.
pub proof fn lemma_address_framing(addr: u8)
    by (bit_vector)
    requires
        addr < 64,
    ensures
        single_write_header(addr) & 0x3F == addr,
        single_write_header(addr) & 0x80 == 0,
        single_write_header(addr) & 0x40 == 0,
        single_read_header(addr) & 0x3F == addr,
        single_read_header(addr) & 0x80 == 0x80,
        single_read_header(addr) & 0x40 == 0,
        burst_write_header(addr) & 0x3F == addr,
        burst_write_header(addr) & 0x80 == 0,
        burst_write_header(addr) & 0x40 == 0x40,
        burst_read_header(addr) & 0x3F == addr,
        burst_read_header(addr) & 0x80 == 0x80,
        burst_read_header(addr) & 0x40 == 0x40,
{
}

/// Every enumerated address is six bits wide, config registers sit below
/// the strobe space, and commands and status registers sit inside it.
pub proof fn lemma_address_spaces(c: Config, s: Status, k: Command)
    ensures
        c.spec_addr() < 0x30,
        0x30 <= s.spec_addr() < 0x40,
        0x30 <= k.spec_addr() < 0x40,
{
}

} // verus!
