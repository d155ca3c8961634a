//! Typed register values and status fields.
//!
//! Each read-write register with named sub-fields is a tagged byte with
//! one setter per field. A setter is field-local: its contract states the
//! exact result byte, in which every bit outside the field keeps its old
//! value. `Default` is the chip's reset value where the driver relies on
//! it. Status bytes get one getter per field.

use vstd::prelude::*;

verus! {

/// The byte `FSCTRL1` holds after setting its `freq_if` field to `v`.
pub open spec fn with_freq_if(b: u8, v: u8) -> u8 {
    (b & 0xE0) | (v & 0x1F)
}

/// The byte `AGCCTRL2` holds after setting its `magn_target` field to `v`.
pub open spec fn with_magn_target(b: u8, v: u8) -> u8 {
    (b & 0xF8) | (v & 0x07)
}

/// The byte `AGCCTRL0` holds after setting its `filter_length` field to `v`.
pub open spec fn with_filter_length(b: u8, v: u8) -> u8 {
    (b & 0xFC) | (v & 0x03)
}

/// The byte `MCSM0` holds after setting its `fs_autocal` field to `v`.
pub open spec fn with_fs_autocal(b: u8, v: u8) -> u8 {
    (b & 0xCF) | ((v & 0x03) << 4)
}

/// The byte `DEVIATN` holds after setting its `deviation_e` field to `v`.
pub open spec fn with_deviation_e(b: u8, v: u8) -> u8 {
    (b & 0x8F) | ((v & 0x07) << 4)
}

/// The byte `DEVIATN` holds after setting its `deviation_m` field to `v`.
pub open spec fn with_deviation_m(b: u8, v: u8) -> u8 {
    (b & 0xF8) | (v & 0x07)
}

/// The byte `MDMCFG4` holds after setting its `chanbw_e` field to `v`.
pub open spec fn with_chanbw_e(b: u8, v: u8) -> u8 {
    (b & 0x3F) | ((v & 0x03) << 6)
}

/// The byte `MDMCFG4` holds after setting its `chanbw_m` field to `v`.
pub open spec fn with_chanbw_m(b: u8, v: u8) -> u8 {
    (b & 0xCF) | ((v & 0x03) << 4)
}

/// The byte `MDMCFG4` holds after setting its `drate_e` field to `v`.
pub open spec fn with_drate_e(b: u8, v: u8) -> u8 {
    (b & 0xF0) | (v & 0x0F)
}

/// The byte `MDMCFG3` holds after setting its `drate_m` field to `v`.
pub open spec fn with_drate_m(b: u8, v: u8) -> u8 {
    v
}

/// The byte `MDMCFG2` holds after setting its `mod_format` field to `v`.
pub open spec fn with_mod_format(b: u8, v: u8) -> u8 {
    (b & 0x8F) | ((v & 0x07) << 4)
}

/// The byte `MDMCFG2` holds after setting its `sync_mode` field to `v`.
pub open spec fn with_sync_mode(b: u8, v: u8) -> u8 {
    (b & 0xF8) | (v & 0x07)
}

/// The byte `PKTCTRL1` holds after setting its `adr_chk` field to `v`.
pub open spec fn with_adr_chk(b: u8, v: u8) -> u8 {
    (b & 0xFC) | (v & 0x03)
}

/// The byte `PKTCTRL0` holds after setting its `length_config` field to `v`.
pub open spec fn with_length_config(b: u8, v: u8) -> u8 {
    (b & 0xFC) | (v & 0x03)
}

/// Frequency synthesizer control: intermediate frequency.
#[derive(Copy, Clone, Debug, PartialEq, Eq, Structural)]
pub struct FSCTRL1(pub u8);

impl FSCTRL1 {
    /// Sets the five-bit intermediate-frequency field (bits 4:0); all other bits keep their value.
    pub fn freq_if(self, v: u8) -> (r: FSCTRL1)
        ensures
            r.0 == with_freq_if(self.0, v),
    {
        FSCTRL1((self.0 & 0xE0) | (v & 0x1F))
    }

    /// The raw register byte.
    pub fn bits(self) -> (r: u8)
        ensures
            r == self.0,
    {
        self.0
    }
}

impl Default for FSCTRL1 {
    /// The chip's reset value of the register.
    fn default() -> (r: Self)
        ensures
            r.0 == 0x0F,
    {
        FSCTRL1(0x0F)
    }
}

/// AGC control: target amplitude for the channel filter.
#[derive(Copy, Clone, Debug, PartialEq, Eq, Structural)]
pub struct AGCCTRL2(pub u8);

impl AGCCTRL2 {
    /// Sets the three-bit target amplitude field (bits 2:0); all other bits keep their value.
    pub fn magn_target(self, v: u8) -> (r: AGCCTRL2)
        ensures
            r.0 == with_magn_target(self.0, v),
    {
        AGCCTRL2((self.0 & 0xF8) | (v & 0x07))
    }

    /// The raw register byte.
    pub fn bits(self) -> (r: u8)
        ensures
            r == self.0,
    {
        self.0
    }
}

/// AGC control: averaging filter length.
#[derive(Copy, Clone, Debug, PartialEq, Eq, Structural)]
pub struct AGCCTRL0(pub u8);

impl AGCCTRL0 {
    /// Sets the two-bit filter length field (bits 1:0); all other bits keep their value.
    pub fn filter_length(self, v: u8) -> (r: AGCCTRL0)
        ensures
            r.0 == with_filter_length(self.0, v),
    {
        AGCCTRL0((self.0 & 0xFC) | (v & 0x03))
    }

    /// The raw register byte.
    pub fn bits(self) -> (r: u8)
        ensures
            r == self.0,
    {
        self.0
    }
}

/// Main radio control state machine configuration.
#[derive(Copy, Clone, Debug, PartialEq, Eq, Structural)]
pub struct MCSM0(pub u8);

impl MCSM0 {
    /// Sets the two-bit automatic calibration field (bits 5:4); all other bits keep their value.
    pub fn fs_autocal(self, v: u8) -> (r: MCSM0)
        ensures
            r.0 == with_fs_autocal(self.0, v),
    {
        MCSM0((self.0 & 0xCF) | ((v & 0x03) << 4))
    }

    /// The raw register byte.
    pub fn bits(self) -> (r: u8)
        ensures
            r == self.0,
    {
        self.0
    }
}

/// Modem deviation setting.
#[derive(Copy, Clone, Debug, PartialEq, Eq, Structural)]
pub struct DEVIATN(pub u8);

impl DEVIATN {
    /// Sets the three-bit deviation exponent field (bits 6:4); all other bits keep their value.
    pub fn deviation_e(self, v: u8) -> (r: DEVIATN)
        ensures
            r.0 == with_deviation_e(self.0, v),
    {
        DEVIATN((self.0 & 0x8F) | ((v & 0x07) << 4))
    }

    /// Sets the three-bit deviation mantissa field (bits 2:0); all other bits keep their value.
    pub fn deviation_m(self, v: u8) -> (r: DEVIATN)
        ensures
            r.0 == with_deviation_m(self.0, v),
    {
        DEVIATN((self.0 & 0xF8) | (v & 0x07))
    }

    /// The raw register byte.
    pub fn bits(self) -> (r: u8)
        ensures
            r == self.0,
    {
        self.0
    }
}

impl Default for DEVIATN {
    /// The chip's reset value of the register.
    fn default() -> (r: Self)
        ensures
            r.0 == 0x47,
    {
        DEVIATN(0x47)
    }
}

/// Modem configuration: channel bandwidth and data rate exponent.
#[derive(Copy, Clone, Debug, PartialEq, Eq, Structural)]
pub struct MDMCFG4(pub u8);

impl MDMCFG4 {
    /// Sets the two-bit channel bandwidth exponent field (bits 7:6); all other bits keep their value.
    pub fn chanbw_e(self, v: u8) -> (r: MDMCFG4)
        ensures
            r.0 == with_chanbw_e(self.0, v),
    {
        MDMCFG4((self.0 & 0x3F) | ((v & 0x03) << 6))
    }

    /// Sets the two-bit channel bandwidth mantissa field (bits 5:4); all other bits keep their value.
    pub fn chanbw_m(self, v: u8) -> (r: MDMCFG4)
        ensures
            r.0 == with_chanbw_m(self.0, v),
    {
        MDMCFG4((self.0 & 0xCF) | ((v & 0x03) << 4))
    }

    /// Sets the four-bit data rate exponent field (bits 3:0); all other bits keep their value.
    pub fn drate_e(self, v: u8) -> (r: MDMCFG4)
        ensures
            r.0 == with_drate_e(self.0, v),
    {
        MDMCFG4((self.0 & 0xF0) | (v & 0x0F))
    }

    /// The raw register byte.
    pub fn bits(self) -> (r: u8)
        ensures
            r == self.0,
    {
        self.0
    }
}

/// Modem configuration: data rate mantissa.
#[derive(Copy, Clone, Debug, PartialEq, Eq, Structural)]
pub struct MDMCFG3(pub u8);

impl MDMCFG3 {
    /// Sets the eight-bit data rate mantissa field; all other bits keep their value.
    pub fn drate_m(self, v: u8) -> (r: MDMCFG3)
        ensures
            r.0 == with_drate_m(self.0, v),
    {
        MDMCFG3(v)
    }

    /// The raw register byte.
    pub fn bits(self) -> (r: u8)
        ensures
            r == self.0,
    {
        self.0
    }
}

impl Default for MDMCFG3 {
    /// The chip's reset value of the register.
    fn default() -> (r: Self)
        ensures
            r.0 == 0x22,
    {
        MDMCFG3(0x22)
    }
}

/// Modem configuration: modulation and sync word qualifier.
#[derive(Copy, Clone, Debug, PartialEq, Eq, Structural)]
pub struct MDMCFG2(pub u8);

impl MDMCFG2 {
    /// Sets the three-bit modulation format field (bits 6:4); all other bits keep their value.
    pub fn mod_format(self, v: u8) -> (r: MDMCFG2)
        ensures
            r.0 == with_mod_format(self.0, v),
    {
        MDMCFG2((self.0 & 0x8F) | ((v & 0x07) << 4))
    }

    /// Sets the three-bit sync word qualifier field (bits 2:0); all other bits keep their value.
    pub fn sync_mode(self, v: u8) -> (r: MDMCFG2)
        ensures
            r.0 == with_sync_mode(self.0, v),
    {
        MDMCFG2((self.0 & 0xF8) | (v & 0x07))
    }

    /// The raw register byte.
    pub fn bits(self) -> (r: u8)
        ensures
            r == self.0,
    {
        self.0
    }
}

/// Packet automation control: address filtering.
#[derive(Copy, Clone, Debug, PartialEq, Eq, Structural)]
pub struct PKTCTRL1(pub u8);

impl PKTCTRL1 {
    /// Sets the two-bit address check field (bits 1:0); all other bits keep their value.
    pub fn adr_chk(self, v: u8) -> (r: PKTCTRL1)
        ensures
            r.0 == with_adr_chk(self.0, v),
    {
        PKTCTRL1((self.0 & 0xFC) | (v & 0x03))
    }

    /// The raw register byte.
    pub fn bits(self) -> (r: u8)
        ensures
            r == self.0,
    {
        self.0
    }
}

/// Packet automation control: packet length mode.
#[derive(Copy, Clone, Debug, PartialEq, Eq, Structural)]
pub struct PKTCTRL0(pub u8);

impl PKTCTRL0 {
    /// Sets the two-bit packet length mode field (bits 1:0); all other bits keep their value.
    pub fn length_config(self, v: u8) -> (r: PKTCTRL0)
        ensures
            r.0 == with_length_config(self.0, v),
    {
        PKTCTRL0((self.0 & 0xFC) | (v & 0x03))
    }

    /// The raw register byte.
    pub fn bits(self) -> (r: u8)
        ensures
            r == self.0,
    {
        self.0
    }
}

/// High byte of the sync word.
#[derive(Copy, Clone, Debug, PartialEq, Eq, Structural)]
pub struct SYNC1(pub u8);

impl SYNC1 {
    /// The raw register byte.
    pub fn bits(self) -> (r: u8)
        ensures
            r == self.0,
    {
        self.0
    }
}

impl Default for SYNC1 {
    /// The chip's reset value of the register.
    fn default() -> (r: Self)
        ensures
            r.0 == 0xD3,
    {
        SYNC1(0xD3)
    }
}

/// Low byte of the sync word.
#[derive(Copy, Clone, Debug, PartialEq, Eq, Structural)]
pub struct SYNC0(pub u8);

impl SYNC0 {
    /// The raw register byte.
    pub fn bits(self) -> (r: u8)
        ensures
            r == self.0,
    {
        self.0
    }
}

impl Default for SYNC0 {
    /// The chip's reset value of the register.
    fn default() -> (r: Self)
        ensures
            r.0 == 0x91,
    {
        SYNC0(0x91)
    }
}

/// Device address for packet filtration.
#[derive(Copy, Clone, Debug, PartialEq, Eq, Structural)]
pub struct ADDR(pub u8);

impl ADDR {
    /// The raw register byte.
    pub fn bits(self) -> (r: u8)
        ensures
            r == self.0,
    {
        self.0
    }
}

impl Default for ADDR {
    /// The chip's reset value of the register.
    fn default() -> (r: Self)
        ensures
            r.0 == 0x00,
    {
        ADDR(0x00)
    }
}

/// Packet length, or the maximum length in variable mode.
#[derive(Copy, Clone, Debug, PartialEq, Eq, Structural)]
pub struct PKTLEN(pub u8);

impl PKTLEN {
    /// The raw register byte.
    pub fn bits(self) -> (r: u8)
        ensures
            r == self.0,
    {
        self.0
    }
}

impl Default for PKTLEN {
    /// The chip's reset value of the register.
    fn default() -> (r: Self)
        ensures
            r.0 == 0xFF,
    {
        PKTLEN(0xFF)
    }
}

/// Link quality status byte: CRC flag and quality estimate.
#[derive(Copy, Clone, Debug, PartialEq, Eq, Structural)]
pub struct LQI(pub u8);

impl LQI {
    /// The CRC-ok flag (bit 7): nonzero when the last packet's CRC
    /// matched.
    pub fn crc_ok(self) -> (r: u8)
        ensures
            r == self.0 >> 7,
    {
        self.0 >> 7
    }

    /// The seven-bit link quality estimate (bits 6:0).
    pub fn lqi(self) -> (r: u8)
        ensures
            r == self.0 & 0x7F,
    {
        self.0 & 0x7F
    }
}

/// Main radio control state machine status byte.
#[derive(Copy, Clone, Debug, PartialEq, Eq, Structural)]
pub struct MARCSTATE(pub u8);

impl MARCSTATE {
    /// The five-bit machine state code (bits 4:0).
    pub fn marc_state(self) -> (r: u8)
        ensures
            r == self.0 & 0x1F,
    {
        self.0 & 0x1F
    }
}

/// Machine states the chip's internal state machine reports.
#[derive(Copy, Clone, Debug, PartialEq, Eq, Structural)]
#[allow(non_camel_case_types)]
pub enum MachineState {
    SLEEP,
    IDLE,
    XOFF,
    VCOON_MC,
    REGON_MC,
    MANCAL,
    VCOON,
    REGON,
    STARTCAL,
    BWBOOST,
    FS_LOCK,
    IFADCON,
    ENDCAL,
    RX,
    RX_END,
    RX_RST,
    TXRX_SWITCH,
    RXFIFO_OVERFLOW,
    FSTXON,
    TX,
    TX_END,
    RXTX_SWITCH,
    TXFIFO_UNDERFLOW,
}

impl MachineState {
    /// The field encoding of this variant.
    pub open spec fn spec_value(self) -> u8 {
        match self {
            MachineState::SLEEP => 0x00,
            MachineState::IDLE => 0x01,
            MachineState::XOFF => 0x02,
            MachineState::VCOON_MC => 0x03,
            MachineState::REGON_MC => 0x04,
            MachineState::MANCAL => 0x05,
            MachineState::VCOON => 0x06,
            MachineState::REGON => 0x07,
            MachineState::STARTCAL => 0x08,
            MachineState::BWBOOST => 0x09,
            MachineState::FS_LOCK => 0x0A,
            MachineState::IFADCON => 0x0B,
            MachineState::ENDCAL => 0x0C,
            MachineState::RX => 0x0D,
            MachineState::RX_END => 0x0E,
            MachineState::RX_RST => 0x0F,
            MachineState::TXRX_SWITCH => 0x10,
            MachineState::RXFIFO_OVERFLOW => 0x11,
            MachineState::FSTXON => 0x12,
            MachineState::TX => 0x13,
            MachineState::TX_END => 0x14,
            MachineState::RXTX_SWITCH => 0x15,
            MachineState::TXFIFO_UNDERFLOW => 0x16,
        }
    }

    /// The field encoding of this variant.
    pub fn value(self) -> (r: u8)
        ensures
            r == self.spec_value(),
    {
        match self {
            MachineState::SLEEP => 0x00,
            MachineState::IDLE => 0x01,
            MachineState::XOFF => 0x02,
            MachineState::VCOON_MC => 0x03,
            MachineState::REGON_MC => 0x04,
            MachineState::MANCAL => 0x05,
            MachineState::VCOON => 0x06,
            MachineState::REGON => 0x07,
            MachineState::STARTCAL => 0x08,
            MachineState::BWBOOST => 0x09,
            MachineState::FS_LOCK => 0x0A,
            MachineState::IFADCON => 0x0B,
            MachineState::ENDCAL => 0x0C,
            MachineState::RX => 0x0D,
            MachineState::RX_END => 0x0E,
            MachineState::RX_RST => 0x0F,
            MachineState::TXRX_SWITCH => 0x10,
            MachineState::RXFIFO_OVERFLOW => 0x11,
            MachineState::FSTXON => 0x12,
            MachineState::TX => 0x13,
            MachineState::TX_END => 0x14,
            MachineState::RXTX_SWITCH => 0x15,
            MachineState::TXFIFO_UNDERFLOW => 0x16,
        }
    }
}

/// Sync word qualifier modes.
#[derive(Copy, Clone, Debug, PartialEq, Eq, Structural)]
#[allow(non_camel_case_types)]
pub enum SyncCheck {
    DISABLED,
    CHECK_15_16,
    CHECK_16_16,
    CHECK_30_32,
}

impl SyncCheck {
    /// The field encoding of this variant.
    pub open spec fn spec_value(self) -> u8 {
        match self {
            SyncCheck::DISABLED => 0x00,
            SyncCheck::CHECK_15_16 => 0x01,
            SyncCheck::CHECK_16_16 => 0x02,
            SyncCheck::CHECK_30_32 => 0x03,
        }
    }

    /// The field encoding of this variant.
    pub fn value(self) -> (r: u8)
        ensures
            r == self.spec_value(),
    {
        match self {
            SyncCheck::DISABLED => 0x00,
            SyncCheck::CHECK_15_16 => 0x01,
            SyncCheck::CHECK_16_16 => 0x02,
            SyncCheck::CHECK_30_32 => 0x03,
        }
    }
}

/// Modulation formats.
#[derive(Copy, Clone, Debug, PartialEq, Eq, Structural)]
#[allow(non_camel_case_types)]
pub enum ModFormat {
    MOD_2FSK,
    MOD_GFSK,
    MOD_ASK_OOK,
    MOD_4FSK,
    MOD_MSK,
}

impl ModFormat {
    /// The field encoding of this variant.
    pub open spec fn spec_value(self) -> u8 {
        match self {
            ModFormat::MOD_2FSK => 0x00,
            ModFormat::MOD_GFSK => 0x01,
            ModFormat::MOD_ASK_OOK => 0x03,
            ModFormat::MOD_4FSK => 0x04,
            ModFormat::MOD_MSK => 0x07,
        }
    }

    /// The field encoding of this variant.
    pub fn value(self) -> (r: u8)
        ensures
            r == self.spec_value(),
    {
        match self {
            ModFormat::MOD_2FSK => 0x00,
            ModFormat::MOD_GFSK => 0x01,
            ModFormat::MOD_ASK_OOK => 0x03,
            ModFormat::MOD_4FSK => 0x04,
            ModFormat::MOD_MSK => 0x07,
        }
    }
}

/// Address check modes.
#[derive(Copy, Clone, Debug, PartialEq, Eq, Structural)]
#[allow(non_camel_case_types)]
pub enum AddressCheck {
    DISABLED,
    SELF,
    SELF_LOW_BROADCAST,
    SELF_HIGH_LOW_BROADCAST,
}

impl AddressCheck {
    /// The field encoding of this variant.
    pub open spec fn spec_value(self) -> u8 {
        match self {
            AddressCheck::DISABLED => 0x00,
            AddressCheck::SELF => 0x01,
            AddressCheck::SELF_LOW_BROADCAST => 0x02,
            AddressCheck::SELF_HIGH_LOW_BROADCAST => 0x03,
        }
    }

    /// The field encoding of this variant.
    pub fn value(self) -> (r: u8)
        ensures
            r == self.spec_value(),
    {
        match self {
            AddressCheck::DISABLED => 0x00,
            AddressCheck::SELF => 0x01,
            AddressCheck::SELF_LOW_BROADCAST => 0x02,
            AddressCheck::SELF_HIGH_LOW_BROADCAST => 0x03,
        }
    }
}

/// Packet length modes.
#[derive(Copy, Clone, Debug, PartialEq, Eq, Structural)]
#[allow(non_camel_case_types)]
pub enum LengthConfig {
    FIXED,
    VARIABLE,
    INFINITE,
}

impl LengthConfig {
    /// The field encoding of this variant.
    pub open spec fn spec_value(self) -> u8 {
        match self {
            LengthConfig::FIXED => 0x00,
            LengthConfig::VARIABLE => 0x01,
            LengthConfig::INFINITE => 0x02,
        }
    }

    /// The field encoding of this variant.
    pub fn value(self) -> (r: u8)
        ensures
            r == self.spec_value(),
    {
        match self {
            LengthConfig::FIXED => 0x00,
            LengthConfig::VARIABLE => 0x01,
            LengthConfig::INFINITE => 0x02,
        }
    }
}

/// When the chip runs automatic calibration.
#[derive(Copy, Clone, Debug, PartialEq, Eq, Structural)]
#[allow(non_camel_case_types)]
pub enum AutoCalibration {
    DISABLED,
    FROM_IDLE,
    TO_IDLE,
    EVERY_4TH_TO_IDLE,
}

impl AutoCalibration {
    /// The field encoding of this variant.
    pub open spec fn spec_value(self) -> u8 {
        match self {
            AutoCalibration::DISABLED => 0x00,
            AutoCalibration::FROM_IDLE => 0x01,
            AutoCalibration::TO_IDLE => 0x02,
            AutoCalibration::EVERY_4TH_TO_IDLE => 0x03,
        }
    }

    /// The field encoding of this variant.
    pub fn value(self) -> (r: u8)
        ensures
            r == self.spec_value(),
    {
        match self {
            AutoCalibration::DISABLED => 0x00,
            AutoCalibration::FROM_IDLE => 0x01,
            AutoCalibration::TO_IDLE => 0x02,
            AutoCalibration::EVERY_4TH_TO_IDLE => 0x03,
        }
    }
}

} // verus!
