//! Radio state machine, packet paths, and configuration setters,
//! exercised against a recording bus double.

use cc1101::lowlevel::types::MachineState;
use cc1101::port::{BusEvent, RecordingBus, ScriptedPin};
use cc1101::{
    AddressFilter, Cc1101, Error, FilterLength, Modulation, NbError, PacketLength, RadioMode,
    SyncMode, TargetAmplitude,
};

fn driver(responses: Vec<u8>) -> Cc1101<RecordingBus> {
    match Cc1101::new(RecordingBus::new(responses)) {
        Ok(c) => c,
        Err(_) => panic!("a recording bus never fails"),
    }
}

#[test]
fn transmit_sequences_write_strobe_polls_flush() {
    // Two machine state polls: first still in transmit, then idle.
    let mut drv = driver(vec![0x00, 0x13, 0x00, 0x01]);
    let payload = [0xA5u8; 32];
    drv.transmit(&payload).unwrap();
    let log = &drv.0.spi.log;
    assert_eq!(log.len(), 5);
    assert_eq!(log[0], BusEvent::BurstWrite { header: 0x7F, data: payload.to_vec() });
    assert_eq!(log[1], BusEvent::Write { sent: vec![0x35] });
    assert_eq!(log[2], BusEvent::Exchange { sent: vec![0xF5, 0x00], rcvd: vec![0x00, 0x13] });
    assert_eq!(log[3], BusEvent::Exchange { sent: vec![0xF5, 0x00], rcvd: vec![0x00, 0x01] });
    assert_eq!(log[4], BusEvent::Write { sent: vec![0x3B] });
}

#[test]
fn transmit_immediately_idle_still_polls_at_least_once() {
    let mut drv = driver(vec![0x00, 0x01]);
    let payload = [0u8; 32];
    drv.transmit(&payload).unwrap();
    // burst write, strobe, one poll, flush
    assert_eq!(drv.0.spi.log.len(), 4);
}

#[test]
fn transmit_start_only_writes_and_strobes() {
    let mut drv = driver(vec![]);
    let payload = [7u8; 32];
    drv.transmit_start(&payload).unwrap();
    assert_eq!(
        drv.0.spi.log,
        vec![
            BusEvent::BurstWrite { header: 0x7F, data: payload.to_vec() },
            BusEvent::Write { sent: vec![0x35] },
        ]
    );
}

#[test]
fn transmit_poll_reports_would_block_until_idle() {
    let mut drv = driver(vec![0x00, 0x13, 0x00, 0x01]);
    assert!(matches!(drv.transmit_poll(), Err(NbError::WouldBlock)));
    assert_eq!(drv.0.spi.log.len(), 1);
    drv.transmit_poll().unwrap();
    // Completion adds the poll and the flush strobe.
    assert_eq!(drv.0.spi.log.len(), 3);
    assert_eq!(drv.0.spi.log[2], BusEvent::Write { sent: vec![0x3B] });
}

#[test]
fn receive_with_pin_low_touches_no_bus() {
    let mut drv = driver(vec![0xEE; 64]);
    let mut pin = ScriptedPin::new(vec![false]);
    assert!(matches!(drv.receive(&mut pin), Err(NbError::WouldBlock)));
    assert_eq!(drv.0.spi.log.len(), 0);
}

#[test]
fn receive_with_pin_high_is_one_burst_read() {
    let script: Vec<u8> = (0..32u8).collect();
    let mut drv = driver(script.clone());
    let mut pin = ScriptedPin::new(vec![true]);
    let payload = drv.receive(&mut pin).unwrap();
    assert_eq!(payload, script);
    assert_eq!(drv.0.spi.log, vec![BusEvent::BurstRead { header: 0xFF, data: script }]);
}

#[test]
fn receive_variable_reads_length_then_payload() {
    let mut drv = driver(vec![4, 0xDE, 0xAD, 0xBE, 0xEF]);
    let mut pin = ScriptedPin::new(vec![true]);
    let payload = drv.receive_variable(&mut pin).unwrap();
    assert_eq!(payload, vec![0xDE, 0xAD, 0xBE, 0xEF]);
    assert_eq!(
        drv.0.spi.log,
        vec![
            BusEvent::BurstRead { header: 0xFF, data: vec![4] },
            BusEvent::BurstRead { header: 0xFF, data: vec![0xDE, 0xAD, 0xBE, 0xEF] },
        ]
    );
}

#[test]
fn receive_variable_rejects_an_oversized_length_byte() {
    let mut drv = driver(vec![70]);
    let mut pin = ScriptedPin::new(vec![true]);
    let r = drv.receive_variable(&mut pin);
    assert!(matches!(r, Err(NbError::Other(Error::RxOverflow))));
    assert_eq!(drv.0.spi.log.len(), 1);
}

#[test]
fn set_radio_mode_strobes_then_polls_to_target() {
    let mut drv = driver(vec![0x00, 0x0D]);
    drv.set_radio_mode(RadioMode::Receive).unwrap();
    assert_eq!(drv.0.spi.log[0], BusEvent::Write { sent: vec![0x34] });
    assert_eq!(drv.0.spi.log.len(), 2);
}

#[test]
fn calibrate_routes_through_idle() {
    // Poll to idle, calibrate strobe, poll back to idle.
    let mut drv = driver(vec![0x00, 0x01, 0x00, 0x01]);
    drv.set_radio_mode(RadioMode::Calibrate).unwrap();
    let log = &drv.0.spi.log;
    assert_eq!(log.len(), 4);
    assert_eq!(log[0], BusEvent::Write { sent: vec![0x36] });
    assert_eq!(log[2], BusEvent::Write { sent: vec![0x33] });
}

#[test]
fn await_machine_state_times_out() {
    let mut drv = driver(vec![]);
    let r = drv.await_machine_state(MachineState::RX, 16);
    assert!(matches!(r, Err(Error::TimedOut)));
    assert_eq!(drv.0.spi.log.len(), 16);
}

#[test]
fn to_idle_to_tx_to_rx_use_their_strobes() {
    let mut drv = driver(vec![0x00, 0x01, 0x00, 0x13, 0x00, 0x0D]);
    drv.to_idle().unwrap();
    drv.to_tx().unwrap();
    drv.to_rx().unwrap();
    let strobes: Vec<&BusEvent> = drv.0.spi.log.iter().step_by(2).collect();
    assert_eq!(*strobes[0], BusEvent::Write { sent: vec![0x36] });
    assert_eq!(*strobes[1], BusEvent::Write { sent: vec![0x35] });
    assert_eq!(*strobes[2], BusEvent::Write { sent: vec![0x34] });
}

#[test]
fn set_frequency_writes_three_bytes_low_to_high() {
    let mut drv = driver(vec![]);
    drv.set_frequency(433_920_000).unwrap();
    assert_eq!(
        drv.0.spi.log,
        vec![
            BusEvent::Write { sent: vec![0x0F, 0x34] },
            BusEvent::Write { sent: vec![0x0E, 0x12] },
            BusEvent::Write { sent: vec![0x0D, 0x10] },
        ]
    );
}

#[test]
fn set_deviation_writes_the_combined_byte() {
    let mut drv = driver(vec![]);
    drv.set_deviation(20_000).unwrap();
    // Reset byte 0x47, mantissa 4, exponent 3: 0x34.
    assert_eq!(drv.0.spi.log, vec![BusEvent::Write { sent: vec![0x15, 0x34] }]);
}

#[test]
fn set_data_rate_touches_exponent_then_mantissa() {
    let mut drv = driver(vec![0x00, 0x2C]);
    drv.set_data_rate(38_400).unwrap();
    let log = &drv.0.spi.log;
    assert_eq!(log.len(), 3);
    // Exponent 10 into the low nibble of the read byte 0x2C.
    assert_eq!(log[1], BusEvent::Write { sent: vec![0x10, 0x2A] });
    // Mantissa 117 fills the next register.
    assert_eq!(log[2], BusEvent::Write { sent: vec![0x11, 117] });
}

#[test]
fn set_chanbw_keeps_unrelated_bits() {
    let mut drv = driver(vec![0x00, 0x0F]);
    drv.set_chanbw(101_562).unwrap();
    // Mantissa 0, exponent 3 into the top nibble: 0xC0 | 0x0F.
    assert_eq!(drv.0.spi.log[1], BusEvent::Write { sent: vec![0x10, 0xCF] });
}

#[test]
fn set_sync_mode_writes_qualifier_and_word() {
    let mut drv = driver(vec![0x00, 0x00]);
    drv.set_sync_mode(SyncMode::MatchFull(0xBEEF)).unwrap();
    let log = &drv.0.spi.log;
    assert_eq!(log[1], BusEvent::Write { sent: vec![0x12, 0x02] });
    assert_eq!(log[2], BusEvent::Write { sent: vec![0x04, 0xBE] });
    assert_eq!(log[3], BusEvent::Write { sent: vec![0x05, 0xEF] });
}

#[test]
fn disabled_sync_mode_restores_reset_word() {
    let mut drv = driver(vec![0x00, 0xFF]);
    drv.set_sync_mode(SyncMode::Disabled).unwrap();
    let log = &drv.0.spi.log;
    assert_eq!(log[2], BusEvent::Write { sent: vec![0x04, 0xD3] });
    assert_eq!(log[3], BusEvent::Write { sent: vec![0x05, 0x91] });
}

#[test]
fn set_modulation_keeps_unrelated_bits() {
    let mut drv = driver(vec![0x00, 0b1000_1011]);
    drv.set_modulation(Modulation::MinimumShiftKeying).unwrap();
    // Format 7 into bits 6:4, everything else untouched.
    assert_eq!(drv.0.spi.log[1], BusEvent::Write { sent: vec![0x12, 0b1111_1011] });
}

#[test]
fn set_address_filter_writes_mode_and_address() {
    let mut drv = driver(vec![0x00, 0x0C]);
    drv.set_address_filter(AddressFilter::DeviceLowBroadcast(0x42)).unwrap();
    let log = &drv.0.spi.log;
    assert_eq!(log[1], BusEvent::Write { sent: vec![0x07, 0x0E] });
    assert_eq!(log[2], BusEvent::Write { sent: vec![0x09, 0x42] });
}

#[test]
fn set_packet_length_fixed_writes_mode_and_length() {
    let mut drv = driver(vec![0x00, 0x47]);
    drv.set_packet_length(PacketLength::Fixed(32)).unwrap();
    let log = &drv.0.spi.log;
    assert_eq!(log[1], BusEvent::Write { sent: vec![0x08, 0x44] });
    assert_eq!(log[2], BusEvent::Write { sent: vec![0x06, 32] });
}

#[test]
fn agc_setters_modify_only_their_fields() {
    let mut drv = driver(vec![0x00, 0xFF, 0x00, 0xFF, 0x00, 0xFF]);
    drv.set_agc_target(TargetAmplitude::Db33).unwrap();
    drv.set_agc_filter_length(FilterLength::Samples16).unwrap();
    drv.set_synthesizer_if(152_343).unwrap();
    let log = &drv.0.spi.log;
    assert_eq!(log[1], BusEvent::Write { sent: vec![0x1B, 0xFB] });
    assert_eq!(log[3], BusEvent::Write { sent: vec![0x1D, 0xFD] });
    assert_eq!(log[4], BusEvent::Write { sent: vec![0x0B, 0x06] });
}

#[test]
fn get_hw_info_reads_partnum_and_version() {
    let mut drv = driver(vec![0x00, 0x00, 0x00, 0x14]);
    assert_eq!(drv.get_hw_info().unwrap(), (0x00, 0x14));
    assert_eq!(drv.0.spi.log[0], BusEvent::Exchange { sent: vec![0xF0, 0], rcvd: vec![0, 0] });
    assert_eq!(drv.0.spi.log[1], BusEvent::Exchange { sent: vec![0xF1, 0], rcvd: vec![0, 0x14] });
}

#[test]
fn get_rssi_and_lqi_decode_status_bytes() {
    let mut drv = driver(vec![0x00, 128, 0x00, 0b1011_0101]);
    assert_eq!(drv.get_rssi_dbm().unwrap(), -138);
    assert_eq!(drv.get_crc_lqi().unwrap(), (true, 0b0011_0101));
}

#[test]
fn configure_applies_profile_then_patable() {
    let mut drv = driver(vec![]);
    drv.configure().unwrap();
    let log = &drv.0.spi.log;
    assert_eq!(log.len(), 11);
    assert_eq!(log[0], BusEvent::Write { sent: vec![0x00, 0x07] });
    assert_eq!(
        log[10],
        BusEvent::BurstWrite {
            header: 0x7E,
            data: vec![0x03, 0x0E, 0x1E, 0x27, 0x8E, 0xCD, 0xC7, 0xC0],
        }
    );
}

#[test]
fn write_patable_programs_the_fixed_table() {
    let mut drv = driver(vec![]);
    drv.write_patable().unwrap();
    assert_eq!(
        drv.0.spi.log,
        vec![BusEvent::BurstWrite {
            header: 0x7E,
            data: vec![0x03, 0x0E, 0x1E, 0x27, 0x8E, 0xCD, 0xC7, 0xC0],
        }]
    );
}

#[test]
fn marc_state_strips_the_status_bits() {
    let mut drv = driver(vec![0x00, 0xED]);
    assert_eq!(drv.get_marc_state().unwrap(), 0x0D);
}

#[test]
fn is_state_machine_compares_against_target() {
    let mut drv = driver(vec![0x00, 0x0D, 0x00, 0x0D]);
    assert!(drv.is_state_machine(MachineState::RX).unwrap());
    assert!(!drv.is_state_machine(MachineState::TX).unwrap());
}

#[test]
fn receive_checked_accepts_a_crc_valid_frame() {
    let mut script: Vec<u8> = (0..32u8).collect();
    script.push(0x00); // status byte of the LQI read
    script.push(0xB0); // LQI with the CRC flag set
    let mut drv = driver(script);
    let mut pin = ScriptedPin::new(vec![true]);
    let payload = drv.receive_checked(&mut pin).unwrap();
    assert_eq!(payload, (0..32u8).collect::<Vec<u8>>());
    assert_eq!(drv.0.spi.log.len(), 2);
}

#[test]
fn receive_checked_surfaces_a_crc_mismatch() {
    let mut script: Vec<u8> = vec![0u8; 32];
    script.push(0x00);
    script.push(0x30); // LQI with the CRC flag clear
    let mut drv = driver(script);
    let mut pin = ScriptedPin::new(vec![true]);
    let r = drv.receive_checked(&mut pin);
    assert!(matches!(r, Err(NbError::Other(Error::CrcMismatch))));
}

#[test]
fn receive_checked_with_pin_low_touches_no_bus() {
    let mut drv = driver(vec![0xAA; 40]);
    let mut pin = ScriptedPin::new(vec![false]);
    assert!(matches!(drv.receive_checked(&mut pin), Err(NbError::WouldBlock)));
    assert_eq!(drv.0.spi.log.len(), 0);
}
