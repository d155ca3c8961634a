//! Bus framing: the exact bytes each transaction puts on the wire.

use cc1101::lowlevel::registers::{Command, Config, Register, Status};
use cc1101::port::{BusEvent, RecordingBus};
use cc1101::Cc1101;

fn driver(responses: Vec<u8>) -> Cc1101<RecordingBus> {
    match Cc1101::new(RecordingBus::new(responses)) {
        Ok(c) => c,
        Err(_) => panic!("a recording bus never fails"),
    }
}

#[test]
fn write_single_frames_address_unmodified() {
    let mut drv = driver(vec![]);
    drv.0.write_register(Config::FREQ0, 0xAB).unwrap();
    assert_eq!(drv.0.spi.log, vec![BusEvent::Write { sent: vec![0x0F, 0xAB] }]);
}

#[test]
fn read_single_sets_exactly_the_read_flag() {
    let mut drv = driver(vec![0x00, 0x5A]);
    let v = drv.0.read_register(Register::Config(Config::FREQ2)).unwrap();
    assert_eq!(v, 0x5A);
    assert_eq!(
        drv.0.spi.log,
        vec![BusEvent::Exchange { sent: vec![0x8D, 0x00], rcvd: vec![0x00, 0x5A] }]
    );
}

#[test]
fn status_read_sets_read_and_burst_flags() {
    let mut drv = driver(vec![0x00, 0x01]);
    drv.0.read_register(Register::Status(Status::MARCSTATE)).unwrap();
    // MARCSTATE sits at 0x35; the status space is selected with both
    // flags: 0x35 | 0xC0 == 0xF5.
    assert_eq!(
        drv.0.spi.log,
        vec![BusEvent::Exchange { sent: vec![0xF5, 0x00], rcvd: vec![0x00, 0x01] }]
    );
}

#[test]
fn burst_writes_set_exactly_the_burst_flag() {
    let mut drv = driver(vec![]);
    drv.0.write_fifo(&[1, 2, 3]).unwrap();
    drv.0.write_patable(&[9, 8]).unwrap();
    assert_eq!(
        drv.0.spi.log,
        vec![
            BusEvent::BurstWrite { header: 0x7F, data: vec![1, 2, 3] },
            BusEvent::BurstWrite { header: 0x7E, data: vec![9, 8] },
        ]
    );
}

#[test]
fn burst_reads_set_both_flags() {
    let mut drv = driver(vec![7, 7, 7, 5, 5]);
    let fifo = drv.0.read_fifo(3).unwrap();
    let pa = drv.0.read_patable(2).unwrap();
    assert_eq!(fifo, vec![7, 7, 7]);
    assert_eq!(pa, vec![5, 5]);
    assert_eq!(
        drv.0.spi.log,
        vec![
            BusEvent::BurstRead { header: 0xFF, data: vec![7, 7, 7] },
            BusEvent::BurstRead { header: 0xFE, data: vec![5, 5] },
        ]
    );
}

#[test]
fn strobe_is_one_bare_address_byte() {
    let mut drv = driver(vec![]);
    drv.reset().unwrap();
    drv.flush_rx().unwrap();
    drv.flush_tx().unwrap();
    drv.power_down().unwrap();
    assert_eq!(
        drv.0.spi.log,
        vec![
            BusEvent::Write { sent: vec![0x30] },
            BusEvent::Write { sent: vec![0x3A] },
            BusEvent::Write { sent: vec![0x3B] },
            BusEvent::Write { sent: vec![0x39] },
        ]
    );
}

#[test]
fn modify_register_reads_then_writes_back() {
    let mut drv = driver(vec![0x00, 0b1010_0000]);
    drv.0.modify_register(Config::MDMCFG4, |b| b | 0x0C).unwrap();
    assert_eq!(
        drv.0.spi.log,
        vec![
            BusEvent::Exchange { sent: vec![0x90, 0x00], rcvd: vec![0x00, 0b1010_0000] },
            BusEvent::Write { sent: vec![0x10, 0b1010_1100] },
        ]
    );
}

#[test]
fn chip_ready_follows_top_status_bit() {
    let mut drv = driver(vec![0x80, 0x00]);
    assert!(!drv.0.chip_rdyn().unwrap());
    assert!(drv.0.chip_rdyn().unwrap());
    assert_eq!(
        drv.0.spi.log,
        vec![
            BusEvent::Exchange { sent: vec![0x3D], rcvd: vec![0x80] },
            BusEvent::Exchange { sent: vec![0x3D], rcvd: vec![0x00] },
        ]
    );
}

#[test]
fn wake_up_wait_stops_on_first_ready_status() {
    let mut drv = driver(vec![0x80, 0x80, 0x00]);
    drv.wake_up_wait(16).unwrap();
    assert_eq!(drv.0.spi.log.len(), 3);
}

#[test]
fn wake_up_wait_times_out_when_never_ready() {
    let mut drv = driver(vec![0x80; 8]);
    // Once the script is spent, the double answers zero, which reads
    // as ready; keep the attempt bound within the script.
    let r = drv.wake_up_wait(8);
    assert!(matches!(r, Err(cc1101::Error::TimedOut)));
    assert_eq!(drv.0.spi.log.len(), 8);
}
