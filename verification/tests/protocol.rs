use ptz_controller::angle::{AzAngle, ElAngle};
use ptz_controller::context::Report;
use ptz_controller::protocol::{Error, Protocol, Response};
use ptz_controller::relays::Relays;
use ptz_controller::wire::{be16_bytes, be32_bytes, read_be16, read_be32};

/// Bit by bit division by the generator, to hold the checksum against.
fn long_division(block: &[u8]) -> u8 {
    let mut c: u8 = 0;
    for b in block {
        c ^= *b;
        for _ in 0..8 {
            c = if c & 0x80 != 0 { (c << 1) ^ 0x9b } else { c << 1 };
        }
    }
    c
}

fn report(seq: u32, az: u16, el: u16) -> Vec<u8> {
    let mut v = vec![0xFF];
    v.extend_from_slice(&seq.to_be_bytes());
    v.extend_from_slice(&az.to_be_bytes());
    v.extend_from_slice(&el.to_be_bytes());
    v.extend_from_slice(&[0xC0, 0xB0, 0x02]);
    v.push(long_division(&v));
    v.push(0xD5);
    v
}

#[test]
fn packet_numbers_count_up() {
    let mut p = Protocol::new(41);
    assert_eq!(p.get_seq(), 41);
    p.next_seq();
    assert_eq!(p.get_seq(), 42);
    p.next_seq();
    assert_eq!(p.get_seq(), 43);
}

#[test]
fn checksum_of_the_check_string() {
    assert_eq!(Protocol::new(0).crc8(b"123456789"), 0xEA);
}

#[test]
fn checksum_of_nothing_is_zero() {
    assert_eq!(Protocol::new(0).crc8(&[]), 0);
}

#[test]
fn checksum_agrees_with_long_division() {
    let p = Protocol::new(0);
    let mut block: Vec<u8> = Vec::new();
    for i in 0..600u32 {
        assert_eq!(p.crc8(&block), long_division(&block));
        block.push((i.wrapping_mul(2654435761) >> 13) as u8);
    }
}

#[test]
fn checksum_closes_a_block() {
    let p = Protocol::new(0);
    let mut block = b"rotator".to_vec();
    block.push(p.crc8(b"rotator"));
    assert_eq!(p.crc8(&block), 0);
}

#[test]
fn checksum_notices_every_changed_byte() {
    let p = Protocol::new(0);
    let block = [0xFFu8, 0, 0, 0, 42, 0x27, 0x10, 0x11, 0x94, 3];
    let sum = p.crc8(&block);
    for i in 0..block.len() {
        for flip in 1..=255u8 {
            let mut changed = block;
            changed[i] ^= flip;
            assert_ne!(p.crc8(&changed), sum);
        }
    }
}

#[test]
fn command_bytes_are_exact() {
    let mut p = Protocol::new(42);
    let c = p
        .make_command(&AzAngle { centi: 10000 }, &ElAngle { centi: 4500 }, 3)
        .unwrap();
    assert_eq!(
        c.as_bytes(),
        &[0xFF, 0, 0, 0, 42, 0x27, 0x10, 0x11, 0x94, 3, 0xBF]
    );
    assert_eq!(p.get_seq(), 42);
}

#[test]
fn command_at_the_horizon_is_ninety_degrees_from_the_zenith() {
    let mut p = Protocol::new(0xDEADBEEF);
    let c = p
        .make_command(&AzAngle { centi: 35999 }, &ElAngle { centi: 0 }, 0)
        .unwrap();
    assert_eq!(
        c.as_bytes(),
        &[0xFF, 0xDE, 0xAD, 0xBE, 0xEF, 0x8C, 0x9F, 0x23, 0x28, 0, 0xE1]
    );
}

#[test]
fn command_at_the_zenith_sends_zero() {
    let mut p = Protocol::new(1);
    let c = p
        .make_command(&AzAngle { centi: 0 }, &ElAngle { centi: 9000 }, 1)
        .unwrap();
    assert_eq!(&c.as_bytes()[7..9], &[0, 0]);
}

#[test]
fn different_commands_have_different_bytes() {
    let mut p = Protocol::new(9);
    let base = p
        .make_command(&AzAngle { centi: 100 }, &ElAngle { centi: 200 }, 1)
        .unwrap();
    let others = [
        p.make_command(&AzAngle { centi: 101 }, &ElAngle { centi: 200 }, 1),
        p.make_command(&AzAngle { centi: 100 }, &ElAngle { centi: 201 }, 1),
        p.make_command(&AzAngle { centi: 100 }, &ElAngle { centi: 200 }, 2),
    ];
    for other in others {
        assert_ne!(base.as_bytes(), other.unwrap().as_bytes());
    }
    p.next_seq();
    let later = p
        .make_command(&AzAngle { centi: 100 }, &ElAngle { centi: 200 }, 1)
        .unwrap();
    assert_ne!(base.as_bytes(), later.as_bytes());
}

#[test]
fn report_is_read_field_by_field() {
    let p = Protocol::new(42);
    assert_eq!(report(42, 10000, 4500)[12], 0x52);
    let r = p.check_response(&report(42, 10000, 4500)).unwrap();
    assert_eq!(
        r,
        Response {
            seq: 42,
            az: 10000,
            el: 4500,
            signal: 0xC0,
            noise: 0xB0,
            relays: 2,
            rssi: 0xD5
        }
    );
    assert_eq!(r.az_degrees(), 100);
    assert_eq!(r.el_degrees(), Some(45));
}

#[test]
fn degrees_are_rounded_down() {
    let p = Protocol::new(1);
    let r = p.check_response(&report(1, 1999, 8999)).unwrap();
    assert_eq!(r.az_degrees(), 19);
    assert_eq!(r.el_degrees(), Some(0));
    let r = p.check_response(&report(1, 65535, 1)).unwrap();
    assert_eq!(r.az_degrees(), 655);
    assert_eq!(r.el_degrees(), Some(89));
    let r = p.check_response(&report(1, 0, 0)).unwrap();
    assert_eq!(r.el_degrees(), Some(90));
    let r = p.check_response(&report(1, 0, 9000)).unwrap();
    assert_eq!(r.el_degrees(), Some(0));
    let r = p.check_response(&report(1, 0, 9001)).unwrap();
    assert_eq!(r.el_degrees(), None);
}

#[test]
fn report_of_the_wrong_length_is_refused() {
    let p = Protocol::new(42);
    assert_eq!(p.check_response(&[]), Err(Error::Length));
    assert_eq!(
        p.check_response(&report(42, 0, 0)[..13]),
        Err(Error::Length)
    );
    let mut long = report(42, 0, 0);
    long.push(0);
    assert_eq!(p.check_response(&long), Err(Error::Length));
}

#[test]
fn report_without_the_marker_is_refused() {
    let p = Protocol::new(42);
    let mut v = report(42, 0, 0);
    v[0] = 0xFE;
    assert_eq!(p.check_response(&v), Err(Error::Marker));
}

#[test]
fn report_with_a_wrong_checksum_is_refused() {
    let p = Protocol::new(42);
    let mut v = report(42, 0, 0);
    v[12] ^= 1;
    assert_eq!(p.check_response(&v), Err(Error::Crc));
}

#[test]
fn report_with_any_changed_byte_is_refused() {
    let p = Protocol::new(42);
    let good = report(42, 12345, 678);
    assert!(p.check_response(&good).is_ok());
    for i in 0..13 {
        for flip in 1..=255u8 {
            let mut v = good.clone();
            v[i] ^= flip;
            assert!(p.check_response(&v).is_err());
        }
    }
    let mut v = good;
    v[13] ^= 0x55;
    assert!(p.check_response(&v).is_ok());
}

#[test]
fn only_the_number_of_the_last_command_is_accepted() {
    let p = Protocol::new(42);
    assert!(p.check_response(&report(42, 0, 0)).is_ok());
    for seq in [0, 41, 43, u32::MAX] {
        assert_eq!(p.check_response(&report(seq, 0, 0)), Err(Error::Number));
    }
}

#[test]
fn echoed_angles_come_back_in_whole_degrees() {
    let mut p = Protocol::new(7);
    let c = p
        .make_command(&AzAngle { centi: 12345 }, &ElAngle { centi: 6789 }, 0)
        .unwrap();
    let b = c.as_bytes();
    let az = u16::from_be_bytes([b[5], b[6]]);
    let el = u16::from_be_bytes([b[7], b[8]]);
    let r = p.check_response(&report(7, az, el)).unwrap();
    assert_eq!(r.az_degrees(), 123);
    assert_eq!(r.el_degrees(), Some(67));
}

#[test]
fn accepted_response_becomes_a_report() {
    let p = Protocol::new(42);
    let r = p.check_response(&report(42, 10000, 4500)).unwrap();
    let relays = Relays {
        ptz: true,
        lna: false,
    };
    assert_eq!(
        r.accept(true, true, Some(relays)),
        Ok(Report {
            az: AzAngle { centi: 10000 },
            el: ElAngle { centi: 4500 },
            signal_s: 0xC0,
            noise_s: 0xB0,
            signal_m: 0xD5,
            relays
        })
    );
}

#[test]
fn first_fault_of_a_response_decides() {
    let p = Protocol::new(42);
    let r = p.check_response(&report(42, 10000, 4500)).unwrap();
    let low = p.check_response(&report(42, 10000, 9001)).unwrap();
    let relays = Some(Relays {
        ptz: true,
        lna: true,
    });
    assert_eq!(r.accept(false, false, None), Err(Error::Azimuth));
    assert_eq!(low.accept(false, false, None), Err(Error::Azimuth));
    assert_eq!(low.accept(true, true, relays), Err(Error::ElevationField));
    assert_eq!(low.accept(true, false, None), Err(Error::ElevationField));
    assert_eq!(r.accept(true, false, None), Err(Error::Elevation));
    assert_eq!(r.accept(true, true, None), Err(Error::Relays));
}

#[test]
fn numbers_are_written_high_byte_first() {
    assert_eq!(be16_bytes(0x1234), [0x12, 0x34]);
    assert_eq!(be32_bytes(0x12345678), [0x12, 0x34, 0x56, 0x78]);
    assert_eq!(read_be16(&[9, 0x12, 0x34], 1), 0x1234);
    assert_eq!(read_be32(&[9, 0x12, 0x34, 0x56, 0x78], 1), 0x12345678);
}

#[test]
fn elevations_end_at_the_zenith() {
    assert_eq!(ElAngle::new(9000), Some(ElAngle { centi: 9000 }));
    assert_eq!(ElAngle::new(9001), None);
}

#[test]
fn elevation_past_the_zenith_is_sent_as_the_zenith() {
    assert_eq!(ElAngle { centi: 9000 }.from_zenith(), 0);
    assert_eq!(ElAngle { centi: 9001 }.from_zenith(), 0);
    let mut p = Protocol::new(1);
    let c = p
        .make_command(&AzAngle { centi: 0 }, &ElAngle { centi: 12000 }, 0)
        .unwrap();
    assert_eq!(c.as_bytes()[7..9], [0, 0]);
}
