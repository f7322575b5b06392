use au_trx::bytes::{u16_from_le_bytes, u32_le_bytes};
use au_trx::frame::{assemble, samples_per_channel, StreamFormat, BITS_PER_SAMPLE};
use au_trx::pcm::{i32_to_i24, stereo};
use au_trx::signal::Signal;
use au_trx::transmitter::RECONNECT_INTERVAL_MS;
use frame_header::FrameHeader;

#[test]
fn numbers_as_bytes() {
    assert_eq!(u32_le_bytes(0x1234_5678), [0x78, 0x56, 0x34, 0x12]);
    assert_eq!(u32_le_bytes(u32::MAX), [0xFF; 4]);
    assert_eq!(u16_from_le_bytes([0x34, 0x12]), 0x1234);
    assert_eq!(u16_from_le_bytes([0xFF, 0xFF]), u16::MAX);
}

#[test]
fn samples_as_bytes() {
    assert_eq!(i32_to_i24(0), [0, 0, 0]);
    assert_eq!(i32_to_i24(0x12_3456), [0x56, 0x34, 0x12]);
    assert_eq!(i32_to_i24(-1), [0xFF, 0xFF, 0xFF]);
    assert_eq!(i32_to_i24(8388607), [0xFF, 0xFF, 0x7F]);
    assert_eq!(i32_to_i24(-8388608), [0x00, 0x00, 0x80]);
    assert_eq!(i32_to_i24(i32::MIN), [0, 0, 0]);
    for value in [i32::MIN, -8388608, -12345, -256, -1, 0, 255, 65536, i32::MAX] {
        assert_eq!(i32_to_i24(value), value.to_le_bytes()[..3]);
    }
}

#[test]
fn both_channels_carry_the_samples() {
    assert_eq!(stereo(&[]), Vec::<u8>::new());
    assert_eq!(
        stereo(&[0x12_3456, -2]),
        vec![0x56, 0x34, 0x12, 0x56, 0x34, 0x12, 0xFE, 0xFF, 0xFF, 0xFE, 0xFF, 0xFF]
    );
    let block = stereo(&[7; 1024]);
    assert_eq!(samples_per_channel(block.len(), 2), 1024);
}

#[test]
fn samples_are_counted_whole() {
    assert_eq!(samples_per_channel(60, 2), 10);
    assert_eq!(samples_per_channel(65, 2), 10);
    assert_eq!(samples_per_channel(66, 2), 11);
    assert_eq!(samples_per_channel(2, 1), 0);
    assert_eq!(samples_per_channel(0, 255), 0);
}

#[test]
fn the_signal_is_raised_once() {
    let mut s = Signal::new();
    assert!(s.keep_waiting(false));
    assert!(!s.keep_waiting(true));
    assert!(s.raise());
    assert!(!s.raise());
    assert!(!s.keep_waiting(false));
    s.lower();
    assert!(s.keep_waiting(false));
    assert!(s.raise());
}

#[test]
fn a_format_makes_headers() {
    let format = StreamFormat {
        samples_per_channel: 10,
        num_channels: 2,
        sample_rate: 48_000,
        frame_id: None,
    };
    assert_eq!(format.assigned_id([0x02, 0x01]), 0x0102);
    let header = format.unstamped_header(0x0102).unwrap();
    let decoded = FrameHeader::decode(&mut &header[..]).unwrap();
    assert_eq!(decoded.sample_size(), 10);
    assert_eq!(decoded.channels(), 2);
    assert_eq!(decoded.bits_per_sample(), BITS_PER_SAMPLE);
    assert_eq!(decoded.sample_rate(), 48_000);
    assert_eq!(decoded.id(), Some(0x0102));
    assert_eq!(decoded.pts(), Some(123));
    assert_eq!(format.announced_size(&header), 84);

    let mut out = vec![1u8; 3];
    assemble(84, &vec![7, 8], &vec![9], &mut out);
    assert_eq!(out, vec![84, 0, 0, 0, 7, 8, 9]);

    let fixed = StreamFormat { frame_id: Some(9), ..format };
    assert_eq!(fixed.assigned_id([0x02, 0x01]), 9);
    let silent = StreamFormat { num_channels: 0, ..format };
    assert_eq!(
        silent.unstamped_header(0).unwrap_err(),
        "Channel count must be between 1 and 16"
    );
}

#[test]
fn the_rest_is_fifty_milliseconds() {
    assert_eq!(RECONNECT_INTERVAL_MS, 50);
}
