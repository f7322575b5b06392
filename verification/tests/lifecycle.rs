use au_trx::ring::RING_SIZE;
use au_trx::signal::Signal;
use au_trx::transmitter::{Action, Event, Transmitter};
use au_trx::AudioProcessor;
use frame_header::{EncodingFlag, Endianness, FrameHeader};
use std::time::{SystemTime, UNIX_EPOCH};

struct ReceivedFrame {
    header: FrameHeader,
    audio_data: Vec<u8>,
}

/// A server that reads what a transmitter writes, as far as it has been written.
struct Server {
    id: [u8; 2],
    written: Vec<u8>,
}

impl Server {
    fn new(id: u16) -> Self {
        Server { id: id.to_le_bytes(), written: Vec::new() }
    }

    fn frames(&self) -> Vec<ReceivedFrame> {
        assert_eq!(&self.written[..4], b"HELO", "Expected HELO handshake");
        let mut rest = &self.written[4..];
        let mut frames = Vec::new();
        while rest.len() >= 4 {
            let total = u32::from_le_bytes([rest[0], rest[1], rest[2], rest[3]]) as usize;
            if rest.len() < total {
                break;
            }
            let frame = &rest[4..total];
            if let Ok(header) = FrameHeader::decode(&mut &frame[..]) {
                let audio_data = frame[header.size()..].to_vec();
                frames.push(ReceivedFrame { header, audio_data });
            }
            rest = &rest[total..];
        }
        frames
    }
}

/// Reports events until the transmitter waits or ends, with everything going well.
fn run(t: &mut Transmitter, server: &mut Server, first: Event, shutdown: bool) -> Action {
    let mut event = first;
    loop {
        assert!(t.expects(&event));
        event = match t.step(event, shutdown) {
            Action::Connect => Event::Connected(true),
            Action::Send => {
                server.written.extend_from_slice(t.outgoing());
                Event::Sent(true)
            }
            Action::ReadId => Event::IdRead(Some(server.id)),
            action => return action,
        };
    }
}

fn launch(p: &mut AudioProcessor, data: &[u8], ts: u64) -> Transmitter {
    p.add(data, ts).transmitter.expect("the first block launches the transmitter")
}

#[test]
fn test_audio_processor_lifecycle() {
    const SOCKET_PATH: &str = "/tmp/au-trx-test.sock";

    let mut server = Server::new(1);
    let mut processor = AudioProcessor::new(SOCKET_PATH.to_string(), 2, 48_000);

    let num_samples = 10;
    let mut test_data = vec![0u8; 3 * 2 * num_samples];
    for i in (0..test_data.len()).step_by(6) {
        test_data[i] = 0x12;
        test_data[i + 1] = 0x34;
        test_data[i + 2] = 0x56;
        test_data[i + 3] = 0x78;
        test_data[i + 4] = 0x9A;
        test_data[i + 5] = 0xBC;
    }

    let now = SystemTime::now()
        .duration_since(UNIX_EPOCH)
        .unwrap()
        .as_micros() as u64;

    let mut t = launch(&mut processor, &test_data, now);
    assert_eq!(t.socket_path(), SOCKET_PATH);
    assert!(matches!(run(&mut t, &mut server, Event::Retry, false), Action::Wait));
    assert!(matches!(run(&mut t, &mut server, Event::Woken, false), Action::Wait));
    for _ in 0..2 {
        let added = processor.add(&test_data, now);
        assert!(added.queued);
        assert!(added.transmitter.is_none());
        assert!(matches!(run(&mut t, &mut server, Event::Woken, false), Action::Wait));
    }

    let frames = server.frames();
    assert!(!frames.is_empty(), "No frames received");
    assert_eq!(frames.len(), 3);

    let first_frame = &frames[0];
    assert_eq!(first_frame.header.channels(), 2, "Expected stereo");
    assert_eq!(first_frame.header.bits_per_sample(), 24, "Expected 24-bit audio");
    assert_eq!(first_frame.header.sample_rate(), 48_000, "Expected 48kHz sample rate");
    assert_eq!(first_frame.header.sample_size(), 10);
    assert_eq!(*first_frame.header.encoding(), EncodingFlag::PCMSigned);
    assert_eq!(*first_frame.header.endianness(), Endianness::LittleEndian);
    assert_eq!(first_frame.header.id(), Some(1));
    assert_eq!(first_frame.header.pts(), Some(now));
    assert_eq!(
        first_frame.audio_data.len(),
        3 * 2 * num_samples,
        "Incorrect audio data length. Expected {}, got {}",
        3 * 2 * num_samples,
        first_frame.audio_data.len()
    );
    for i in (0..first_frame.audio_data.len()).step_by(6) {
        assert_eq!(
            &first_frame.audio_data[i..i + 3],
            &[0x12, 0x34, 0x56],
            "Incorrect left channel data at offset {}",
            i
        );
        assert_eq!(
            &first_frame.audio_data[i + 3..i + 6],
            &[0x78, 0x9A, 0xBC],
            "Incorrect right channel data at offset {}",
            i
        );
    }

    processor.shutdown();
    assert!(processor.is_shutdown());
    assert!(matches!(run(&mut t, &mut server, Event::Woken, true), Action::Exit));
    assert!(!t.expects(&Event::Retry));
    assert!(!t.expects(&Event::Woken));
}

#[test]
fn frame_bytes_are_exact() {
    let mut p = AudioProcessor::new("s".to_string(), 1, 44_100);
    let mut server = Server::new(0x0201);
    let mut t = launch(&mut p, &[1, 2, 3], 0x0102_0304_0506_0708);
    run(&mut t, &mut server, Event::Retry, false);
    run(&mut t, &mut server, Event::Woken, false);
    assert_eq!(
        server.written,
        vec![
            b'H', b'E', b'L', b'O', // greeting
            27, 0, 0, 0, // length
            0xA9, 0x70, 0x00, 0x01, // word
            0, 0, 0, 0, 0, 0, 0x02, 0x01, // id
            1, 2, 3, 4, 5, 6, 7, 8, // timestamp
            1, 2, 3, // audio
        ]
    );
}

#[test]
fn each_frame_has_its_own_timestamp_and_audio_in_order() {
    let mut p = AudioProcessor::new("s".to_string(), 1, 48_000);
    let mut server = Server::new(7);
    let mut t = launch(&mut p, &[0, 0, 0], 1000);
    for k in 1..20u8 {
        assert!(p.add(&[k, k, k], 1000 + k as u64).queued);
    }
    run(&mut t, &mut server, Event::Retry, false);
    run(&mut t, &mut server, Event::Woken, false);
    let frames = server.frames();
    assert_eq!(frames.len(), 20);
    for (k, frame) in frames.iter().enumerate() {
        assert_eq!(frame.header.pts(), Some(1000 + k as u64));
        assert_eq!(frame.header.id(), Some(7));
        assert_eq!(frame.audio_data, vec![k as u8; 3]);
    }
}

#[test]
fn a_frame_id_takes_the_place_of_the_servers() {
    let mut p = AudioProcessor::new("s".to_string(), 1, 48_000).with_frame_id(0xBEEF);
    let mut server = Server::new(7);
    let mut t = launch(&mut p, &[0, 0, 0], 1);
    run(&mut t, &mut server, Event::Retry, false);
    run(&mut t, &mut server, Event::Woken, false);
    assert_eq!(server.frames()[0].header.id(), Some(0xBEEF));
}

#[test]
fn blocks_are_dropped_when_the_ring_is_full() {
    let mut p = AudioProcessor::new("s".to_string(), 1, 48_000);
    let mut server = Server::new(1);
    let mut t = launch(&mut p, &[1, 2, 3], 0);
    for ts in 1..RING_SIZE as u64 {
        assert!(p.add(&[1, 2, 3], ts).queued);
    }
    assert!(!p.add(&[1, 2, 3], 9999).queued);
    run(&mut t, &mut server, Event::Retry, false);
    run(&mut t, &mut server, Event::Woken, false);
    let frames = server.frames();
    assert_eq!(frames.len(), 256);
    assert_eq!(frames[255].header.pts(), Some(255));
    assert!(p.add(&[1, 2, 3], 256).queued);
}

#[test]
fn buffers_are_used_over_and_over() {
    let mut p = AudioProcessor::new("s".to_string(), 1, 48_000);
    let mut server = Server::new(1);
    let mut t = launch(&mut p, &[9, 9, 9], 0);
    run(&mut t, &mut server, Event::Retry, false);
    run(&mut t, &mut server, Event::Woken, false);
    for round in 1..1000u64 {
        assert!(p.add(&[round as u8, 1, 2], round).queued);
        run(&mut t, &mut server, Event::Woken, false);
    }
    let frames = server.frames();
    assert_eq!(frames.len(), 1000);
    for (k, frame) in frames.iter().enumerate().skip(1) {
        assert_eq!(frame.audio_data, vec![k as u8, 1, 2]);
    }
}

#[test]
fn the_announced_length_is_that_of_the_first_block() {
    let mut p = AudioProcessor::new("s".to_string(), 2, 48_000);
    let mut server = Server::new(1);
    let mut t = launch(&mut p, &[0; 13], 0);
    run(&mut t, &mut server, Event::Retry, false);
    run(&mut t, &mut server, Event::Woken, false);
    // Two whole samples per channel are 12 bytes; all 13 are sent.
    assert_eq!(&server.written[4..8], &[36, 0, 0, 0]);
    assert_eq!(server.written.len(), 4 + 4 + 20 + 13);
    server.written.clear();
    p.add(&[0; 5], 1);
    run(&mut t, &mut server, Event::Woken, false);
    assert_eq!(&server.written[..4], &[36, 0, 0, 0]);
    assert_eq!(server.written.len(), 4 + 20 + 5);
}

#[test]
fn the_sample_count_keeps_its_lowest_bits() {
    let mut p = AudioProcessor::new("s".to_string(), 1, 96_000);
    let mut server = Server::new(1);
    let mut t = launch(&mut p, &vec![0u8; 3 * (65536 + 10)], 5);
    run(&mut t, &mut server, Event::Retry, false);
    run(&mut t, &mut server, Event::Woken, false);
    let frames = server.frames();
    assert_eq!(frames.len(), 1);
    assert_eq!(frames[0].header.sample_size(), 10);
    assert_eq!(frames[0].audio_data.len(), 3 * (65536 + 10));
}

#[test]
fn an_empty_first_block_is_a_frame_too() {
    let mut p = AudioProcessor::new("s".to_string(), 2, 48_000);
    let mut server = Server::new(1);
    let mut t = launch(&mut p, &[], 5);
    run(&mut t, &mut server, Event::Retry, false);
    run(&mut t, &mut server, Event::Woken, false);
    let frames = server.frames();
    assert_eq!(frames.len(), 1);
    assert_eq!(frames[0].header.sample_size(), 0);
    assert!(frames[0].audio_data.is_empty());
}

fn complaint(channels: u8, sample_rate: u32, frame_size: usize) -> String {
    let mut p = AudioProcessor::new("s".to_string(), channels, sample_rate);
    let mut server = Server::new(1);
    let mut t = launch(&mut p, &vec![0u8; frame_size], 5);
    match run(&mut t, &mut server, Event::Retry, false) {
        Action::Abort(text) => {
            assert_eq!(server.written, b"HELO".to_vec());
            assert!(!t.expects(&Event::Retry));
            text
        }
        _ => panic!("expected a complaint"),
    }
}

#[test]
fn frames_without_a_header_abort_the_transmitter() {
    assert_eq!(complaint(17, 48_000, 51), "Channel count must be between 1 and 16");
    assert_eq!(
        complaint(1, 22_050, 3),
        "Invalid sample rate: 22050. Must be one of: [16000, 44100, 48000, 96000]"
    );
    assert_eq!(complaint(1, 48_000, 3 * 4096), "Sample size exceeds maximum value (4095)");
}

#[test]
fn failures_lead_to_a_new_connection() {
    let mut p = AudioProcessor::new("s".to_string(), 1, 48_000);
    let mut t = launch(&mut p, &[1, 1, 1], 1);
    p.add(&[2, 2, 2], 2);
    p.add(&[3, 3, 3], 3);

    assert!(matches!(t.step(Event::Retry, false), Action::Connect));
    assert!(matches!(t.step(Event::Connected(false), false), Action::Rest));
    assert!(matches!(t.step(Event::Retry, false), Action::Connect));
    assert!(matches!(t.step(Event::Connected(true), false), Action::Send));
    assert_eq!(t.outgoing(), b"HELO");
    assert!(matches!(t.step(Event::Sent(false), false), Action::Rest));
    assert!(matches!(t.step(Event::Retry, false), Action::Connect));
    assert!(matches!(t.step(Event::Connected(true), false), Action::Send));
    assert!(matches!(t.step(Event::Sent(true), false), Action::ReadId));
    assert!(matches!(t.step(Event::IdRead(None), false), Action::Rest));
    assert!(matches!(t.step(Event::Retry, false), Action::Connect));
    assert!(matches!(t.step(Event::Connected(true), false), Action::Send));
    assert!(matches!(t.step(Event::Sent(true), false), Action::ReadId));
    assert!(matches!(t.step(Event::IdRead(Some([5, 0])), false), Action::Wait));
    assert!(matches!(t.step(Event::Woken, false), Action::Send));
    // The first frame is lost with its connection.
    assert!(matches!(t.step(Event::Sent(false), false), Action::Rest));

    let mut server = Server::new(6);
    assert!(matches!(run(&mut t, &mut server, Event::Retry, false), Action::Wait));
    assert!(matches!(run(&mut t, &mut server, Event::Woken, false), Action::Wait));
    let frames = server.frames();
    assert_eq!(frames.len(), 2);
    assert_eq!(frames[0].header.pts(), Some(2));
    assert_eq!(frames[0].header.id(), Some(6));
    assert_eq!(frames[1].audio_data, vec![3, 3, 3]);
}

#[test]
fn the_shutdown_flag_ends_the_transmitter_everywhere() {
    let launched = |p: &mut AudioProcessor| launch(p, &[1, 1, 1], 1);
    let processor = || AudioProcessor::new("s".to_string(), 1, 48_000);

    // Before it connects.
    let mut t = launched(&mut processor());
    assert!(matches!(t.step(Event::Retry, true), Action::Exit));

    // After a failure.
    let mut t = launched(&mut processor());
    t.step(Event::Retry, false);
    assert!(matches!(t.step(Event::Connected(false), true), Action::Rest));
    assert!(matches!(t.step(Event::Retry, true), Action::Exit));

    // Once the connection is open; the greeting is not cut short.
    let mut t = launched(&mut processor());
    t.step(Event::Retry, false);
    assert!(matches!(t.step(Event::Connected(true), true), Action::Send));
    assert!(matches!(t.step(Event::Sent(true), true), Action::ReadId));
    assert!(matches!(t.step(Event::IdRead(Some([0, 0])), true), Action::Exit));

    // After the wait, with a frame left unsent.
    let mut server = Server::new(1);
    let mut t = launched(&mut processor());
    run(&mut t, &mut server, Event::Retry, false);
    assert!(matches!(t.step(Event::Woken, true), Action::Exit));

    // While it sends: it sends what it found first.
    let mut p = processor();
    let mut server = Server::new(1);
    let mut t = launched(&mut p);
    p.add(&[2, 2, 2], 2);
    run(&mut t, &mut server, Event::Retry, false);
    assert!(matches!(t.step(Event::Woken, false), Action::Send));
    p.add(&[3, 3, 3], 3);
    assert!(matches!(t.step(Event::Sent(true), true), Action::Send));
    assert!(matches!(t.step(Event::Sent(true), true), Action::Exit));
}

#[test]
fn an_idle_wake_up_sends_nothing() {
    let mut p = AudioProcessor::new("s".to_string(), 1, 48_000);
    let mut server = Server::new(1);
    let mut t = launch(&mut p, &[1, 1, 1], 1);
    run(&mut t, &mut server, Event::Retry, false);
    run(&mut t, &mut server, Event::Woken, false);
    let before = server.written.clone();
    assert!(matches!(t.step(Event::Woken, false), Action::Wait));
    assert_eq!(server.written, before);
}

#[test]
fn blocks_are_still_queued_after_shutdown() {
    let mut p = AudioProcessor::new("s".to_string(), 1, 48_000);
    assert!(!p.is_shutdown());
    p.shutdown();
    p.shutdown();
    assert!(p.is_shutdown());
    let added = p.add(&[1, 1, 1], 1);
    assert!(added.queued);
    assert!(added.transmitter.is_some());
}

#[test]
fn a_full_queue_keeps_the_first_blocks_in_order() {
    let mut p = AudioProcessor::new("s".to_string(), 1, 48_000);
    let mut t = launch(&mut p, &[1, 2, 3], 0);
    for ts in 1..=256u64 {
        let added = p.add(&[1, 2, 3], ts);
        assert_eq!(added.queued, ts < 256);
        assert!(added.transmitter.is_none());
    }
    let mut server = Server::new(1);
    run(&mut t, &mut server, Event::Retry, false);
    run(&mut t, &mut server, Event::Woken, false);
    let frames = server.frames();
    assert_eq!(frames.len(), 256);
    for (k, frame) in frames.iter().enumerate() {
        assert_eq!(frame.header.pts(), Some(k as u64));
        assert_eq!(frame.audio_data, vec![1, 2, 3]);
    }
}

#[test]
fn a_slot_is_free_again_once_its_frame_is_taken() {
    let mut p = AudioProcessor::new("s".to_string(), 1, 48_000);
    let mut server = Server::new(1);
    let mut t = launch(&mut p, &[1, 2, 3], 0);
    for ts in 1..256u64 {
        assert!(p.add(&[1, 2, 3], ts).queued);
    }
    run(&mut t, &mut server, Event::Retry, false);
    assert!(!p.add(&[1, 2, 3], 256).queued);
    assert!(matches!(t.step(Event::Woken, false), Action::Send));
    assert!(p.add(&[1, 2, 3], 257).queued);
    assert!(!p.add(&[1, 2, 3], 258).queued);
}

#[test]
fn only_the_frame_of_a_failed_write_is_lost() {
    let mut p = AudioProcessor::new("s".to_string(), 1, 48_000);
    let mut t = launch(&mut p, &[0, 0, 0], 0);
    for k in 1..6u8 {
        assert!(p.add(&[k, k, k], k as u64).queued);
    }
    let mut server = Server::new(1);
    run(&mut t, &mut server, Event::Retry, false);
    assert!(matches!(t.step(Event::Woken, false), Action::Send));
    for _ in 0..2 {
        assert!(matches!(t.step(Event::Sent(true), false), Action::Send));
    }
    // The third frame fails.
    assert!(matches!(t.step(Event::Sent(false), false), Action::Rest));

    let mut server = Server::new(2);
    run(&mut t, &mut server, Event::Retry, false);
    run(&mut t, &mut server, Event::Woken, false);
    let frames = server.frames();
    assert_eq!(frames.len(), 3);
    for (k, frame) in frames.iter().enumerate() {
        assert_eq!(frame.header.pts(), Some(3 + k as u64));
        assert_eq!(frame.header.id(), Some(2));
        assert_eq!(frame.audio_data, vec![3 + k as u8; 3]);
    }
}

#[test]
fn the_transmitter_is_launched_once() {
    let mut p = AudioProcessor::new("s".to_string(), 1, 48_000);
    assert!(p.add(&[1, 1, 1], 0).transmitter.is_some());
    for ts in 1..1000u64 {
        assert!(p.add(&[1; 6], ts).transmitter.is_none());
    }
}

#[test]
fn other_calls_between_blocks_change_neither_the_launch_nor_the_queue() {
    let mut p = AudioProcessor::new("s".to_string(), 1, 48_000);
    p.shutdown();
    p = p.with_frame_id(3);
    let mut t = launch(&mut p, &[0, 0, 0], 0);
    for ts in 1..=256u64 {
        p.shutdown();
        p = p.with_frame_id(ts as u16);
        let added = p.add(&[0, 0, 0], ts);
        assert!(added.transmitter.is_none());
        assert_eq!(added.queued, ts < 256);
    }
    let mut server = Server::new(1);
    run(&mut t, &mut server, Event::Retry, false);
    run(&mut t, &mut server, Event::Woken, false);
    let frames = server.frames();
    assert_eq!(frames.len(), 256);
    for (k, frame) in frames.iter().enumerate() {
        assert_eq!(frame.header.id(), Some(3));
        assert_eq!(frame.header.pts(), Some(k as u64));
    }
}

#[test]
fn the_queue_is_asked_again_whenever_it_was_full() {
    let mut p = AudioProcessor::new("s".to_string(), 1, 48_000);
    let mut server = Server::new(1);
    let mut t = launch(&mut p, &[1, 2, 3], 0);
    run(&mut t, &mut server, Event::Retry, false);
    let mut sent = 1u64;
    for _ in 0..5 {
        while p.add(&[1, 2, 3], sent).queued {
            sent += 1;
        }
        run(&mut t, &mut server, Event::Woken, false);
    }
    let frames = server.frames();
    assert_eq!(sent, 5 * 256);
    assert_eq!(frames.len(), 5 * 256);
    for (k, frame) in frames.iter().enumerate() {
        assert_eq!(frame.header.pts(), Some(k as u64));
    }
}

#[test]
fn a_block_that_is_queued_after_the_look_wakes_the_transmitter_again() {
    let mut p = AudioProcessor::new("s".to_string(), 1, 48_000);
    let mut server = Server::new(1);
    let mut signal = Signal::new();
    let mut t = launch(&mut p, &[0, 0, 0], 0);
    assert!(signal.raise());
    run(&mut t, &mut server, Event::Retry, false);

    // The wait is over at once; a block comes between the end of the wait and the look.
    assert!(!signal.keep_waiting(false));
    signal.lower();
    assert!(p.add(&[1, 1, 1], 1).queued);
    assert!(signal.raise());
    assert!(matches!(t.step(Event::Woken, false), Action::Send));
    // Another one comes after the look.
    assert!(p.add(&[2, 2, 2], 2).queued);
    assert!(!signal.raise());
    server.written.extend_from_slice(t.outgoing());
    assert!(matches!(run(&mut t, &mut server, Event::Sent(true), false), Action::Wait));
    assert_eq!(server.frames().len(), 2);

    assert!(!signal.keep_waiting(false));
    signal.lower();
    assert!(matches!(run(&mut t, &mut server, Event::Woken, false), Action::Wait));
    assert_eq!(server.frames().len(), 3);
    assert!(signal.keep_waiting(false));
}
