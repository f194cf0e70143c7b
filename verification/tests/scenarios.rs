use remote_m8::audio::{decoded_samples, NUM_CHANNELS, OPUS_CHUNK_SIZE, SAMPLE_RATE};
use remote_m8::capture::SampleFormat;
use remote_m8::connection::{ConnectionAction, ConnectionHandler, SocketEvent};
use remote_m8::hub::{BroadcastHub, Received, HUB_CAPACITY};
use remote_m8::jitter::{write_audio, JitterRingBuffer};
use remote_m8::link::{encode_command, handshake, LinkEvent, ReadOutcome, SerialLink};
use remote_m8::parser::{Operation, Parser};
use remote_m8::resample::{packet_of, AudioResampler, ResampleStep};
use rubato::Resampler;
use remote_m8::wire::{tag_message, TAG_AUDIO};

fn to_device(handler: &mut ConnectionHandler, event: SocketEvent) -> Vec<u8> {
    match handler.on_socket(event) {
        ConnectionAction::Control(command) => encode_command(command),
        other => panic!("expected a command, got {:?}", other),
    }
}

#[test]
fn reset_request_is_answered_by_a_cleared_screen() {
    let mut hub = BroadcastHub::new(HUB_CAPACITY).unwrap();
    let mut link = SerialLink::new();
    let mut written: Vec<u8> = Vec::new();
    let steps = handshake();
    written.extend_from_slice(&steps.first);
    written.extend_from_slice(&steps.second);

    let id = hub.subscribe();
    let mut handler = ConnectionHandler::new();
    match handler.start() {
        ConnectionAction::Control(command) => written.extend(encode_command(command)),
        other => panic!("expected a command, got {:?}", other),
    }
    written.extend(to_device(&mut handler, SocketEvent::Binary(vec![0x44])));
    written.extend(to_device(&mut handler, SocketEvent::Binary(vec![0x45, 0x52])));
    assert_eq!(written, vec![0x44, 0x45, 0x52, 0x45, 0x52, 0x44, 0x45, 0x52]);

    let answer = [0xc0, 0xfe, 0, 0, 0, 0, 0x40, 0x01, 0xf0, 0x00, 0, 0, 0, 0xc0];
    let mut published = 0;
    for piece in [&answer[..1], &answer[1..9], &answer[9..]] {
        assert_eq!(link.on_read(ReadOutcome::TimedOut), LinkEvent::Idle);
        if let LinkEvent::Publish(message) = link.on_read(ReadOutcome::Bytes(piece.to_vec())) {
            hub.publish(&message);
            published += 1;
        }
    }
    assert_eq!(published, 2);

    let mut parser = Parser::new();
    let mut drawn = Vec::new();
    loop {
        match handler.on_hub(hub.try_recv(id)) {
            ConnectionAction::Forward(message) => {
                assert_eq!(message[0], b'S');
                let (operations, wave, audio) = parser.parse(&message);
                assert_eq!(wave, None);
                assert!(audio.is_empty());
                drawn.extend(operations);
            }
            ConnectionAction::Wait => break,
            other => panic!("unexpected {:?}", other),
        }
    }
    assert_eq!(drawn, vec![Operation::ClearBackground]);
}

#[test]
fn captured_frames_reach_the_output_in_full() {
    let captured: Vec<f32> = (0..OPUS_CHUNK_SIZE * NUM_CHANNELS)
        .map(|i| (i as f32 + 1.0) / 4096.0)
        .collect();
    assert_eq!(captured.len(), 1920);
    let raw: Vec<u8> = captured.iter().flat_map(|s| s.to_ne_bytes()).collect();

    let mut resampler = AudioResampler::with_format(SAMPLE_RATE, SAMPLE_RATE, SampleFormat::F32);
    assert!(resampler.extend(&raw));
    let wanted = resampler.frames_needed(0);
    assert_eq!(wanted, OPUS_CHUNK_SIZE);
    let frames = match resampler.next_step(wanted) {
        Some(ResampleStep::Passthrough(bytes)) => floats(&bytes),
        other => panic!("equal rates need no converter, got {:?}", other),
    };
    assert_eq!(resampler.next_step(wanted), None);
    assert_eq!(resampler.pending_len(), 0);
    assert_eq!(frames, captured);

    let packet: Vec<u8> = frames.iter().flat_map(|s| s.to_bits().to_le_bytes()).collect();
    let mut hub = BroadcastHub::new(HUB_CAPACITY).unwrap();
    let id = hub.subscribe();
    hub.publish(&tag_message(TAG_AUDIO, &packet));
    let message = match hub.try_recv(id) {
        Received::Message(message) => message,
        other => panic!("unexpected {:?}", other),
    };

    let mut parser = Parser::new();
    let (operations, wave, audio) = parser.parse(&message);
    assert!(operations.is_empty());
    assert_eq!(wave, None);
    assert_eq!(audio.len(), 1);
    let decoded: Vec<u32> = audio[0]
        .chunks_exact(4)
        .map(|b| u32::from_le_bytes([b[0], b[1], b[2], b[3]]))
        .collect();
    assert_eq!(decoded_samples(OPUS_CHUNK_SIZE), Some(decoded.len()));

    let mut buffer = JitterRingBuffer::for_rate(SAMPLE_RATE).unwrap();
    assert_eq!(buffer.enqueue(&decoded), 1920);
    let mut data = vec![0u32; 1920];
    assert_eq!(write_audio(&mut buffer, &mut data), 1920);
    let played: Vec<f32> = data.iter().map(|b| f32::from_bits(*b)).collect();
    assert_eq!(played.len() / NUM_CHANNELS, 960);
    assert_eq!(played, captured);
}

fn floats(bytes: &[u8]) -> Vec<f32> {
    bytes.chunks_exact(4).map(|b| f32::from_ne_bytes([b[0], b[1], b[2], b[3]])).collect()
}

#[test]
fn converter_is_fed_whole_chunks_and_yields_whole_packets() {
    let mut state = AudioResampler::with_format(44100, SAMPLE_RATE, SampleFormat::F32);
    assert!(!state.is_passthrough());
    let mut converter =
        rubato::FftFixedOut::<f32>::new(44100, SAMPLE_RATE, OPUS_CHUNK_SIZE, 2, NUM_CHANNELS)
            .unwrap();
    let mut output = converter.output_buffer_allocate(true);

    let mut packets = 0;
    let mut fed = 0usize;
    let mut taken = 0usize;
    for round in 0..40 {
        let buffer: Vec<f32> =
            (0..2 * 441).map(|i| ((round * 882 + i) % 97) as f32 / 97.0).collect();
        let raw: Vec<u8> = buffer.iter().flat_map(|s| s.to_ne_bytes()).collect();
        assert!(state.extend(&raw));
        fed += raw.len();
        loop {
            let frames = state.frames_needed(converter.input_frames_next());
            let (left, right) = match state.next_step(frames) {
                None => break,
                Some(ResampleStep::Convert(left, right)) => (floats(&left), floats(&right)),
                Some(ResampleStep::Passthrough(_)) => panic!("different rates need the converter"),
            };
            taken += frames * 8;
            assert_eq!(left.len(), frames);
            assert_eq!(right.len(), frames);
            let (_, out_len) =
                converter.process_into_buffer(&[left, right], &mut output, None).unwrap();
            let packet = packet_of(&output[0], &output[1], out_len).unwrap();
            assert_eq!(packet.len(), OPUS_CHUNK_SIZE * NUM_CHANNELS);
            packets += 1;
        }
        assert_eq!(state.pending_len(), fed - taken);
    }
    assert_eq!(packets, 20);
    assert_eq!(state.pending_len(), 0);
}

#[test]
fn same_input_gives_the_same_steps_to_a_fresh_state() {
    let raw: Vec<u8> = (0..10_000u32).map(|i| (i % 251) as u8 + 1).collect();
    let run = |pieces: usize| {
        let mut state = AudioResampler::with_format(44100, SAMPLE_RATE, SampleFormat::I16);
        let mut steps = Vec::new();
        for piece in raw.chunks(pieces) {
            state.extend(piece);
            while let Some(step) = state.next_step(882) {
                match step {
                    ResampleStep::Convert(left, right) => steps.push((left, right)),
                    ResampleStep::Passthrough(_) => panic!("different rates need the converter"),
                }
            }
        }
        (steps, state.pending_len())
    };
    let whole = run(10_000);
    assert_eq!(whole.0.len(), 2);
    assert_eq!(whole.1, 10_000 - 2 * 882 * 4);
    assert!(whole.0.iter().all(|(l, r)| l.len() == 882 * 2 && r.len() == 882 * 2));
    assert_eq!(run(1), whole);
    assert_eq!(run(4096), whole);
}
