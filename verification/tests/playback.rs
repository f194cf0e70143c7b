use remote_m8::input::{InputProcessor, Key, KEYBOARD_COMMAND};
use remote_m8::jitter::{write_audio, write_held, JitterRingBuffer, SILENCE};

#[test]
fn silence_is_the_sample_zero() {
    assert_eq!(SILENCE, 0.0f32.to_bits());
}

#[test]
fn buffer_needs_a_capacity() {
    assert!(JitterRingBuffer::new(0).is_none());
    assert!(JitterRingBuffer::new(usize::MAX).is_none());
    assert!(JitterRingBuffer::for_rate(0).is_none());
    assert!(JitterRingBuffer::for_rate(usize::MAX / 2).is_none());
    assert!(JitterRingBuffer::new(1).is_some());
}

#[test]
fn buffer_for_a_rate_holds_four_times_the_rate() {
    let mut buffer = JitterRingBuffer::for_rate(10).unwrap();
    let samples: Vec<u32> = (1..=50).collect();
    assert_eq!(buffer.enqueue(&samples), 40);
    assert_eq!(buffer.enqueue(&samples), 0);
}

#[test]
fn samples_are_played_in_the_order_they_arrived() {
    let mut buffer = JitterRingBuffer::new(16).unwrap();
    let samples: Vec<u32> = [0.5f32, -0.25, 1.0, 0.0, -1.0].iter().map(|s| s.to_bits()).collect();
    assert_eq!(buffer.enqueue(&samples[..2]), 2);
    assert_eq!(buffer.enqueue(&samples[2..]), 3);
    let mut data = [7u32; 5];
    assert_eq!(write_audio(&mut buffer, &mut data), 5);
    let played: Vec<f32> = data.iter().map(|b| f32::from_bits(*b)).collect();
    assert_eq!(played, vec![0.5, -0.25, 1.0, 0.0, -1.0]);
}

#[test]
fn underrun_repeats_the_last_sample_played() {
    let mut buffer = JitterRingBuffer::new(16).unwrap();
    buffer.enqueue(&[10, 20, 30]);
    let mut data = [0u32; 6];
    assert_eq!(write_audio(&mut buffer, &mut data), 3);
    assert_eq!(data, [10, 20, 30, 30, 30, 30]);
    let mut data = [1u32; 4];
    assert_eq!(write_audio(&mut buffer, &mut data), 0);
    assert_eq!(data, [30, 30, 30, 30]);
    buffer.enqueue(&[40]);
    let mut data = [1u32; 2];
    assert_eq!(write_audio(&mut buffer, &mut data), 1);
    assert_eq!(data, [40, 40]);
}

#[test]
fn buffer_that_never_played_gives_silence() {
    let mut buffer = JitterRingBuffer::new(16).unwrap();
    let mut data = [99u32; 8];
    assert_eq!(write_audio(&mut buffer, &mut data), 0);
    assert_eq!(data, [SILENCE; 8]);
}

#[test]
fn device_that_asks_for_less_leaves_the_rest_waiting() {
    let mut buffer = JitterRingBuffer::new(4).unwrap();
    assert_eq!(buffer.enqueue(&[1, 2, 3, 4, 5, 6]), 4);
    let mut data = [0u32; 3];
    assert_eq!(write_audio(&mut buffer, &mut data), 3);
    assert_eq!(data, [1, 2, 3]);
    assert_eq!(buffer.enqueue(&[7, 8, 9, 10]), 3);
    let mut data = [0u32; 5];
    assert_eq!(write_audio(&mut buffer, &mut data), 4);
    assert_eq!(data, [4, 7, 8, 9, 9]);
    let mut none: [u32; 0] = [];
    assert_eq!(write_audio(&mut buffer, &mut none), 0);
}

#[test]
fn keys_have_their_bits() {
    assert_eq!(Key::Up.bit(), 6);
    assert_eq!(Key::Down.bit(), 5);
    assert_eq!(Key::Left.bit(), 7);
    assert_eq!(Key::Right.bit(), 2);
    assert_eq!(Key::Shift.bit(), 4);
    assert_eq!(Key::Play.bit(), 3);
    assert_eq!(Key::Z.bit(), 1);
    assert_eq!(Key::X.bit(), 0);
    assert_eq!(KEYBOARD_COMMAND, 0x43);
}

#[test]
fn key_state_is_sent_when_it_changes() {
    let mut input = InputProcessor::new();
    assert_eq!(input.key_state(), 0);
    assert_eq!(input.process_key(Key::Up, true), Some(vec![0x43, 0x40]));
    assert_eq!(input.process_key(Key::Up, true), None);
    assert_eq!(input.process_key(Key::X, true), Some(vec![0x43, 0x41]));
    assert_eq!(input.process_key(Key::Left, true), Some(vec![0x43, 0xc1]));
    assert_eq!(input.process_key(Key::Up, false), Some(vec![0x43, 0x81]));
    assert_eq!(input.process_key(Key::Up, false), None);
    assert_eq!(input.process_key(Key::Down, false), None);
    assert_eq!(input.key_state(), 0x81);
}

#[test]
fn all_keys_down_set_every_bit() {
    let mut input = InputProcessor::new();
    let keys = [
        Key::X,
        Key::Z,
        Key::Right,
        Key::Play,
        Key::Shift,
        Key::Down,
        Key::Up,
        Key::Left,
    ];
    let mut expected = 0u8;
    for (bit, key) in keys.iter().enumerate() {
        expected |= 1 << bit;
        assert_eq!(input.process_key(*key, true), Some(vec![0x43, expected]));
    }
    assert_eq!(input.key_state(), 0xff);
    for key in keys {
        assert!(input.process_key(key, false).is_some());
    }
    assert_eq!(input.key_state(), 0);
}

#[test]
fn buffer_behaves_like_a_plain_bounded_queue() {
    let capacity = 13;
    let mut buffer = JitterRingBuffer::new(capacity).unwrap();
    let mut model: std::collections::VecDeque<u32> = std::collections::VecDeque::new();
    let mut last = SILENCE;
    let mut seed: u32 = 2024;
    let mut next = move || {
        seed = seed.wrapping_mul(1103515245).wrapping_add(12345);
        seed >> 16
    };
    for _ in 0..5000 {
        if next() % 2 == 0 {
            let samples: Vec<u32> = (0..next() % 20).map(|_| next() + 1).collect();
            let room = capacity - model.len();
            let taken = samples.len().min(room);
            assert_eq!(buffer.enqueue(&samples), taken);
            model.extend(&samples[..taken]);
        } else {
            let wanted = (next() % 20) as usize;
            let mut data = vec![0xdead_beef; wanted];
            let fresh = wanted.min(model.len());
            let mut expected: Vec<u32> = model.drain(..fresh).collect();
            if let Some(sample) = expected.last() {
                last = *sample;
            }
            expected.resize(wanted, last);
            assert_eq!(write_audio(&mut buffer, &mut data), fresh);
            assert_eq!(data, expected);
        }
    }
}

#[test]
fn device_gets_the_last_sample_while_the_buffer_is_out_of_reach() {
    let mut buffer = JitterRingBuffer::new(8).unwrap();
    assert_eq!(buffer.last_played(), SILENCE);
    buffer.enqueue(&[5, 6, 7]);
    let mut data = [0u32; 2];
    write_audio(&mut buffer, &mut data);
    assert_eq!(buffer.last_played(), 6);
    let mut held = [9u32; 4];
    write_held(buffer.last_played(), &mut held);
    assert_eq!(held, [6, 6, 6, 6]);
    let mut none: [u32; 0] = [];
    write_held(1, &mut none);
    let mut data = [0u32; 3];
    assert_eq!(write_audio(&mut buffer, &mut data), 1);
    assert_eq!(data, [7, 7, 7]);
    assert_eq!(buffer.last_played(), 7);
}
