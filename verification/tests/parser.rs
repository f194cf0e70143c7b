use remote_m8::parser::{Font, Operation, Parser, WaveOperation};

const END: u8 = 0xc0;

fn display(frames: &[&[u8]]) -> Vec<u8> {
    let mut msg = vec![b'S'];
    for frame in frames {
        msg.extend_from_slice(frame);
        msg.push(END);
    }
    msg
}

#[test]
fn full_screen_rectangle_clears_the_background() {
    let mut parser = Parser::new();
    let msg = display(&[&[0xfe, 0, 0, 0, 0, 0x40, 0x01, 0xf0, 0x00, 0, 0, 0]]);
    let (operations, wave, audio) = parser.parse(&msg);
    assert_eq!(operations, vec![Operation::ClearBackground]);
    assert_eq!(wave, None);
    assert!(audio.is_empty());
}

#[test]
fn larger_than_screen_rectangle_clears_too() {
    let mut parser = Parser::new();
    let msg = display(&[&[0xfe, 0, 0, 0, 0, 0xff, 0xff, 0xff, 0xff, 1, 2, 3]]);
    let (operations, _, _) = parser.parse(&msg);
    assert_eq!(operations, vec![Operation::ClearBackground]);
    assert_eq!(parser.color(), (1, 2, 3));
}

#[test]
fn rectangle_one_pixel_short_of_the_screen_is_drawn() {
    let mut parser = Parser::new();
    let msg = display(&[&[0xfe, 0, 0, 0, 0, 0x3f, 0x01, 0xf0, 0x00, 0, 0, 0]]);
    let (operations, _, _) = parser.parse(&msg);
    assert_eq!(operations, vec![Operation::DrawRectangle(0, 0, 319, 240, 0, 0, 0)]);
}

#[test]
fn screen_sized_rectangle_off_the_origin_is_drawn() {
    let mut parser = Parser::new();
    let msg = display(&[&[0xfe, 1, 0, 0, 0, 0x40, 0x01, 0xf0, 0x00, 0, 0, 0]]);
    let (operations, _, _) = parser.parse(&msg);
    assert_eq!(operations, vec![Operation::DrawRectangle(1, 0, 320, 240, 0, 0, 0)]);
}

#[test]
fn rectangle_with_eleven_bytes_gives_back_every_field() {
    let mut parser = Parser::new();
    let msg = display(&[&[0xfe, 0x34, 0x12, 0x78, 0x56, 0x0a, 0x00, 0x02, 0x01, 10, 20, 30]]);
    let (operations, wave, audio) = parser.parse(&msg);
    assert_eq!(
        operations,
        vec![Operation::DrawRectangle(0x1234, 0x5678, 10, 258, 10, 20, 30)]
    );
    assert_eq!(wave, None);
    assert!(audio.is_empty());
    assert_eq!(parser.color(), (10, 20, 30));
}

#[test]
fn rectangle_with_five_bytes_is_one_pixel_in_the_last_colour() {
    let mut parser = Parser::new();
    let first = display(&[&[0xfe, 1, 0, 2, 0, 3, 0, 4, 0, 11, 22, 33]]);
    parser.parse(&first);
    let second = display(&[&[0xfe, 7, 0, 9, 0, 0xaa]]);
    let (operations, _, _) = parser.parse(&second);
    assert_eq!(operations, vec![Operation::DrawRectangle(7, 9, 1, 1, 11, 22, 33)]);
    assert_eq!(parser.color(), (11, 22, 33));
}

#[test]
fn rectangle_with_eight_bytes_has_a_size_and_the_last_colour() {
    let mut parser = Parser::new();
    parser.parse(&display(&[&[0xfe, 0, 0, 0, 0, 5, 5, 5, 5, 0xde, 0xad, 0xbe]]));
    let (operations, _, _) = parser.parse(&display(&[&[0xfe, 4, 0, 5, 0, 6, 0, 7, 0]]));
    assert_eq!(operations, vec![Operation::DrawRectangle(4, 5, 6, 7, 0xde, 0xad, 0xbe)]);
}

#[test]
fn rectangle_with_seven_bytes_has_a_colour_and_no_size() {
    let mut parser = Parser::new();
    let (operations, _, _) = parser.parse(&display(&[&[0xfe, 4, 0, 5, 0, 1, 2, 3]]));
    assert_eq!(operations, vec![Operation::DrawRectangle(4, 5, 1, 1, 1, 2, 3)]);
    assert_eq!(parser.color(), (1, 2, 3));
}

#[test]
fn rectangle_of_another_length_is_one_pixel_in_the_last_colour() {
    let mut parser = Parser::new();
    let (operations, _, _) = parser.parse(&display(&[&[0xfe, 4, 0, 5, 0, 1, 2, 3, 4, 5]]));
    assert_eq!(operations, vec![Operation::DrawRectangle(4, 5, 1, 1, 0, 0, 0)]);
}

#[test]
fn rectangle_without_a_position_is_passed_over() {
    let mut parser = Parser::new();
    let (operations, wave, _) = parser.parse(&display(&[&[0xfe, 4, 0, 5]]));
    assert!(operations.is_empty());
    assert_eq!(wave, None);
    assert_eq!(parser.color(), (0, 0, 0));
}

#[test]
fn clearing_keeps_its_place_among_the_operations() {
    let mut parser = Parser::new();
    let msg = display(&[
        &[0xfe, 5, 0, 6, 0, 1, 2, 3],
        &[0xfe, 0, 0, 0, 0, 0x40, 0x01, 0xf0, 0x00, 9, 9, 9],
        &[0xfe, 2, 0, 2, 0, 0],
    ]);
    let (operations, _, _) = parser.parse(&msg);
    assert_eq!(
        operations,
        vec![
            Operation::DrawRectangle(5, 6, 1, 1, 1, 2, 3),
            Operation::ClearBackground,
            Operation::DrawRectangle(2, 2, 1, 1, 9, 9, 9),
        ]
    );
}

#[test]
fn every_rectangle_command_yields_one_operation_in_wire_order() {
    let mut parser = Parser::new();
    let msg = display(&[
        &[0xfe, 1, 0, 1, 0, 0],
        &[0xfe, 0, 0, 0, 0, 0x40, 0x01, 0xf0, 0x00],
        &[0xfe, 2, 0, 2, 0, 7, 8, 9],
        &[0xfe, 0, 0, 0, 0, 0x41, 0x01, 0xf1, 0x00, 1, 1, 1],
        &[0xfe, 3, 0, 3, 0, 4, 0, 5, 0],
    ]);
    let (operations, _, _) = parser.parse(&msg);
    assert_eq!(
        operations,
        vec![
            Operation::DrawRectangle(1, 1, 1, 1, 0, 0, 0),
            Operation::ClearBackground,
            Operation::DrawRectangle(2, 2, 1, 1, 7, 8, 9),
            Operation::ClearBackground,
            Operation::DrawRectangle(3, 3, 4, 5, 1, 1, 1),
        ]
    );
}

#[test]
fn character_on_a_background_fills_its_cell_first() {
    let mut parser = Parser::new();
    let msg = display(&[&[0xfd, b'A', 8, 0, 0x10, 0x01, 200, 201, 202, 1, 2, 3]]);
    let (operations, _, _) = parser.parse(&msg);
    assert_eq!(
        operations,
        vec![
            Operation::DrawRectangle(8, 0x0111, 8, 11, 1, 2, 3),
            Operation::DrawText('A', Font::Font57, 8, 0x011b, 200, 201, 202),
        ]
    );
}

#[test]
fn character_in_its_own_colour_has_no_background() {
    let mut parser = Parser::new();
    let msg = display(&[&[0xfd, b'z', 0, 0, 0, 0, 5, 6, 7, 5, 6, 7]]);
    let (operations, _, _) = parser.parse(&msg);
    assert_eq!(operations, vec![Operation::DrawText('z', Font::Font57, 0, 11, 5, 6, 7)]);
}

#[test]
fn character_without_a_background_is_drawn_alone() {
    let mut parser = Parser::new();
    let msg = display(&[&[0xfd, b'q', 0xff, 0xff, 0xff, 0xff, 5, 6, 7]]);
    let (operations, _, _) = parser.parse(&msg);
    assert_eq!(
        operations,
        vec![Operation::DrawText('q', Font::Font57, 65535, 65546, 5, 6, 7)]
    );
}

#[test]
fn character_that_is_cut_short_is_passed_over() {
    let mut parser = Parser::new();
    let (operations, _, _) = parser.parse(&display(&[&[0xfd, b'q', 0, 0, 0, 0, 5, 6]]));
    assert!(operations.is_empty());
}

#[test]
fn system_notice_selects_the_font_for_later_messages() {
    let mut parser = Parser::new();
    assert_eq!(parser.font_id(), 0);
    let (operations, _, _) = parser.parse(&display(&[&[0xff, 2, 3, 4, 5, 1]]));
    assert!(operations.is_empty());
    assert_eq!(parser.font_id(), 1);
    let (operations, _, _) = parser.parse(&display(&[&[0xfd, b'B', 1, 0, 2, 0, 9, 9, 9, 9, 9, 9]]));
    assert_eq!(operations, vec![Operation::DrawText('B', Font::Font89, 1, 13, 9, 9, 9)]);
}

#[test]
fn character_under_an_unknown_font_is_passed_over() {
    let mut parser = Parser::new();
    parser.parse(&display(&[&[0xff, 0, 0, 0, 0, 7]]));
    assert_eq!(parser.font_id(), 7);
    let (operations, _, _) = parser.parse(&display(&[&[0xfd, b'B', 1, 0, 2, 0, 9, 9, 9, 1, 1, 1]]));
    assert!(operations.is_empty());
}

#[test]
fn system_notice_that_is_cut_short_keeps_the_font() {
    let mut parser = Parser::new();
    parser.parse(&display(&[&[0xff, 1, 1, 1, 1]]));
    assert_eq!(parser.font_id(), 0);
}

#[test]
fn font_ids_name_the_two_fonts() {
    assert_eq!(Font::from_id(0), Some(Font::Font57));
    assert_eq!(Font::from_id(1), Some(Font::Font89));
    assert_eq!(Font::from_id(2), None);
    assert_eq!(Font::from_id(255), None);
}

#[test]
fn waveform_heights_are_capped_below_the_strip_height() {
    let mut parser = Parser::new();
    let msg = display(&[&[0xfc, 10, 20, 30, 0, 25, 26, 255, 3]]);
    let (operations, wave, _) = parser.parse(&msg);
    assert!(operations.is_empty());
    assert_eq!(
        wave,
        Some(WaveOperation::DrawWave(vec![
            (0, 0, 10, 20, 30),
            (1, 25, 10, 20, 30),
            (2, 25, 10, 20, 30),
            (3, 25, 10, 20, 30),
            (4, 3, 10, 20, 30),
        ]))
    );
}

#[test]
fn waveform_without_heights_clears_the_strip() {
    let mut parser = Parser::new();
    let (_, wave, _) = parser.parse(&display(&[&[0xfc, 10, 20, 30]]));
    assert_eq!(wave, Some(WaveOperation::ClearWave));
}

#[test]
fn waveform_without_a_colour_is_passed_over() {
    let mut parser = Parser::new();
    let (_, wave, _) = parser.parse(&display(&[&[0xfc, 10, 20]]));
    assert_eq!(wave, None);
}

#[test]
fn last_waveform_of_a_message_wins() {
    let mut parser = Parser::new();
    let msg = display(&[&[0xfc, 1, 1, 1, 9], &[0xfc, 2, 2, 2]]);
    let (_, wave, _) = parser.parse(&msg);
    assert_eq!(wave, Some(WaveOperation::ClearWave));
}

#[test]
fn unknown_opcode_is_passed_over() {
    let mut parser = Parser::new();
    let msg = display(&[&[0x01, 2, 3, 4, 5, 6, 7, 8]]);
    let (operations, wave, audio) = parser.parse(&msg);
    assert!(operations.is_empty());
    assert_eq!(wave, None);
    assert!(audio.is_empty());
}

#[test]
fn empty_sub_frames_are_passed_over() {
    let mut parser = Parser::new();
    let msg = vec![b'S', END, END, 0xfe, 1, 0, 2, 0, 0, END, END, END];
    let (operations, _, _) = parser.parse(&msg);
    assert_eq!(operations, vec![Operation::DrawRectangle(1, 2, 1, 1, 0, 0, 0)]);
}

#[test]
fn display_message_without_payload_yields_nothing() {
    let mut parser = Parser::new();
    let (operations, wave, audio) = parser.parse(&[b'S']);
    assert!(operations.is_empty());
    assert_eq!(wave, None);
    assert!(audio.is_empty());
}

#[test]
fn sub_frame_without_its_end_byte_is_still_read() {
    let mut parser = Parser::new();
    let msg = vec![b'S', 0xfe, 1, 0, 2, 0, 0, END, 0xfe, 3, 0, 4, 0, 0];
    let (operations, _, _) = parser.parse(&msg);
    assert_eq!(
        operations,
        vec![
            Operation::DrawRectangle(1, 2, 1, 1, 0, 0, 0),
            Operation::DrawRectangle(3, 4, 1, 1, 0, 0, 0),
        ]
    );
}

#[test]
fn escaped_bytes_are_resolved_before_the_command_is_read() {
    let mut parser = Parser::new();
    let msg = display(&[&[0xfe, 1, 0, 2, 0, 0xdb, 0xdc, 0xdb, 0xdd, 0x05]]);
    let (operations, _, _) = parser.parse(&msg);
    assert_eq!(operations, vec![Operation::DrawRectangle(1, 2, 1, 1, 0xc0, 0xdb, 0x05)]);
    assert_eq!(parser.color(), (0xc0, 0xdb, 0x05));
}

#[test]
fn sub_frame_with_a_broken_escape_is_passed_over() {
    let mut parser = Parser::new();
    let msg = display(&[
        &[0xfe, 1, 0, 2, 0, 0xdb, 0x01, 0x02],
        &[0xfe, 9, 0, 9, 0, 0xdb],
        &[0xfe, 3, 0, 4, 0, 0],
    ]);
    let (operations, _, _) = parser.parse(&msg);
    assert_eq!(operations, vec![Operation::DrawRectangle(3, 4, 1, 1, 0, 0, 0)]);
}

#[test]
fn audio_message_is_handed_back_untouched() {
    let mut parser = Parser::new();
    parser.parse(&display(&[&[0xfe, 1, 0, 2, 0, 7, 8, 9]]));
    let msg = vec![b'A', 0xfe, 0xc0, 1, 2, 3];
    let (operations, wave, audio) = parser.parse(&msg);
    assert!(operations.is_empty());
    assert_eq!(wave, None);
    assert_eq!(audio, vec![&[0xfe, 0xc0, 1, 2, 3][..]]);
    assert_eq!(parser.color(), (7, 8, 9));
}

#[test]
fn apply_frame_reads_one_unescaped_command() {
    let mut parser = Parser::new();
    let mut operations = vec![Operation::ClearBackground];
    let mut wave = None;
    parser.apply_frame(&[0xfe, 1, 0, 2, 0, 3, 0, 4, 0, 0xc0, 0xdb, 0xdc], &mut operations, &mut wave);
    assert_eq!(
        operations,
        vec![
            Operation::ClearBackground,
            Operation::DrawRectangle(1, 2, 3, 4, 0xc0, 0xdb, 0xdc),
        ]
    );
    parser.apply_frame(&[], &mut operations, &mut wave);
    parser.apply_frame(&[0xfc, 1, 2, 3, 4], &mut operations, &mut wave);
    assert_eq!(operations.len(), 2);
    assert_eq!(wave, Some(WaveOperation::DrawWave(vec![(0, 4, 1, 2, 3)])));
}

struct Lcg(u32);

impl Lcg {
    fn next(&mut self) -> u8 {
        self.0 = self.0.wrapping_mul(1664525).wrapping_add(1013904223);
        (self.0 >> 24) as u8
    }
}

fn escaped(plain: &[u8]) -> Vec<u8> {
    let mut out = Vec::new();
    for byte in plain {
        match *byte {
            0xc0 => out.extend_from_slice(&[0xdb, 0xdc]),
            0xdb => out.extend_from_slice(&[0xdb, 0xdd]),
            other => out.push(other),
        }
    }
    out
}

#[test]
fn escaped_characters_decode_to_what_was_escaped() {
    let mut random = Lcg(7);
    let mut parser = Parser::new();
    let special = [0xc0u8, 0xdb, 0xdc, 0xdd];
    for round in 0..2000 {
        let mut fields = [0u8; 11];
        for field in fields.iter_mut() {
            let byte = random.next();
            *field = if byte % 3 == 0 { special[(byte % 4) as usize] } else { byte };
        }
        if fields[5..8] == fields[8..11] {
            fields[8] = fields[8].wrapping_add(1);
        }
        let mut frame = vec![0xfd];
        frame.extend_from_slice(&escaped(&fields));
        let msg = display(&[&frame]);
        let (operations, wave, audio) = parser.parse(&msg);
        let x = fields[1] as u32 + fields[2] as u32 * 256;
        let y = fields[3] as u32 + fields[4] as u32 * 256;
        assert_eq!(
            operations,
            vec![
                Operation::DrawRectangle(x, y + 1, 8, 11, fields[8], fields[9], fields[10]),
                Operation::DrawText(
                    fields[0] as char,
                    Font::Font57,
                    x,
                    y + 11,
                    fields[5],
                    fields[6],
                    fields[7]
                ),
            ],
            "round {}",
            round
        );
        assert_eq!(wave, None);
        assert!(audio.is_empty());
    }
}

#[test]
fn broken_escape_anywhere_drops_the_sub_frame() {
    let mut random = Lcg(99);
    let mut parser = Parser::new();
    for round in 0..500 {
        let mut frame = vec![0xfe, 1, 0, 2, 0, 3, 0, 4, 0, 5, 6, 7];
        let at = 1 + (random.next() as usize) % frame.len();
        let mut follower = random.next();
        if follower == 0xdc || follower == 0xdd || follower == 0xc0 {
            follower = 0x00;
        }
        if at == frame.len() {
            frame.push(0xdb);
        } else {
            frame.insert(at, follower);
            frame.insert(at, 0xdb);
        }
        let good = [0xfe, 9, 0, 9, 0, 0];
        let msg = display(&[&frame, &good]);
        let (operations, _, _) = parser.parse(&msg);
        assert_eq!(
            operations,
            vec![Operation::DrawRectangle(9, 9, 1, 1, 0, 0, 0)],
            "round {} frame {:?}",
            round,
            frame
        );
        assert_eq!(parser.color(), (0, 0, 0));
    }
}

#[test]
fn messages_add_to_what_was_collected_before() {
    let mut parser = Parser::new();
    let mut operations = Vec::new();
    let mut wave = None;
    let first = display(&[&[0xfe, 1, 0, 1, 0, 0], &[0xfc, 1, 2, 3, 4]]);
    assert!(parser.parse_into(&first, &mut operations, &mut wave).is_empty());
    let second = display(&[&[0xfe, 2, 0, 2, 0, 0]]);
    assert!(parser.parse_into(&second, &mut operations, &mut wave).is_empty());
    assert_eq!(
        operations,
        vec![
            Operation::DrawRectangle(1, 1, 1, 1, 0, 0, 0),
            Operation::DrawRectangle(2, 2, 1, 1, 0, 0, 0),
        ]
    );
    assert_eq!(wave, Some(WaveOperation::DrawWave(vec![(0, 4, 1, 2, 3)])));

    let audio = [b'A', 5, 6];
    assert_eq!(parser.parse_into(&audio, &mut operations, &mut wave), vec![&[5u8, 6][..]]);
    assert_eq!(operations.len(), 2);
    assert_eq!(wave, Some(WaveOperation::DrawWave(vec![(0, 4, 1, 2, 3)])));

    let third = display(&[&[0xfe, 0, 0, 0, 0, 0x40, 0x01, 0xf0, 0x00], &[0xfe, 3, 0, 3, 0, 0]]);
    assert!(parser.parse_into(&third, &mut operations, &mut wave).is_empty());
    assert_eq!(
        operations,
        vec![
            Operation::DrawRectangle(1, 1, 1, 1, 0, 0, 0),
            Operation::DrawRectangle(2, 2, 1, 1, 0, 0, 0),
            Operation::ClearBackground,
            Operation::DrawRectangle(3, 3, 1, 1, 0, 0, 0),
        ]
    );
    assert_eq!(wave, Some(WaveOperation::DrawWave(vec![(0, 4, 1, 2, 3)])));
}
