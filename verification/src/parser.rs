//! Decoder for tagged messages on the client side.
//!
//! A message tagged as display data holds sub-frames separated by the END
//! byte. Each sub-frame is unescaped and then read as one display command:
//! a rectangle, a character, a waveform or a system notice. The device only
//! sends what changed, so the last colour and the active font stay in the
//! decoder between messages.

use vstd::prelude::*;
use vstd::slice::slice_subrange;
use crate::wire::{SLIP_END, SLIP_ESC, SLIP_ESC_END, SLIP_ESC_ESC, TAG_AUDIO, TAG_SERIAL};

verus! {

/// Opcode of a rectangle command.
pub const RECT_FRAME: u8 = 0xfe;

/// Opcode of a character command.
pub const TEXT_FRAME: u8 = 0xfd;

/// Opcode of a waveform command.
pub const WAVE_FRAME: u8 = 0xfc;

/// Opcode of a system notice.
pub const SYSTEM_FRAME: u8 = 0xff;

/// Width of the device's screen in pixels.
pub const M8_SCREEN_WIDTH: u32 = 320;

/// Height of the device's screen in pixels.
pub const M8_SCREEN_HEIGHT: u32 = 240;

/// Height of the waveform strip in pixels.
pub const WAVE_HEIGHT: u32 = 26;

/// Width of the cell that is cleared behind a character.
pub const GLYPH_WIDTH: u32 = 8;

/// Height of the cell that is cleared behind a character, and the distance
/// from a character's top to its baseline.
pub const GLYPH_HEIGHT: u32 = 11;

/// The two fonts of the device.
#[derive(Clone, Copy, Debug, PartialEq, Eq, Structural)]
pub enum Font {
    Font57,
    Font89,
}

/// One drawing operation for the renderer. Coordinates and sizes are in
/// pixels; the last three bytes are red, green and blue.
#[derive(Clone, Copy, Debug, PartialEq, Eq, Structural)]
pub enum Operation {
    ClearBackground,
    DrawRectangle(u32, u32, u32, u32, u8, u8, u8),
    DrawText(char, Font, u32, u32, u8, u8, u8),
}

/// An update of the waveform strip. A point is column, height, red, green
/// and blue.
#[derive(Debug, PartialEq, Eq)]
pub enum WaveOperation {
    DrawWave(Vec<(u32, u32, u8, u8, u8)>),
    ClearWave,
}

/// What a `WaveOperation` holds, as a mathematical value.
pub enum WaveModel {
    DrawWave(Seq<(u32, u32, u8, u8, u8)>),
    ClearWave,
}

impl View for WaveOperation {
    type V = WaveModel;

    open spec fn view(&self) -> WaveModel {
        match self {
            WaveOperation::DrawWave(points) => WaveModel::DrawWave(points@),
            WaveOperation::ClearWave => WaveModel::ClearWave,
        }
    }
}

/// The view of an optional waveform update.
pub open spec fn wave_model(wave: Option<WaveOperation>) -> Option<WaveModel> {
    match wave {
        Some(w) => Some(w@),
        None => None,
    }
}

/// What the decoder remembers between commands.
pub struct ParserState {
    pub r: u8,
    pub g: u8,
    pub b: u8,
    pub font_id: u8,
}

/// The decoder's memory together with what it has produced so far.
pub struct Progress {
    pub state: ParserState,
    pub ops: Seq<Operation>,
    pub wave: Option<WaveModel>,
}

/// The 16-bit value that two bytes spell, low byte first.
pub open spec fn word(lo: u8, hi: u8) -> u32 {
    (lo as int + hi as int * 256) as u32
}

/// The font that a font id selects, if it selects one.
pub open spec fn font_of(id: u8) -> Option<Font> {
    if id == 0 {
        Some(Font::Font57)
    } else if id == 1 {
        Some(Font::Font89)
    } else {
        None
    }
}

/// Whether a rectangle covers the whole screen from its origin.
pub open spec fn covers_screen(x: u32, y: u32, w: u32, h: u32) -> bool {
    x == 0 && y == 0 && w >= M8_SCREEN_WIDTH && h >= M8_SCREEN_HEIGHT
}

/// The effect of a rectangle command with the fields `f`.
///
/// With 11 bytes the size and the colour are given; with 8 the size only;
/// with 7 the colour only; otherwise neither. A missing size is one pixel
/// by one pixel, a missing colour is the last one. Every command adds one
/// operation behind those before it: `ClearBackground` for a rectangle
/// that covers the screen, `DrawRectangle` for any other. Fewer than 4
/// bytes hold no position and change nothing.
pub open spec fn rect_effect(p: Progress, f: Seq<u8>) -> Progress {
    if f.len() < 4 {
        p
    } else {
        let x = word(f[0], f[1]);
        let y = word(f[2], f[3]);
        let sized = f.len() == 11 || f.len() == 8;
        let w = if sized { word(f[4], f[5]) } else { 1 };
        let h = if sized { word(f[6], f[7]) } else { 1 };
        let r = if f.len() == 11 { f[8] } else if f.len() == 7 { f[4] } else { p.state.r };
        let g = if f.len() == 11 { f[9] } else if f.len() == 7 { f[5] } else { p.state.g };
        let b = if f.len() == 11 { f[10] } else if f.len() == 7 { f[6] } else { p.state.b };
        Progress {
            state: ParserState { r, g, b, font_id: p.state.font_id },
            ops: p.ops.push(
                if covers_screen(x, y, w, h) {
                    Operation::ClearBackground
                } else {
                    Operation::DrawRectangle(x, y, w, h, r, g, b)
                },
            ),
            wave: p.wave,
        }
    }
}

/// The effect of a character command with the fields `f`.
///
/// The fields are the character, its position and its colour, in 8 bytes,
/// and from 11 bytes on a background colour too. Where a background is
/// given and differs from the colour, the glyph's cell is filled with it
/// first. A command with fewer than 8 bytes, or while the active font id
/// names no font, changes nothing.
pub open spec fn text_effect(p: Progress, f: Seq<u8>) -> Progress {
    if f.len() < 8 {
        p
    } else {
        match font_of(p.state.font_id) {
            None => p,
            Some(font) => {
                let x = word(f[1], f[2]);
                let y = word(f[3], f[4]);
                let filled = f.len() >= 11 && (f[5], f[6], f[7]) != (f[8], f[9], f[10]);
                let below = if filled {
                    p.ops.push(
                        Operation::DrawRectangle(
                            x,
                            (y + 1) as u32,
                            GLYPH_WIDTH,
                            GLYPH_HEIGHT,
                            f[8],
                            f[9],
                            f[10],
                        ),
                    )
                } else {
                    p.ops
                };
                Progress {
                    state: p.state,
                    ops: below.push(
                        Operation::DrawText(
                            f[0] as char,
                            font,
                            x,
                            (y + GLYPH_HEIGHT) as u32,
                            f[5],
                            f[6],
                            f[7],
                        ),
                    ),
                    wave: p.wave,
                }
            },
        }
    }
}

/// The point of the waveform in column `column` for the height byte
/// `height`: the height is capped one below the strip's height.
pub open spec fn wave_point(column: int, height: u8, r: u8, g: u8, b: u8) -> (
    u32,
    u32,
    u8,
    u8,
    u8,
) {
    (
        column as u32,
        if height as int > WAVE_HEIGHT - 1 {
            (WAVE_HEIGHT - 1) as u32
        } else {
            height as u32
        },
        r,
        g,
        b,
    )
}

/// The points of a waveform with the colour `r`, `g`, `b` and one height
/// byte per column.
pub open spec fn wave_points(r: u8, g: u8, b: u8, heights: Seq<u8>) -> Seq<(u32, u32, u8, u8, u8)> {
    Seq::new(heights.len(), |i: int| wave_point(i, heights[i], r, g, b))
}

/// The effect of a waveform command with the fields `f`: a colour, then
/// one height byte per column. Without height bytes the waveform is
/// cleared. Fewer than 3 bytes hold no colour and change nothing.
pub open spec fn wave_effect(p: Progress, f: Seq<u8>) -> Progress {
    if f.len() < 3 {
        p
    } else {
        Progress {
            state: p.state,
            ops: p.ops,
            wave: if f.len() == 3 {
                Some(WaveModel::ClearWave)
            } else {
                Some(WaveModel::DrawWave(wave_points(f[0], f[1], f[2], f.skip(3))))
            },
        }
    }
}

/// The effect of a system notice with the fields `f`: its fifth byte is
/// the new font id. A shorter notice changes nothing.
pub open spec fn system_effect(p: Progress, f: Seq<u8>) -> Progress {
    if f.len() < 5 {
        p
    } else {
        Progress {
            state: ParserState { r: p.state.r, g: p.state.g, b: p.state.b, font_id: f[4] },
            ops: p.ops,
            wave: p.wave,
        }
    }
}

/// The effect of one unescaped sub-frame: its first byte is the opcode,
/// the rest are the command's fields. An empty sub-frame and an unknown
/// opcode change nothing.
pub open spec fn frame_effect(p: Progress, frame: Seq<u8>) -> Progress {
    if frame.len() == 0 {
        p
    } else if frame[0] == RECT_FRAME {
        rect_effect(p, frame.skip(1))
    } else if frame[0] == TEXT_FRAME {
        text_effect(p, frame.skip(1))
    } else if frame[0] == WAVE_FRAME {
        wave_effect(p, frame.skip(1))
    } else if frame[0] == SYSTEM_FRAME {
        system_effect(p, frame.skip(1))
    } else {
        p
    }
}

/// `body` with its escape pairs resolved: ESC ESC_END stands for END and
/// ESC ESC_ESC for ESC. An ESC followed by anything else, or by nothing,
/// makes the whole body invalid.
pub open spec fn unescaped(body: Seq<u8>) -> Option<Seq<u8>>
    decreases body.len(),
{
    if body.len() == 0 {
        Some(Seq::empty())
    } else if body[0] != SLIP_ESC {
        match unescaped(body.skip(1)) {
            Some(tail) => Some(seq![body[0]] + tail),
            None => None,
        }
    } else if body.len() >= 2 && (body[1] == SLIP_ESC_END || body[1] == SLIP_ESC_ESC) {
        match unescaped(body.skip(2)) {
            Some(tail) => Some(
                seq![if body[1] == SLIP_ESC_END { SLIP_END } else { SLIP_ESC }] + tail,
            ),
            None => None,
        }
    } else {
        None
    }
}

/// The effect of one sub-frame as it stands between two END bytes: it is
/// unescaped and then read as a command. One that is not validly escaped
/// changes nothing.
pub open spec fn sub_frame_effect(p: Progress, body: Seq<u8>) -> Progress {
    match unescaped(body) {
        Some(frame) => frame_effect(p, frame),
        None => p,
    }
}

/// The effect of the sub-frame collected so far, where there is one.
pub open spec fn flushed(p: Progress, pending: Seq<u8>) -> Progress {
    if pending.len() == 0 {
        p
    } else {
        sub_frame_effect(p, pending)
    }
}

/// The effect of a payload of display data, read byte by byte: `pending`
/// holds the bytes since the last END. Each END closes the pending
/// sub-frame, and so does the end of the payload; empty sub-frames are
/// passed over.
pub open spec fn payload_effect(p: Progress, pending: Seq<u8>, rest: Seq<u8>) -> Progress
    decreases rest.len(),
{
    if rest.len() == 0 {
        flushed(p, pending)
    } else if rest[0] == SLIP_END {
        payload_effect(flushed(p, pending), Seq::empty(), rest.skip(1))
    } else {
        payload_effect(p, pending.push(rest[0]), rest.skip(1))
    }
}

/// A decoder at the start of a message: nothing produced yet.
pub open spec fn fresh(state: ParserState) -> Progress {
    Progress { state, ops: Seq::empty(), wave: None }
}

/// Whether `framed` is a sub-frame between two leading END bytes and one
/// trailing END byte, the sub-frame itself not empty and free of END.
pub open spec fn is_framed(framed: Seq<u8>) -> bool {
    &&& framed.len() >= 4
    &&& framed[0] == SLIP_END
    &&& framed[1] == SLIP_END
    &&& framed[framed.len() - 1] == SLIP_END
    &&& forall|i: int| 2 <= i < framed.len() - 1 ==> framed[i] != SLIP_END
}

/// The sub-frame inside `framed`.
pub open spec fn framed_body(framed: Seq<u8>) -> Seq<u8> {
    framed.subrange(2, framed.len() - 1)
}

/// Calls `simple_slip::decode` on a sub-frame wrapped in END bytes.
///
/// That function looks for the first END byte and, where another follows
/// it directly, starts there; from then on it passes over END bytes,
/// copies every other byte, and replaces ESC with the byte behind it by
/// END for ESC_END and by ESC for ESC_ESC. An ESC with any other byte
/// behind it ends the call with an error. On an input of the shape asked
/// for here that is the unescaped sub-frame, or an error where the
/// sub-frame is not validly escaped. Other shapes are left out: on some of
/// them the function reads past the end of its input.
#[verifier::external_body]
fn slip_decode(framed: &[u8]) -> (decoded: Option<Vec<u8>>)
    requires
        is_framed(framed@),
    ensures
        match decoded {
            Some(frame) => unescaped(framed_body(framed@)) == Some(frame@),
            None => unescaped(framed_body(framed@)) is None,
        },
{
    simple_slip::decode(framed).ok()
}

/// The display decoder: the last colour and the active font id.
pub struct Parser {
    last_r: u8,
    last_g: u8,
    last_b: u8,
    font_id: u8,
}

impl View for Parser {
    type V = ParserState;

    closed spec fn view(&self) -> ParserState {
        ParserState { r: self.last_r, g: self.last_g, b: self.last_b, font_id: self.font_id }
    }
}

/// The decoder's memory with what a caller has collected beside it.
pub open spec fn progress(
    parser: Parser,
    operations: Vec<Operation>,
    wave: Option<WaveOperation>,
) -> Progress {
    Progress { state: parser@, ops: operations@, wave: wave_model(wave) }
}

/// Reads two bytes as a 16-bit value, low byte first.
fn read_word(lo: u8, hi: u8) -> (value: u32)
    ensures
        value == word(lo, hi),
        value <= 0xffff,
{
    lo as u32 + (hi as u32) * 256
}

impl Font {
    /// The font that a font id selects: 0 is `Font57`, 1 is `Font89`.
    pub fn from_id(id: u8) -> (font: Option<Font>)
        ensures
            font == font_of(id),
    {
        if id == 0 {
            Some(Font::Font57)
        } else if id == 1 {
            Some(Font::Font89)
        } else {
            None
        }
    }
}

impl Parser {
    /// A decoder with black as its last colour and font 0 active.
    pub fn new() -> (parser: Self)
        ensures
            parser@ == (ParserState { r: 0, g: 0, b: 0, font_id: 0 }),
    {
        Self { last_r: 0, last_g: 0, last_b: 0, font_id: 0 }
    }

    /// The colour that the next rectangle without one will have.
    pub fn color(&self) -> (rgb: (u8, u8, u8))
        ensures
            rgb == (self@.r, self@.g, self@.b),
    {
        (self.last_r, self.last_g, self.last_b)
    }

    /// The font id that the last system notice set.
    pub fn font_id(&self) -> (id: u8)
        ensures
            id == self@.font_id,
    {
        self.font_id
    }

    fn rect(&mut self, f: &[u8], operations: &mut Vec<Operation>)
        ensures
            final(self)@ == rect_effect(
                Progress { state: old(self)@, ops: old(operations)@, wave: None },
                f@,
            ).state,
            final(operations)@ == rect_effect(
                Progress { state: old(self)@, ops: old(operations)@, wave: None },
                f@,
            ).ops,
    {
        let n = f.len();
        if n < 4 {
            return ;
        }
        let x = read_word(f[0], f[1]);
        let y = read_word(f[2], f[3]);
        let mut w: u32 = 1;
        let mut h: u32 = 1;
        if n == 11 || n == 8 {
            w = read_word(f[4], f[5]);
            h = read_word(f[6], f[7]);
        }
        if n == 11 {
            self.last_r = f[8];
            self.last_g = f[9];
            self.last_b = f[10];
        } else if n == 7 {
            self.last_r = f[4];
            self.last_g = f[5];
            self.last_b = f[6];
        }
        if x == 0 && y == 0 && w >= M8_SCREEN_WIDTH && h >= M8_SCREEN_HEIGHT {
            operations.push(Operation::ClearBackground);
        } else {
            operations.push(
                Operation::DrawRectangle(x, y, w, h, self.last_r, self.last_g, self.last_b),
            );
        }
    }

    fn text(&self, f: &[u8], operations: &mut Vec<Operation>)
        ensures
            final(operations)@ == text_effect(
                Progress { state: self@, ops: old(operations)@, wave: None },
                f@,
            ).ops,
    {
        if f.len() < 8 {
            return ;
        }
        let font = match Font::from_id(self.font_id) {
            Some(font) => font,
            None => {
                return ;
            },
        };
        let x = read_word(f[1], f[2]);
        let y = read_word(f[3], f[4]);
        if f.len() >= 11 && (f[5] != f[8] || f[6] != f[9] || f[7] != f[10]) {
            operations.push(
                Operation::DrawRectangle(x, y + 1, GLYPH_WIDTH, GLYPH_HEIGHT, f[8], f[9], f[10]),
            );
        }
        operations.push(
            Operation::DrawText(f[0] as char, font, x, y + GLYPH_HEIGHT, f[5], f[6], f[7]),
        );
    }

    fn wave(f: &[u8], wave: &mut Option<WaveOperation>)
        ensures
            wave_model(*final(wave)) == wave_effect(
                Progress {
                    state: ParserState { r: 0, g: 0, b: 0, font_id: 0 },
                    ops: Seq::empty(),
                    wave: wave_model(*old(wave)),
                },
                f@,
            ).wave,
    {
        let n = f.len();
        if n < 3 {
            return ;
        }
        if n == 3 {
            *wave = Some(WaveOperation::ClearWave);
            return ;
        }
        let r = f[0];
        let g = f[1];
        let b = f[2];
        let ghost heights = f@.skip(3);
        let mut points: Vec<(u32, u32, u8, u8, u8)> = Vec::new();
        let mut i: usize = 3;
        while i < n
            invariant
                3 <= i <= n,
                n == f@.len(),
                r == f@[0],
                g == f@[1],
                b == f@[2],
                heights == f@.skip(3),
                points@ == wave_points(r, g, b, heights.take(i - 3)),
            decreases n - i,
        {
            let height = f[i];
            let capped: u32 = if height as u32 > WAVE_HEIGHT - 1 {
                WAVE_HEIGHT - 1
            } else {
                height as u32
            };
            points.push(((i - 3) as u32, capped, r, g, b));
            i += 1;
        }
        assert(heights.take(n - 3) =~= heights);
        *wave = Some(WaveOperation::DrawWave(points));
    }

    /// Reads one unescaped sub-frame as a command and carries it out on the
    /// decoder's memory, on the list of operations and on the pending
    /// waveform update.
    pub fn apply_frame(
        &mut self,
        frame: &[u8],
        operations: &mut Vec<Operation>,
        wave: &mut Option<WaveOperation>,
    )
        ensures
            progress(*final(self), *final(operations), *final(wave)) == frame_effect(
                progress(*old(self), *old(operations), *old(wave)),
                frame@,
            ),
    {
        if frame.len() == 0 {
            return ;
        }
        let opcode = frame[0];
        let fields = slice_subrange(frame, 1, frame.len());
        if opcode == RECT_FRAME {
            self.rect(fields, operations);
        } else if opcode == TEXT_FRAME {
            self.text(fields, operations);
        } else if opcode == WAVE_FRAME {
            Self::wave(fields, wave);
        } else if opcode == SYSTEM_FRAME {
            if fields.len() >= 5 {
                self.font_id = fields[4];
            }
        }
    }

    /// Unescapes the sub-frame `body` and carries it out.
    fn apply_sub_frame(
        &mut self,
        body: &[u8],
        operations: &mut Vec<Operation>,
        wave: &mut Option<WaveOperation>,
    )
        requires
            body@.len() > 0,
            forall|i: int| 0 <= i < body@.len() ==> body@[i] != SLIP_END,
        ensures
            progress(*final(self), *final(operations), *final(wave)) == sub_frame_effect(
                progress(*old(self), *old(operations), *old(wave)),
                body@,
            ),
    {
        let mut framed: Vec<u8> = Vec::new();
        framed.push(SLIP_END);
        framed.push(SLIP_END);
        framed.extend_from_slice(body);
        framed.push(SLIP_END);
        assert(framed_body(framed@) =~= body@);
        match slip_decode(framed.as_slice()) {
            Some(frame) => {
                self.apply_frame(frame.as_slice(), operations, wave);
            },
            None => {},
        }
    }

    /// Decodes one tagged message onto what the caller has collected so
    /// far.
    ///
    /// An audio message is handed back untouched, as the one element of
    /// the result, and changes nothing. A display message is split at its
    /// END bytes; each sub-frame that is not empty is unescaped and carried
    /// out in turn on the decoder's memory, on `operations` and on `wave`.
    pub fn parse_into<'a>(
        &mut self,
        msg: &'a [u8],
        operations: &mut Vec<Operation>,
        wave: &mut Option<WaveOperation>,
    ) -> (audio: Vec<&'a [u8]>)
        requires
            msg@.len() >= 1,
            msg@[0] == TAG_SERIAL || msg@[0] == TAG_AUDIO,
        ensures
            msg@[0] == TAG_AUDIO ==> {
                &&& progress(*final(self), *final(operations), *final(wave)) == progress(
                    *old(self),
                    *old(operations),
                    *old(wave),
                )
                &&& audio@.len() == 1
                &&& audio@[0]@ == msg@.skip(1)
            },
            msg@[0] == TAG_SERIAL ==> {
                &&& progress(*final(self), *final(operations), *final(wave)) == payload_effect(
                    progress(*old(self), *old(operations), *old(wave)),
                    Seq::empty(),
                    msg@.skip(1),
                )
                &&& audio@.len() == 0
            },
    {
        let n = msg.len();
        let mut audio: Vec<&'a [u8]> = Vec::new();
        if msg[0] == TAG_AUDIO {
            audio.push(slice_subrange(msg, 1, n));
            return audio;
        }
        let ghost goal = payload_effect(
            progress(*old(self), *old(operations), *old(wave)),
            Seq::empty(),
            msg@.skip(1),
        );
        let mut start: usize = 1;
        let mut i: usize = 1;
        assert(msg@.subrange(1, 1) =~= Seq::<u8>::empty());
        while i < n
            invariant
                1 <= start <= i <= n,
                n == msg@.len(),
                audio@.len() == 0,
                forall|k: int| start <= k < i ==> msg@[k] != SLIP_END,
                goal == payload_effect(
                    progress(*self, *operations, *wave),
                    msg@.subrange(start as int, i as int),
                    msg@.skip(i as int),
                ),
            decreases n - i,
        {
            let ghost pending = msg@.subrange(start as int, i as int);
            assert(msg@.skip(i as int).skip(1) =~= msg@.skip(i + 1));
            if msg[i] == SLIP_END {
                if start < i {
                    self.apply_sub_frame(slice_subrange(msg, start, i), operations, wave);
                }
                start = i + 1;
                assert(msg@.subrange(start as int, i + 1) =~= Seq::<u8>::empty());
            } else {
                assert(msg@.subrange(start as int, i + 1) =~= pending.push(msg@[i as int]));
            }
            i += 1;
        }
        if start < n {
            self.apply_sub_frame(slice_subrange(msg, start, n), operations, wave);
        }
        audio
    }

    /// Decodes one tagged message.
    ///
    /// The result holds the operations to draw, the last waveform update
    /// if there was one, and the audio packets: what `parse_into` leaves
    /// when it starts with nothing collected.
    pub fn parse<'a>(&mut self, msg: &'a [u8]) -> (out: (
        Vec<Operation>,
        Option<WaveOperation>,
        Vec<&'a [u8]>,
    ))
        requires
            msg@.len() >= 1,
            msg@[0] == TAG_SERIAL || msg@[0] == TAG_AUDIO,
        ensures
            msg@[0] == TAG_AUDIO ==> {
                &&& final(self)@ == old(self)@
                &&& out.0@.len() == 0
                &&& out.1 is None
                &&& out.2@.len() == 1
                &&& out.2@[0]@ == msg@.skip(1)
            },
            msg@[0] == TAG_SERIAL ==> {
                &&& progress(*final(self), out.0, out.1) == payload_effect(
                    fresh(old(self)@),
                    Seq::empty(),
                    msg@.skip(1),
                )
                &&& out.2@.len() == 0
            },
    {
        let mut operations: Vec<Operation> = Vec::new();
        let mut wave: Option<WaveOperation> = None;
        let audio = self.parse_into(msg, &mut operations, &mut wave);
        (operations, wave, audio)
    }
}

/// The bytes of a rectangle command that spells out its position, its
/// size and its colour.
pub open spec fn rect_frame(x: u16, y: u16, w: u16, h: u16, r: u8, g: u8, b: u8) -> Seq<u8> {
    seq![
        RECT_FRAME,
        (x % 256) as u8,
        (x / 256) as u8,
        (y % 256) as u8,
        (y / 256) as u8,
        (w % 256) as u8,
        (w / 256) as u8,
        (h % 256) as u8,
        (h / 256) as u8,
        r,
        g,
        b,
    ]
}

/// The bytes of a rectangle command with five bytes of fields: a position
/// and one byte more, which is not read.
pub open spec fn short_rect_frame(x: u16, y: u16, extra: u8) -> Seq<u8> {
    seq![
        RECT_FRAME,
        (x % 256) as u8,
        (x / 256) as u8,
        (y % 256) as u8,
        (y / 256) as u8,
        extra,
    ]
}

/// Two bytes taken from a 16-bit value spell that value again.
pub proof fn lemma_word_of_halves(v: u16)
    ensures
        word((v % 256) as u8, (v / 256) as u8) == v,
{
}

/// A rectangle command with all eleven bytes of fields gives back exactly
/// the position, the size and the colour it was built from, and that
/// colour becomes the last colour. Where the rectangle covers the screen,
/// the operation is `ClearBackground` in place of `DrawRectangle`; either
/// way it is one operation behind those before it.
pub proof fn lemma_rect_explicit(p: Progress, x: u16, y: u16, w: u16, h: u16, r: u8, g: u8, b: u8)
    ensures
        frame_effect(p, rect_frame(x, y, w, h, r, g, b)) == (Progress {
            state: ParserState { r, g, b, font_id: p.state.font_id },
            ops: p.ops.push(
                if covers_screen(x as u32, y as u32, w as u32, h as u32) {
                    Operation::ClearBackground
                } else {
                    Operation::DrawRectangle(x as u32, y as u32, w as u32, h as u32, r, g, b)
                },
            ),
            wave: p.wave,
        }),
{
    lemma_word_of_halves(x);
    lemma_word_of_halves(y);
    lemma_word_of_halves(w);
    lemma_word_of_halves(h);
}

/// A rectangle command with five bytes of fields draws one pixel at its
/// position in the last colour, which stays the last colour.
pub proof fn lemma_rect_short(p: Progress, x: u16, y: u16, extra: u8)
    ensures
        frame_effect(p, short_rect_frame(x, y, extra)) == (Progress {
            state: p.state,
            ops: p.ops.push(
                Operation::DrawRectangle(x as u32, y as u32, 1, 1, p.state.r, p.state.g, p.state.b),
            ),
            wave: p.wave,
        }),
{
    lemma_word_of_halves(x);
    lemma_word_of_halves(y);
}

/// A rectangle command that gives a size, at the origin and at least as
/// wide and as high as the screen, adds `ClearBackground` and no
/// rectangle.
pub proof fn lemma_screen_rect_clears(p: Progress, f: Seq<u8>)
    requires
        f.len() == 11 || f.len() == 8,
        word(f[0], f[1]) == 0,
        word(f[2], f[3]) == 0,
        word(f[4], f[5]) >= M8_SCREEN_WIDTH,
        word(f[6], f[7]) >= M8_SCREEN_HEIGHT,
    ensures
        rect_effect(p, f).ops == p.ops.push(Operation::ClearBackground),
        frame_effect(p, seq![RECT_FRAME] + f).ops == p.ops.push(Operation::ClearBackground),
{
}

/// Every rectangle command that holds a position adds exactly one
/// operation and leaves those before it as they were.
pub proof fn lemma_rect_adds_one_operation(p: Progress, f: Seq<u8>)
    requires
        f.len() >= 4,
    ensures
        rect_effect(p, f).ops.len() == p.ops.len() + 1,
        rect_effect(p, f).ops.drop_last() == p.ops,
{
}

/// A body without ESC bytes is its own unescaped form.
pub proof fn lemma_unescaped_plain(body: Seq<u8>)
    requires
        forall|i: int| 0 <= i < body.len() ==> body[i] != SLIP_ESC,
    ensures
        unescaped(body) == Some(body),
    decreases body.len(),
{
    if body.len() > 0 {
        lemma_unescaped_plain(body.skip(1));
    }
}

/// A payload is read sub-frame by sub-frame: bytes without END, the END
/// behind them and whatever follows have the effect of what follows, read
/// afresh after the sub-frame that the END closed was carried out.
pub proof fn lemma_payload_splits(p: Progress, pending: Seq<u8>, body: Seq<u8>, rest: Seq<u8>)
    requires
        forall|i: int| 0 <= i < body.len() ==> body[i] != SLIP_END,
    ensures
        payload_effect(p, pending, body + seq![SLIP_END] + rest) == payload_effect(
            flushed(p, pending + body),
            Seq::empty(),
            rest,
        ),
    decreases body.len(),
{
    let payload = body + seq![SLIP_END] + rest;
    if body.len() == 0 {
        assert(payload.skip(1) =~= rest);
    } else {
        assert(payload.skip(1) =~= body.skip(1) + seq![SLIP_END] + rest);
        assert(pending.push(body[0]) + body.skip(1) =~= pending + body);
        lemma_payload_splits(p, pending.push(body[0]), body.skip(1), rest);
    }
}

/// Bytes without END only lengthen the pending sub-frame, and the END
/// behind them closes it.
pub proof fn lemma_payload_closes(p: Progress, pending: Seq<u8>, body: Seq<u8>)
    requires
        forall|i: int| 0 <= i < body.len() ==> body[i] != SLIP_END,
    ensures
        payload_effect(p, pending, body.push(SLIP_END)) == flushed(p, pending + body),
{
    lemma_payload_splits(p, pending, body, Seq::empty());
    assert(body + seq![SLIP_END] + Seq::<u8>::empty() =~= body.push(SLIP_END));
}

/// Two sub-frames without END and ESC bytes, each closed by END, have the
/// effect of the first read as a command and then the second: commands
/// are carried out in the order of the wire.
pub proof fn lemma_two_plain_frames(p: Progress, first: Seq<u8>, second: Seq<u8>)
    requires
        first.len() > 0,
        second.len() > 0,
        forall|i: int| 0 <= i < first.len() ==> first[i] != SLIP_END && first[i] != SLIP_ESC,
        forall|i: int| 0 <= i < second.len() ==> second[i] != SLIP_END && second[i] != SLIP_ESC,
    ensures
        payload_effect(p, Seq::empty(), first + seq![SLIP_END] + second.push(SLIP_END))
            == frame_effect(frame_effect(p, first), second),
{
    lemma_payload_splits(p, Seq::empty(), first, second.push(SLIP_END));
    lemma_unescaped_plain(first);
    lemma_plain_frame_payload(frame_effect(p, first), second);
}

/// A display payload that holds one sub-frame without END and ESC bytes,
/// closed by END, has the effect of that sub-frame read as a command.
pub proof fn lemma_plain_frame_payload(p: Progress, frame: Seq<u8>)
    requires
        frame.len() > 0,
        forall|i: int| 0 <= i < frame.len() ==> frame[i] != SLIP_END && frame[i] != SLIP_ESC,
    ensures
        payload_effect(p, Seq::empty(), frame.push(SLIP_END)) == frame_effect(p, frame),
{
    lemma_payload_closes(p, Seq::empty(), frame);
    lemma_unescaped_plain(frame);
}

} // verus!
