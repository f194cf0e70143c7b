//! The serial link to the device, as decisions without the port itself.
//!
//! The caller owns the port: it opens it with `SerialSettings::device`,
//! writes the `Handshake`, and then reads and polls for commands in turn.
//! What a read means, and which bytes a command puts on the line, is
//! decided here.

use vstd::prelude::*;
use crate::slip::{fed, SlipReassembler};
use crate::wire::{tag_message, tagged, TAG_SERIAL};

verus! {

/// Command byte that makes the device stop sending.
pub const SERIAL_DISCONNECT: u8 = 0x44;

/// Command byte that makes the device send display data.
pub const SERIAL_ENABLE: u8 = 0x45;

/// Command byte that makes the device draw its whole screen again.
pub const SERIAL_RESET: u8 = 0x52;

/// Speed of the line in bits per second.
pub const BAUD_RATE: u32 = 115200;

/// How long a read waits for bytes, in milliseconds.
pub const READ_TIMEOUT_MS: u64 = 10;

/// How long the device is left alone between the two writes of the
/// handshake, in milliseconds.
pub const HANDSHAKE_PAUSE_MS: u64 = 50;

/// How long the link waits for a command between two reads, in
/// milliseconds.
pub const COMMAND_POLL_MS: u64 = 10;

/// Parity of the line.
#[derive(Clone, Copy, Debug, PartialEq, Eq, Structural)]
pub enum Parity {
    Disabled,
    Odd,
    Even,
}

/// Flow control of the line.
#[derive(Clone, Copy, Debug, PartialEq, Eq, Structural)]
pub enum FlowControl {
    Disabled,
    Software,
    Hardware,
}

/// How the port is opened.
#[derive(Clone, Copy, Debug, PartialEq, Eq, Structural)]
pub struct SerialSettings {
    pub baud_rate: u32,
    pub data_bits: u8,
    pub parity: Parity,
    pub stop_bits: u8,
    pub flow_control: FlowControl,
    pub read_timeout_ms: u64,
}

impl SerialSettings {
    /// The settings of the device: 115200 baud, 8 data bits, no parity,
    /// 1 stop bit, no flow control, reads that give up after 10 ms.
    pub fn device() -> (settings: Self)
        ensures
            settings == (SerialSettings {
                baud_rate: BAUD_RATE,
                data_bits: 8,
                parity: Parity::Disabled,
                stop_bits: 1,
                flow_control: FlowControl::Disabled,
                read_timeout_ms: READ_TIMEOUT_MS,
            }),
    {
        SerialSettings {
            baud_rate: BAUD_RATE,
            data_bits: 8,
            parity: Parity::Disabled,
            stop_bits: 1,
            flow_control: FlowControl::Disabled,
            read_timeout_ms: READ_TIMEOUT_MS,
        }
    }
}

/// What is written to a freshly opened port before the first read: the
/// first bytes, a pause, the second bytes.
#[derive(Debug, PartialEq, Eq)]
pub struct Handshake {
    pub first: Vec<u8>,
    pub pause_ms: u64,
    pub second: Vec<u8>,
}

/// The bytes that ask the device for its whole screen.
pub open spec fn redraw_request() -> Seq<u8> {
    seq![SERIAL_ENABLE, SERIAL_RESET]
}

/// The handshake that wakes the device: disconnect, wait 50 ms, then
/// enable and reset.
pub fn handshake() -> (steps: Handshake)
    ensures
        steps.first@ == seq![SERIAL_DISCONNECT],
        steps.pause_ms == HANDSHAKE_PAUSE_MS,
        steps.second@ == redraw_request(),
{
    let mut first: Vec<u8> = Vec::new();
    first.push(SERIAL_DISCONNECT);
    let mut second: Vec<u8> = Vec::new();
    second.push(SERIAL_ENABLE);
    second.push(SERIAL_RESET);
    Handshake { first, pause_ms: HANDSHAKE_PAUSE_MS, second }
}

/// What a client asks of the link.
#[derive(Debug, PartialEq, Eq)]
pub enum ControlCommand {
    /// A viewer has joined and needs the whole screen.
    Connect,
    /// Bytes to hand to the device as they are.
    WriteBytes(Vec<u8>),
}

/// The bytes that a command puts on the line: a redraw request for
/// `Connect`, the payload itself for `WriteBytes`.
pub open spec fn command_bytes(command: ControlCommand) -> Seq<u8> {
    match command {
        ControlCommand::Connect => redraw_request(),
        ControlCommand::WriteBytes(payload) => payload@,
    }
}

/// The bytes to write for `command`.
pub fn encode_command(command: ControlCommand) -> (bytes: Vec<u8>)
    ensures
        bytes@ == command_bytes(command),
{
    match command {
        ControlCommand::Connect => {
            let mut bytes: Vec<u8> = Vec::new();
            bytes.push(SERIAL_ENABLE);
            bytes.push(SERIAL_RESET);
            bytes
        },
        ControlCommand::WriteBytes(payload) => payload,
    }
}

/// How a read on the port ended. Errors other than these two are not the
/// link's to handle.
#[derive(Debug, PartialEq, Eq)]
pub enum ReadOutcome {
    /// The read returned these bytes; none at all means that the device
    /// is gone.
    Bytes(Vec<u8>),
    /// The read gave up waiting.
    TimedOut,
    /// The read was interrupted.
    Interrupted,
}

/// What the caller does after a read.
#[derive(Debug, PartialEq, Eq)]
pub enum LinkEvent {
    /// Nothing to send; read on.
    Idle,
    /// Send this tagged message to every client; read on.
    Publish(Vec<u8>),
    /// The device is gone: tell every client and stop reading.
    Closed,
}

/// What a `LinkEvent` holds, as a mathematical value.
pub enum LinkEventModel {
    Idle,
    Publish(Seq<u8>),
    Closed,
}

impl View for LinkEvent {
    type V = LinkEventModel;

    open spec fn view(&self) -> LinkEventModel {
        match self {
            LinkEvent::Idle => LinkEventModel::Idle,
            LinkEvent::Publish(message) => LinkEventModel::Publish(message@),
            LinkEvent::Closed => LinkEventModel::Closed,
        }
    }
}

/// What the link does next.
#[derive(Clone, Copy, Debug, PartialEq, Eq, Structural)]
pub enum LinkTask {
    /// Read from the port, for `READ_TIMEOUT_MS` at most.
    Read,
    /// Wait for a command, for `COMMAND_POLL_MS` at most.
    Poll,
    /// Nothing: the device is gone.
    Stop,
}

/// The state of a link: the bytes that wait for their END byte, whether
/// the device is still there, and whether a wait for a command is due.
pub struct LinkModel {
    pub residual: Seq<u8>,
    pub open: bool,
    pub polling: bool,
}

/// What a link does next: a closed one stops, an open one reads and waits
/// for a command in turn.
pub open spec fn next_task(link: LinkModel) -> LinkTask {
    if !link.open {
        LinkTask::Stop
    } else if link.polling {
        LinkTask::Poll
    } else {
        LinkTask::Read
    }
}

/// What a read does to a link and what the caller is told.
///
/// A closed link stays closed whatever is read. On an open link, a read
/// without bytes closes it; a read that timed out or was interrupted
/// leaves the bytes as they are; bytes go through the reassembler, and
/// what becomes ready is published under the display tag. After a read on
/// an open link a wait for a command is due.
pub open spec fn read_effect(link: LinkModel, outcome: ReadOutcome) -> (LinkModel, LinkEventModel) {
    if !link.open {
        (link, LinkEventModel::Closed)
    } else {
        match outcome {
            ReadOutcome::TimedOut => (
                LinkModel { residual: link.residual, open: true, polling: true },
                LinkEventModel::Idle,
            ),
            ReadOutcome::Interrupted => (
                LinkModel { residual: link.residual, open: true, polling: true },
                LinkEventModel::Idle,
            ),
            ReadOutcome::Bytes(bytes) => if bytes@.len() == 0 {
                (
                    LinkModel { residual: link.residual, open: false, polling: link.polling },
                    LinkEventModel::Closed,
                )
            } else {
                let (ready, residual) = fed(link.residual, bytes@);
                (
                    LinkModel { residual, open: true, polling: true },
                    if ready.len() == 0 {
                        LinkEventModel::Idle
                    } else {
                        LinkEventModel::Publish(tagged(TAG_SERIAL, ready))
                    },
                )
            },
        }
    }
}

/// What a wait for a command does to a link, and the bytes to write to
/// the device, if any.
///
/// On an open link the command that came, if one came, is turned into its
/// bytes, and a read is due next. A closed link writes nothing.
pub open spec fn poll_effect(link: LinkModel, command: Option<ControlCommand>) -> (
    LinkModel,
    Option<Seq<u8>>,
) {
    if !link.open {
        (link, None)
    } else {
        (
            LinkModel { residual: link.residual, open: true, polling: false },
            match command {
                Some(c) => Some(command_bytes(c)),
                None => None,
            },
        )
    }
}

/// Reads and waits for commands take turns for as long as the device is
/// there: a read is never followed by another read, so a command waits
/// for one read at most.
pub proof fn lemma_reads_and_polls_take_turns(
    link: LinkModel,
    outcome: ReadOutcome,
    command: Option<ControlCommand>,
)
    requires
        link.open,
    ensures
        next_task(read_effect(link, outcome).0) != LinkTask::Read,
        (next_task(read_effect(link, outcome).0) == LinkTask::Stop) <==> (outcome matches ReadOutcome::Bytes(
            bytes,
        ) && bytes@.len() == 0),
        next_task(poll_effect(link, command).0) == LinkTask::Read,
{
}

/// A link whose device is gone stays so, publishes nothing and writes
/// nothing.
pub proof fn lemma_closed_link_is_final(
    link: LinkModel,
    outcome: ReadOutcome,
    command: Option<ControlCommand>,
)
    requires
        !link.open,
    ensures
        next_task(link) == LinkTask::Stop,
        read_effect(link, outcome) == (link, LinkEventModel::Closed),
        poll_effect(link, command) == (link, None::<Seq<u8>>),
{
}

/// The link to the device.
pub struct SerialLink {
    reassembler: SlipReassembler,
    open: bool,
    polling: bool,
}

impl View for SerialLink {
    type V = LinkModel;

    closed spec fn view(&self) -> LinkModel {
        LinkModel { residual: self.reassembler@, open: self.open, polling: self.polling }
    }
}

impl SerialLink {
    /// An open link that has read nothing and reads first.
    pub fn new() -> (link: Self)
        ensures
            link@ == (LinkModel { residual: Seq::empty(), open: true, polling: false }),
    {
        SerialLink { reassembler: SlipReassembler::new(), open: true, polling: false }
    }

    /// Whether the device is still there.
    pub fn is_open(&self) -> (open: bool)
        ensures
            open == self@.open,
    {
        self.open
    }

    /// What to do next.
    pub fn next(&self) -> (task: LinkTask)
        ensures
            task == next_task(self@),
    {
        if !self.open {
            LinkTask::Stop
        } else if self.polling {
            LinkTask::Poll
        } else {
            LinkTask::Read
        }
    }

    /// Takes in how a read ended and says what to do about it.
    pub fn on_read(&mut self, outcome: ReadOutcome) -> (event: LinkEvent)
        ensures
            final(self)@ == read_effect(old(self)@, outcome).0,
            event@ == read_effect(old(self)@, outcome).1,
    {
        if !self.open {
            return LinkEvent::Closed;
        }
        match outcome {
            ReadOutcome::TimedOut => {
                self.polling = true;
                LinkEvent::Idle
            },
            ReadOutcome::Interrupted => {
                self.polling = true;
                LinkEvent::Idle
            },
            ReadOutcome::Bytes(bytes) => {
                if bytes.len() == 0 {
                    self.open = false;
                    return LinkEvent::Closed;
                }
                self.polling = true;
                match self.reassembler.push(bytes.as_slice()) {
                    Some(chunk) => LinkEvent::Publish(tag_message(TAG_SERIAL, chunk.as_slice())),
                    None => LinkEvent::Idle,
                }
            },
        }
    }

    /// Takes in the command that came while the link waited for one, if
    /// one came, and returns the bytes to write to the device.
    pub fn on_command(&mut self, command: Option<ControlCommand>) -> (bytes: Option<Vec<u8>>)
        ensures
            final(self)@ == poll_effect(old(self)@, command).0,
            match bytes {
                Some(b) => poll_effect(old(self)@, command).1 == Some(b@),
                None => poll_effect(old(self)@, command).1 is None,
            },
    {
        if !self.open {
            return None;
        }
        self.polling = false;
        match command {
            Some(c) => Some(encode_command(c)),
            None => None,
        }
    }
}

} // verus!
