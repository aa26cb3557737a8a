//! Decoded-frame and reply representations, per-port protocol state, and the
//! command-table entry type.

use vstd::prelude::*;
use std::sync::mpsc::Sender;

verus! {

/// A byte read as a pair of 4-bit fields: `n1` is the low nibble (the
/// sub-address), `n2` the high nibble (the command type).
#[derive(Clone, Copy, Debug, PartialEq, Eq, Structural)]
pub struct Nibbles {
    pub byte: u8,
}

impl Nibbles {
    /// The low nibble: the sub-address within the device.
    pub open spec fn spec_n1(self) -> u8 {
        self.byte & 0x0f
    }

    /// The high nibble: the command type.
    pub open spec fn spec_n2(self) -> u8 {
        self.byte >> 4
    }

    pub fn n1(&self) -> (r: u8)
        ensures
            r == self.spec_n1(),
    {
        self.byte & 0x0f
    }

    pub fn n2(&self) -> (r: u8)
        ensures
            r == self.spec_n2(),
    {
        self.byte >> 4
    }
}

/// A single 4-bit value stored in the low bits of a byte; the command-type
/// key of a table entry.
#[derive(Clone, Copy, Debug, PartialEq, Eq, Structural)]
pub struct Nibble {
    pub data: u8,
}

/// Mathematical model of a decoded frame.
pub struct MessageModel {
    pub byte_count: u8,
    pub command1: u8,
    pub command_code: u8,
    pub checksum: u8,
    pub data: Seq<u8>,
}

impl MessageModel {
    /// The command-type nibble, the dispatch key together with the code.
    pub open spec fn command_type(self) -> u8 {
        self.command1 >> 4
    }
}

/// A decoded frame: the byte count from the wire, the combined
/// sub-address/type byte, the command code, the data payload, and the
/// checksum byte (carried along but not validated against a recomputed
/// value; the legacy peer is lenient here and that leniency is kept).
#[derive(Debug)]
pub struct Message {
    pub byte_count: u8,
    pub command1: Nibbles,
    pub command_code: u8,
    pub checksum: u8,
    pub data: Vec<u8>,
}

impl View for Message {
    type V = MessageModel;

    open spec fn view(&self) -> MessageModel {
        MessageModel {
            byte_count: self.byte_count,
            command1: self.command1.byte,
            command_code: self.command_code,
            checksum: self.checksum,
            data: self.data@,
        }
    }
}

/// Protocol state of a port, on the wire: the literal status codes the
/// peer expects.
#[derive(Clone, Copy, Debug, PartialEq, Eq, Structural)]
pub enum PortStatus {
    Idle,
    Cued,
    Playing,
}

impl PortStatus {
    /// The wire code of the status.
    pub open spec fn spec_code(self) -> u8 {
        match self {
            PortStatus::Idle => 0x01,
            PortStatus::Cued => 0x80,
            PortStatus::Playing => 0x04,
        }
    }

    pub fn code(&self) -> (r: u8)
        ensures
            r == self.spec_code(),
    {
        match self {
            PortStatus::Idle => 0x01,
            PortStatus::Cued => 0x80,
            PortStatus::Playing => 0x04,
        }
    }
}

/// Freshness of the clip-duration cache: `NoClips` while a new duration
/// batch has just arrived and its deadline is armed, `Clips` otherwise.
#[derive(Clone, Copy, Debug, PartialEq, Eq, Structural)]
pub enum ClipStatus {
    Clips,
    NoClips,
}

impl ClipStatus {
    /// The wire code of the freshness flag.
    pub open spec fn spec_code(self) -> u8 {
        match self {
            ClipStatus::Clips => 0x1f,
            ClipStatus::NoClips => 0x00,
        }
    }

    pub fn code(&self) -> (r: u8)
        ensures
            r == self.spec_code(),
    {
        match self {
            ClipStatus::Clips => 0x1f,
            ClipStatus::NoClips => 0x00,
        }
    }
}

/// Mathematical model of a port's state.
pub struct PortModel {
    pub number: u8,
    pub port_status: PortStatus,
    pub clip_status: ClipStatus,
    pub cued_number: u8,
    pub clips: Seq<Seq<u8>>,
}

impl PortModel {
    /// The state invariant: at least one clip is loaded, the clip list fits
    /// the 8-bit cue pointer, and the cue pointer indexes a clip.
    pub open spec fn wf(self) -> bool {
        &&& 1 <= self.clips.len() <= 255
        &&& (self.cued_number as int) < self.clips.len()
    }
}

/// The trigger channel's sending half; the relay holds the receiving half.
#[verifier::external_type_specification]
#[verifier::external_body]
#[verifier::reject_recursive_types(T)]
pub struct ExSender<T>(Sender<T>);

/// Relies on `std::sync::mpsc::Sender::send`: queues the value for the
/// receiver and fails exactly when the receiver has disconnected. Whether
/// the receiver is still connected cannot be known here, so nothing is
/// promised of the outcome; callers must not depend on it.
#[verifier::external_body]
pub(crate) fn send_trigger(sender: &Sender<u8>, port_number: u8) -> bool {
    sender.send(port_number).is_ok()
}

/// Per-port protocol state. Exclusively owned by one transport loop;
/// `play_sender` is that loop's handle into the shared trigger channel.
pub struct PortConfig {
    pub number: u8,
    pub port_status: PortStatus,
    pub clip_status: ClipStatus,
    pub cued_number: u8,
    pub clips: Vec<Vec<u8>>,
    pub play_sender: Sender<u8>,
}

impl View for PortConfig {
    type V = PortModel;

    open spec fn view(&self) -> PortModel {
        PortModel {
            number: self.number,
            port_status: self.port_status,
            clip_status: self.clip_status,
            cued_number: self.cued_number,
            clips: self.clips.deep_view(),
        }
    }
}

impl PortConfig {
    /// A fresh port state: idle, duration cache marked fresh, cue pointer at
    /// the first clip.
    pub fn new(number: u8, clips: Vec<Vec<u8>>, play_sender: Sender<u8>) -> (r: PortConfig)
        requires
            1 <= clips@.len() <= 255,
        ensures
            r@ == (PortModel {
                number,
                port_status: PortStatus::Idle,
                clip_status: ClipStatus::Clips,
                cued_number: 0,
                clips: clips.deep_view(),
            }),
            r@.wf(),
            r.play_sender == play_sender,
    {
        PortConfig {
            number,
            port_status: PortStatus::Idle,
            clip_status: ClipStatus::Clips,
            cued_number: 0,
            clips,
            play_sender,
        }
    }

    /// Moves the cue pointer to the next clip, wrapping past the last clip
    /// back to the first; called each time a clip is stopped.
    pub fn next_clip(&mut self)
        requires
            old(self)@.wf(),
        ensures
            final(self)@ == (PortModel {
                cued_number: ((old(self)@.cued_number + 1) % (old(self)@.clips.len() as int)) as u8,
                ..old(self)@
            }),
            final(self)@.wf(),
            final(self).play_sender == old(self).play_sender,
    {
        let ghost c = old(self)@.cued_number as int;
        let ghost n = old(self)@.clips.len() as int;
        let next: usize = self.cued_number as usize + 1;
        if next == self.clips.len() {
            self.cued_number = 0;
            proof {
                vstd::arithmetic::div_mod::lemma_mod_self_0(n);
            }
        } else {
            self.cued_number = next as u8;
            proof {
                vstd::arithmetic::div_mod::lemma_small_mod((c + 1) as nat, n as nat);
            }
        }
    }

    /// The clip the cue pointer currently rests on.
    pub fn get_cued_clip(&mut self) -> (r: Vec<u8>)
        requires
            old(self)@.wf(),
        ensures
            r@ == old(self)@.clips[old(self)@.cued_number as int],
            *final(self) == *old(self),
    {
        let clip: &Vec<u8> = &self.clips[self.cued_number as usize];
        let r = clip.clone();
        proof {
            assert(r@ =~= self@.clips[self@.cued_number as int]);
        }
        r
    }
}

/// Mathematical model of an outgoing reply.
pub enum RespModel {
    /// A payload to be framed before it goes on the wire.
    Message(Seq<u8>),
    /// Raw bytes (an ACK or NAK) sent without a frame around them.
    Simple(Seq<u8>),
}

/// An outgoing reply: either a payload to be framed, or raw status bytes
/// that go out unwrapped (the convention for command types 0, 1 and 2).
pub enum Response {
    Message(Vec<u8>),
    Simple(Vec<u8>),
}

impl View for Response {
    type V = RespModel;

    open spec fn view(&self) -> RespModel {
        match self {
            Response::Message(d) => RespModel::Message(d@),
            Response::Simple(d) => RespModel::Simple(d@),
        }
    }
}

impl Response {
    /// The raw bytes carried, whichever variant holds them.
    pub fn into_bytes(self) -> (r: Vec<u8>)
        ensures
            r@ == match self@ {
                RespModel::Message(d) => d,
                RespModel::Simple(d) => d,
            },
    {
        match self {
            Response::Message(d) => d,
            Response::Simple(d) => d,
        }
    }
}

/// What a matched table entry does; the tag selects the handler.
#[derive(Clone, Copy, Debug, PartialEq, Eq, Structural)]
pub enum CommandKind {
    IdRequest,
    SizeRequest,
    PortStatusRequest,
    SystemStatus,
    OpenPort,
    ClosePort,
    SelectPort,
    CueWithData,
    ActiveIdRequest,
    Play,
    Stop,
}

/// One entry of the command table: a display name, the (type, code) key,
/// and the handler tag.
pub struct Command {
    pub name: String,
    pub command_type: Nibble,
    pub command_code: u8,
    pub action: CommandKind,
}

impl Command {
    /// Builds a table entry; the type key is a 4-bit value.
    pub fn new(name: &str, command_type: u8, command_code: u8, action: CommandKind) -> (r: Command)
        requires
            command_type < 16,
        ensures
            r.name@ == name@,
            r.command_type.data == command_type,
            r.command_code == command_code,
            r.action == action,
    {
        Command {
            name: String::from_str(name),
            command_type: Nibble { data: command_type },
            command_code,
            action,
        }
    }
}

} // verus!
