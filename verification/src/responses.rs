//! The command handlers and the ordered command table.

use vstd::prelude::*;
use crate::types::{
    Command, CommandKind, Message, MessageModel, PortConfig, PortModel, PortStatus, RespModel,
    Response, send_trigger,
};

verus! {

/// The reply everything unmatched gets: a bare NAK.
pub open spec fn nak_resp() -> RespModel {
    RespModel::Simple(seq![0x05u8, 0x01u8])
}

/// The payload a size request is answered with. The last payload byte names
/// the clip as an ASCII digit, one-based; a duration in seconds is looked up
/// in the table and split into minutes and seconds
/// (`frames|seconds|minutes|hours`, frames and hours always zero, minutes
/// truncated to a byte). An empty payload or an index outside the table is
/// answered with a fixed one-minute reply, never an error.
pub open spec fn size_reply(data: Seq<u8>, times: Seq<u16>) -> Seq<u8> {
    if data.len() > 0 && data.last() >= 0x31 && data.last() - 0x31 < times.len() {
        let t = times[data.last() - 0x31] as int;
        seq![0u8, (t % 60) as u8, ((t / 60) % 256) as u8, 0u8]
    } else {
        seq![0u8, 0u8, 1u8, 0u8]
    }
}

/// The cue pointer after one stop: advanced by one, wrapping at the end of
/// the clip list.
pub open spec fn spec_next_cued(s: PortModel) -> u8 {
    ((s.cued_number + 1) % (s.clips.len() as int)) as u8
}

/// The port state a stop leaves behind: idle, cue pointer advanced.
pub open spec fn spec_stop_state(s: PortModel) -> PortModel {
    PortModel { port_status: PortStatus::Idle, cued_number: spec_next_cued(s), ..s }
}

/// How each handler changes the port state. Only play, stop, select and cue
/// touch it; everything else reads it at most.
pub open spec fn spec_handler_state(k: CommandKind, m: MessageModel, s: PortModel) -> PortModel {
    match k {
        CommandKind::Play => PortModel { port_status: PortStatus::Playing, ..s },
        CommandKind::Stop => spec_stop_state(s),
        CommandKind::SelectPort => if m.data.len() > 0 {
            PortModel { number: m.data[0], ..s }
        } else {
            s
        },
        CommandKind::CueWithData => PortModel { port_status: PortStatus::Cued, ..s },
        _ => s,
    }
}

/// What each handler replies, over the state it found.
pub open spec fn spec_handler_resp(
    k: CommandKind,
    m: MessageModel,
    times: Seq<u16>,
    s: PortModel,
) -> RespModel {
    match k {
        CommandKind::IdRequest => RespModel::Message(seq![0x01u8, 0x00u8]),
        CommandKind::SizeRequest => RespModel::Message(size_reply(m.data, times)),
        CommandKind::PortStatusRequest => RespModel::Message(
            seq![0x05u8, s.port_status.spec_code(), s.number, 0u8, 0u8, 0u8],
        ),
        CommandKind::SystemStatus => RespModel::Message(
            seq![0x02u8, 0x00u8, s.clip_status.spec_code()],
        ),
        CommandKind::OpenPort => RespModel::Message(seq![0x01u8]),
        CommandKind::ClosePort => RespModel::Simple(seq![0x04u8]),
        CommandKind::SelectPort => RespModel::Simple(seq![0x04u8]),
        CommandKind::CueWithData => RespModel::Simple(seq![0x04u8]),
        CommandKind::ActiveIdRequest => if s.port_status is Idle {
            RespModel::Message(seq![0x00u8])
        } else {
            RespModel::Message(seq![0x01u8] + s.clips[s.cued_number as int])
        },
        CommandKind::Play => RespModel::Simple(seq![0x04u8]),
        CommandKind::Stop => RespModel::Simple(seq![0x04u8]),
    }
}

/// The port state after `n` consecutive stops.
pub open spec fn iter_stop(s: PortModel, n: nat) -> PortModel
    decreases n,
{
    if n == 0 {
        s
    } else {
        spec_stop_state(iter_stop(s, (n - 1) as nat))
    }
}

/// What `n` consecutive stops leave behind: the port is idle (once at least
/// one stop ran) and the cue pointer has advanced by `n`, wrapping at the
/// end of the clip list; everything else is untouched.
pub proof fn lemma_iter_stop(s: PortModel, n: nat)
    requires
        s.wf(),
    ensures
        iter_stop(s, n) == (PortModel {
            port_status: if n == 0 { s.port_status } else { PortStatus::Idle },
            cued_number: ((s.cued_number + n) % (s.clips.len() as int)) as u8,
            ..s
        }),
    decreases n,
{
    let len = s.clips.len() as int;
    if n == 0 {
        vstd::arithmetic::div_mod::lemma_small_mod(s.cued_number as nat, s.clips.len());
    } else {
        lemma_iter_stop(s, (n - 1) as nat);
        vstd::arithmetic::div_mod::lemma_add_mod_noop_right(
            1,
            s.cued_number + n - 1,
            len,
        );
    }
}

/// Stopping as many times as there are clips returns the cue pointer to
/// where it started: the cue order is a cycle through the whole clip list.
pub proof fn lemma_stop_cycle(s: PortModel)
    requires
        s.wf(),
    ensures
        iter_stop(s, s.clips.len()).cued_number == s.cued_number,
{
    let len = s.clips.len() as int;
    lemma_iter_stop(s, s.clips.len());
    vstd::arithmetic::div_mod::lemma_mod_add_multiples_vanish(s.cued_number as int, len);
    vstd::arithmetic::div_mod::lemma_small_mod(s.cued_number as nat, s.clips.len());
}

/// Play: hand this port's number to the trigger channel (a failed send is
/// non-fatal and the client is acknowledged regardless), mark the port
/// playing, and ACK.
pub fn play(_message: &Message, _clip_times: &Vec<u16>, config: &mut PortConfig) -> (r: Response)
    ensures
        r@ == spec_handler_resp(CommandKind::Play, _message@, _clip_times@, old(config)@),
        final(config)@ == spec_handler_state(CommandKind::Play, _message@, old(config)@),
        final(config).play_sender == old(config).play_sender,
{
    let _sent = send_trigger(&config.play_sender, config.number);
    config.port_status = PortStatus::Playing;
    let ack: Vec<u8> = vec![0x04];
    proof {
        assert(ack@ == seq![0x04u8]);
    }
    Response::Simple(ack)
}

/// Active-ID: an idle port answers a bare zero; otherwise the cued clip's
/// name follows a one.
pub fn active_id(_message: &Message, _clip_times: &Vec<u16>, config: &mut PortConfig) -> (r:
    Response)
    requires
        old(config)@.wf(),
    ensures
        r@ == spec_handler_resp(CommandKind::ActiveIdRequest, _message@, _clip_times@, old(config)@),
        *final(config) == *old(config),
{
    match config.port_status {
        PortStatus::Idle => {
            let idle: Vec<u8> = vec![0x00];
            proof {
                assert(idle@ == seq![0x00u8]);
            }
            Response::Message(idle)
        },
        _ => {
            let mut prefix: Vec<u8> = vec![0x01];
            let mut clip = config.get_cued_clip();
            prefix.append(&mut clip);
            proof {
                assert(prefix@ =~= seq![0x01u8] + config@.clips[config@.cued_number as int]);
            }
            Response::Message(prefix)
        },
    }
}

/// Stop: back to idle, advance the cue pointer, ACK.
pub fn stop(_message: &Message, _clip_times: &Vec<u16>, config: &mut PortConfig) -> (r: Response)
    requires
        old(config)@.wf(),
    ensures
        r@ == spec_handler_resp(CommandKind::Stop, _message@, _clip_times@, old(config)@),
        final(config)@ == spec_handler_state(CommandKind::Stop, _message@, old(config)@),
        final(config)@.wf(),
        final(config).play_sender == old(config).play_sender,
{
    config.port_status = PortStatus::Idle;
    config.next_clip();
    let ack: Vec<u8> = vec![0x04];
    proof {
        assert(ack@ == seq![0x04u8]);
    }
    Response::Simple(ack)
}

/// Size request: answer with the cued clip's duration per `size_reply`.
pub fn size_request(message: &Message, clip_times: &Vec<u16>, config: &mut PortConfig) -> (r:
    Response)
    ensures
        r@ == spec_handler_resp(CommandKind::SizeRequest, message@, clip_times@, old(config)@),
        *final(config) == *old(config),
{
    if message.data.len() == 0 {
        return fallback_minute();
    }
    let last = message.data[message.data.len() - 1];
    if last < 0x31 {
        return fallback_minute();
    }
    let index = (last - 0x31) as usize;
    if index >= clip_times.len() {
        return fallback_minute();
    }
    let t = clip_times[index];
    let seconds = t % 60;
    let minutes = t / 60;
    let reply: Vec<u8> = vec![0x00, seconds as u8, (minutes % 256) as u8, 0x00];
    proof {
        assert(reply@ == seq![0x00u8, (t % 60) as u8, ((t as int / 60) % 256) as u8, 0x00u8]);
    }
    Response::Message(reply)
}

/// The fixed one-minute reply a failed size request falls back to.
fn fallback_minute() -> (r: Response)
    ensures
        r@ == RespModel::Message(seq![0u8, 0u8, 1u8, 0u8]),
{
    let reply: Vec<u8> = vec![0x00, 0x00, 0x01, 0x00];
    proof {
        assert(reply@ == seq![0u8, 0u8, 1u8, 0u8]);
    }
    Response::Message(reply)
}

/// Everything whose (type, code) pair the table does not know is answered
/// with a NAK; the port number only names the port in the caller's logs.
pub fn unknown_command(msg: &Message, _port_num: u8) -> (r: Response)
    ensures
        r@ == nak_resp(),
{
    let nak: Vec<u8> = vec![0x05, 0x01];
    proof {
        assert(nak@ == seq![0x05u8, 0x01u8]);
    }
    Response::Simple(nak)
}

/// Runs the handler a table entry selected.
pub fn run_handler(kind: CommandKind, message: &Message, clip_times: &Vec<u16>, config: &mut
    PortConfig) -> (r: Response)
    requires
        old(config)@.wf(),
    ensures
        r@ == spec_handler_resp(kind, message@, clip_times@, old(config)@),
        final(config)@ == spec_handler_state(kind, message@, old(config)@),
        final(config)@.wf(),
        final(config).play_sender == old(config).play_sender,
{
    match kind {
        CommandKind::IdRequest => {
            let v: Vec<u8> = vec![0x01, 0x00];
            proof {
                assert(v@ == seq![0x01u8, 0x00u8]);
            }
            Response::Message(v)
        },
        CommandKind::SizeRequest => size_request(message, clip_times, config),
        CommandKind::PortStatusRequest => {
            let v: Vec<u8> = vec![0x05, config.port_status.code(), config.number, 0x00, 0x00, 0x00];
            proof {
                assert(v@ == seq![
                    0x05u8,
                    config@.port_status.spec_code(),
                    config@.number,
                    0u8,
                    0u8,
                    0u8,
                ]);
            }
            Response::Message(v)
        },
        CommandKind::SystemStatus => {
            let v: Vec<u8> = vec![0x02, 0x00, config.clip_status.code()];
            proof {
                assert(v@ == seq![0x02u8, 0x00u8, config@.clip_status.spec_code()]);
            }
            Response::Message(v)
        },
        CommandKind::OpenPort => {
            let v: Vec<u8> = vec![0x01];
            proof {
                assert(v@ == seq![0x01u8]);
            }
            Response::Message(v)
        },
        CommandKind::ClosePort => ack(),
        CommandKind::SelectPort => {
            if message.data.len() > 0 {
                config.number = message.data[0];
            }
            ack()
        },
        CommandKind::CueWithData => {
            config.port_status = PortStatus::Cued;
            ack()
        },
        CommandKind::ActiveIdRequest => active_id(message, clip_times, config),
        CommandKind::Play => play(message, clip_times, config),
        CommandKind::Stop => stop(message, clip_times, config),
    }
}

/// The bare acknowledgement byte, unwrapped.
fn ack() -> (r: Response)
    ensures
        r@ == RespModel::Simple(seq![0x04u8]),
{
    let v: Vec<u8> = vec![0x04];
    proof {
        assert(v@ == seq![0x04u8]);
    }
    Response::Simple(v)
}

/// The (type, code, handler) key of a table entry.
pub open spec fn entry_of(c: Command) -> (u8, u8, CommandKind) {
    (c.command_type.data, c.command_code, c.action)
}

/// The dispatch keys of the command table, in table order.
pub open spec fn spec_table() -> Seq<(u8, u8, CommandKind)> {
    seq![
        (0x0bu8, 0x16u8, CommandKind::IdRequest),
        (0x0bu8, 0x14u8, CommandKind::SizeRequest),
        (0x03u8, 0x05u8, CommandKind::PortStatusRequest),
        (0x03u8, 0x10u8, CommandKind::SystemStatus),
        (0x03u8, 0x01u8, CommandKind::OpenPort),
        (0x02u8, 0x21u8, CommandKind::ClosePort),
        (0x02u8, 0x22u8, CommandKind::SelectPort),
        (0x0au8, 0x25u8, CommandKind::CueWithData),
        (0x0bu8, 0x07u8, CommandKind::ActiveIdRequest),
        (0x01u8, 0x01u8, CommandKind::Play),
        (0x01u8, 0x00u8, CommandKind::Stop),
    ]
}

/// The names the table entries carry, in table order.
pub open spec fn spec_table_names() -> Seq<Seq<char>> {
    seq![
        "id_request"@,
        "size_request"@,
        "port_status"@,
        "system_status"@,
        "open_port"@,
        "close_port"@,
        "select_port"@,
        "cue_with_data"@,
        "active_id_request"@,
        "play"@,
        "stop"@,
    ]
}

/// Builds the ordered command table; dispatch takes the first entry whose
/// (type, code) pair equals the decoded message's.
pub fn get_commands() -> (r: Vec<Command>)
    ensures
        r@.len() == spec_table().len(),
        forall|i: int| 0 <= i < r@.len() ==> #[trigger] entry_of(r@[i]) == spec_table()[i],
        forall|i: int| 0 <= i < r@.len() ==> #[trigger] r@[i].name@ == spec_table_names()[i],
{
    let mut commands: Vec<Command> = Vec::new();
    commands.push(Command::new("id_request", 0x0b, 0x16, CommandKind::IdRequest));
    commands.push(Command::new("size_request", 0x0b, 0x14, CommandKind::SizeRequest));
    commands.push(Command::new("port_status", 0x03, 0x05, CommandKind::PortStatusRequest));
    commands.push(Command::new("system_status", 0x03, 0x10, CommandKind::SystemStatus));
    commands.push(Command::new("open_port", 0x03, 0x01, CommandKind::OpenPort));
    commands.push(Command::new("close_port", 0x02, 0x21, CommandKind::ClosePort));
    commands.push(Command::new("select_port", 0x02, 0x22, CommandKind::SelectPort));
    commands.push(Command::new("cue_with_data", 0x0a, 0x25, CommandKind::CueWithData));
    commands.push(Command::new("active_id_request", 0x0b, 0x07, CommandKind::ActiveIdRequest));
    commands.push(Command::new("play", 0x01, 0x01, CommandKind::Play));
    commands.push(Command::new("stop", 0x01, 0x00, CommandKind::Stop));
    commands
}

} // verus!
