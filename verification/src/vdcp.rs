//! Command dispatch: matches a decoded frame against the ordered command
//! table, runs the matched handler against the port state, and frames the
//! reply for the wire.

use vstd::prelude::*;
use crate::codec::{encode, encode_spec};
use crate::responses::{
    entry_of, get_commands, nak_resp, run_handler, spec_handler_resp, spec_handler_state,
    spec_table, unknown_command,
};
use crate::types::{Command, CommandKind, Message, MessageModel, PortConfig, PortModel, RespModel, Response};

verus! {

/// Whether a table entry's (type, code) key equals the decoded message's.
pub open spec fn spec_matches(e: (u8, u8, CommandKind), m: MessageModel) -> bool {
    m.command_type() == e.0 && m.command_code == e.1
}

/// The dispatch keys of a command list, in list order.
pub open spec fn entries_of(cs: Seq<Command>) -> Seq<(u8, u8, CommandKind)> {
    cs.map_values(|c: Command| entry_of(c))
}

/// The first entry of the table whose key matches the message, if any:
/// dispatch order is table order.
pub open spec fn table_lookup(t: Seq<(u8, u8, CommandKind)>, m: MessageModel) -> Option<
    CommandKind,
>
    decreases t.len(),
{
    if t.len() == 0 {
        None
    } else if spec_matches(t[0], m) {
        Some(t[0].2)
    } else {
        table_lookup(t.drop_first(), m)
    }
}

/// Looking a message up in a table whose first `i` entries do not match it
/// looks it up in the rest of the table.
pub proof fn lemma_lookup_skip(t: Seq<(u8, u8, CommandKind)>, m: MessageModel, i: int)
    requires
        0 <= i <= t.len(),
        forall|j: int| 0 <= j < i ==> !spec_matches(t[j], m),
    ensures
        table_lookup(t, m) == table_lookup(t.skip(i), m),
    decreases i,
{
    if i > 0 {
        lemma_lookup_skip(t.drop_first(), m, i - 1);
        assert(t.drop_first().skip(i - 1) =~= t.skip(i));
    } else {
        assert(t.skip(0) =~= t);
    }
}

/// What dispatching a message replies, over a given table: the matched
/// handler's reply, or a NAK when nothing matches.
pub open spec fn spec_run_resp(
    t: Seq<(u8, u8, CommandKind)>,
    m: MessageModel,
    times: Seq<u16>,
    s: PortModel,
) -> RespModel {
    match table_lookup(t, m) {
        Some(k) => spec_handler_resp(k, m, times, s),
        None => nak_resp(),
    }
}

/// What dispatching a message does to the port state, over a given table:
/// the matched handler's change, or nothing when nothing matches.
pub open spec fn spec_run_state(
    t: Seq<(u8, u8, CommandKind)>,
    m: MessageModel,
    s: PortModel,
) -> PortModel {
    match table_lookup(t, m) {
        Some(k) => spec_handler_state(k, m, s),
        None => s,
    }
}

/// Walks the table in order and runs the first command whose (type, code)
/// key equals the decoded message's; anything unmatched is answered with a
/// NAK and leaves the port state alone.
pub fn run_command(
    message: &Message,
    commands: &Vec<Command>,
    clip_times: &Vec<u16>,
    config: &mut PortConfig,
) -> (r: Response)
    requires
        old(config)@.wf(),
    ensures
        r@ == spec_run_resp(entries_of(commands@), message@, clip_times@, old(config)@),
        final(config)@ == spec_run_state(entries_of(commands@), message@, old(config)@),
        final(config)@.wf(),
        final(config).play_sender == old(config).play_sender,
{
    let ghost t = entries_of(commands@);
    let mut i: usize = 0;
    while i < commands.len()
        invariant
            0 <= i <= commands@.len(),
            t == entries_of(commands@),
            forall|j: int| 0 <= j < i ==> !spec_matches(t[j], message@),
            *config == *old(config),
            config@.wf(),
        decreases commands@.len() - i,
    {
        let command = &commands[i];
        if message.command1.n2() == command.command_type.data
            && message.command_code == command.command_code {
            proof {
                lemma_lookup_skip(t, message@, i as int);
                assert(t.skip(i as int)[0] == t[i as int]);
                assert(table_lookup(t, message@) == Some(command.action));
            }
            return run_handler(command.action, message, clip_times, config);
        }
        i = i + 1;
    }
    proof {
        lemma_lookup_skip(t, message@, t.len() as int);
        assert(t.skip(t.len() as int) =~= Seq::<(u8, u8, CommandKind)>::empty());
        assert(table_lookup(t, message@) is None);
    }
    unknown_command(message, config.number)
}

/// What dispatch through the fixed command table replies.
pub open spec fn spec_dispatch_resp(m: MessageModel, times: Seq<u16>, s: PortModel) -> RespModel {
    spec_run_resp(spec_table(), m, times, s)
}

/// What dispatch through the fixed command table does to the port state.
pub open spec fn spec_dispatch_state(m: MessageModel, s: PortModel) -> PortModel {
    spec_run_state(spec_table(), m, s)
}

/// The bytes a decoded message is answered with on the wire: the dispatch
/// reply, framed by the codec (a `Simple` reply goes out bare).
pub open spec fn spec_handle(m: MessageModel, times: Seq<u16>, s: PortModel) -> Seq<u8> {
    encode_spec(m, spec_dispatch_resp(m, times, s))
}

/// Answers one decoded frame: looks it up in the command table, lets the
/// matched handler read and change the port state, and returns the bytes to
/// write back on the wire.
pub fn handle_command(msg: Message, clip_times: &Vec<u16>, config: &mut PortConfig) -> (r: Vec<
    u8,
>)
    requires
        old(config)@.wf(),
    ensures
        r@ == spec_handle(msg@, clip_times@, old(config)@),
        final(config)@ == spec_dispatch_state(msg@, old(config)@),
        final(config)@.wf(),
        final(config).play_sender == old(config).play_sender,
{
    let commands = get_commands();
    proof {
        assert(entries_of(commands@) =~= spec_table());
    }
    let response = run_command(&msg, &commands, clip_times, config);
    encode(&msg, response)
}

/// Anything whose (type, code) pair the fixed table does not know is
/// answered with a bare NAK on the wire and leaves the port state untouched.
pub proof fn lemma_unmatched_gives_nak(m: MessageModel, times: Seq<u16>, s: PortModel)
    requires
        forall|j: int| 0 <= j < spec_table().len() ==> !spec_matches(#[trigger] spec_table()[j], m),
    ensures
        spec_handle(m, times, s) == seq![0x05u8, 0x01u8],
        spec_dispatch_state(m, s) == s,
{
    lemma_lookup_skip(spec_table(), m, spec_table().len() as int);
    assert(spec_table().skip(spec_table().len() as int) =~= Seq::<(u8, u8, CommandKind)>::empty());
}

/// Selecting a port and then asking for port status answers with the newly
/// selected number: the select rebinds the port identity, and the status
/// reply's third byte carries it.
pub proof fn lemma_select_then_port_status(
    sel: MessageModel,
    stat: MessageModel,
    times: Seq<u16>,
    s: PortModel,
)
    requires
        sel.command_type() == 0x02 && sel.command_code == 0x22,
        sel.data.len() > 0,
        stat.command_type() == 0x03 && stat.command_code == 0x05,
    ensures
        spec_dispatch_state(sel, s).number == sel.data[0],
        spec_dispatch_resp(stat, times, spec_dispatch_state(sel, s)) == RespModel::Message(
            seq![
                0x05u8,
                s.port_status.spec_code(),
                sel.data[0],
                0u8,
                0u8,
                0u8,
            ],
        ),
{
    let t = spec_table();
    assert(table_lookup(t, sel) == Some(CommandKind::SelectPort)) by {
        assert(forall|j: int| 0 <= j < 6 ==> !spec_matches(#[trigger] t[j], sel));
        lemma_lookup_skip(t, sel, 6);
        assert(t.skip(6)[0] == t[6]);
    }
    let s1 = spec_dispatch_state(sel, s);
    assert(table_lookup(t, stat) == Some(CommandKind::PortStatusRequest)) by {
        assert(forall|j: int| 0 <= j < 2 ==> !spec_matches(#[trigger] t[j], stat));
        lemma_lookup_skip(t, stat, 2);
        assert(t.skip(2)[0] == t[2]);
    }
}

} // verus!
