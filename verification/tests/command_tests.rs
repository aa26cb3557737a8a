use std::sync::mpsc::channel;

use vdcp_bridge::responses::{get_commands, size_request, stop, unknown_command};
use vdcp_bridge::types::{
    ClipStatus, Message, Nibbles, PortConfig, PortStatus, Response,
};
use vdcp_bridge::vdcp::handle_command;

fn msg(command1: u8, command_code: u8, data: Vec<u8>) -> Message {
    Message {
        byte_count: (2 + data.len()) as u8,
        command1: Nibbles { byte: command1 },
        command_code,
        checksum: 0,
        data,
    }
}

fn port(number: u8, clips: Vec<Vec<u8>>) -> PortConfig {
    let (tx, rx) = channel();
    std::mem::forget(rx);
    PortConfig::new(number, clips, tx)
}

fn expect_message(r: Response) -> Vec<u8> {
    match r {
        Response::Message(d) => d,
        Response::Simple(_) => panic!("expected a framed reply"),
    }
}

#[test]
fn size_request_reads_the_duration_table() {
    // A 90-second clip at one-based index 1 comes back as 1 minute 30
    // seconds: frames|seconds|minutes|hours.
    let m = msg(0xb0, 0x14, vec![0x31]);
    let mut config = port(1, vec![b"clip".to_vec()]);
    let r = size_request(&m, &vec![90], &mut config);
    assert_eq!(expect_message(r), vec![0x00, 30, 1, 0x00]);
}

#[test]
fn size_request_out_of_range_answers_one_minute() {
    let mut config = port(1, vec![b"clip".to_vec()]);
    // Index past the table.
    let m = msg(0xb0, 0x14, vec![0x39]);
    let r = size_request(&m, &vec![90], &mut config);
    assert_eq!(expect_message(r), vec![0x00, 0x00, 0x01, 0x00]);
    // Empty payload.
    let m = msg(0xb0, 0x14, vec![]);
    let r = size_request(&m, &vec![90], &mut config);
    assert_eq!(expect_message(r), vec![0x00, 0x00, 0x01, 0x00]);
    // A last byte below the first ASCII digit the one-based scheme allows.
    let m = msg(0xb0, 0x14, vec![0x30]);
    let r = size_request(&m, &vec![90], &mut config);
    assert_eq!(expect_message(r), vec![0x00, 0x00, 0x01, 0x00]);
}

#[test]
fn stop_cycles_the_cue_pointer_back_to_zero() {
    let clips = vec![b"a".to_vec(), b"b".to_vec(), b"c".to_vec()];
    let mut config = port(1, clips);
    let m = msg(0x10, 0x00, vec![]);
    assert_eq!(config.cued_number, 0);
    for expected in [1u8, 2, 0] {
        let r = stop(&m, &vec![], &mut config);
        match r {
            Response::Simple(d) => assert_eq!(d, vec![0x04]),
            _ => panic!("stop must ACK bare"),
        }
        assert_eq!(config.cued_number, expected);
    }
}

#[test]
fn unknown_type_code_pairs_get_a_nak() {
    // A (type, code) pair the table does not know.
    let m = msg(0x70, 0x77, vec![]);
    let mut config = port(1, vec![b"a".to_vec()]);
    let out = handle_command(m, &vec![], &mut config);
    assert_eq!(out, vec![0x05, 0x01]);
    // The NAK path never touches the state.
    assert_eq!(config.cued_number, 0);
    assert_eq!(config.port_status, PortStatus::Idle);
}

#[test]
fn unknown_command_is_a_bare_nak() {
    let m = msg(0x70, 0x77, vec![]);
    match unknown_command(&m, 3) {
        Response::Simple(d) => assert_eq!(d, vec![0x05, 0x01]),
        _ => panic!("NAK must go out bare"),
    }
}

#[test]
fn select_port_then_port_status_reflects_the_new_number() {
    let mut config = port(1, vec![b"a".to_vec()]);
    let select = msg(0x20, 0x22, vec![0x07]);
    let out = handle_command(select, &vec![], &mut config);
    assert_eq!(out, vec![0x04]);
    assert_eq!(config.number, 0x07);

    let status = msg(0x30, 0x05, vec![]);
    let out = handle_command(status, &vec![], &mut config);
    assert_eq!(
        out,
        vec![0x02, 0x08, 0x30, 0x85, 0x05, 0x01, 0x07, 0x00, 0x00, 0x00, 0x3e]
    );
}

#[test]
fn play_triggers_the_relay_and_marks_the_port_playing() {
    let (tx, rx) = channel();
    let mut config = PortConfig::new(5, vec![b"a".to_vec()], tx);
    let m = msg(0x10, 0x01, vec![]);
    let out = handle_command(m, &vec![], &mut config);
    assert_eq!(out, vec![0x04]);
    assert_eq!(rx.try_recv(), Ok(5));
    assert_eq!(config.port_status, PortStatus::Playing);
}

#[test]
fn play_acks_even_when_the_relay_is_gone() {
    let mut config = port(5, vec![b"a".to_vec()]);
    // `port` dropped nothing, but build one whose receiver is dropped.
    let (tx, rx) = channel::<u8>();
    drop(rx);
    config.play_sender = tx;
    let m = msg(0x10, 0x01, vec![]);
    let out = handle_command(m, &vec![], &mut config);
    assert_eq!(out, vec![0x04]);
    assert_eq!(config.port_status, PortStatus::Playing);
}

#[test]
fn cue_marks_the_port_cued() {
    let mut config = port(1, vec![b"clip01".to_vec()]);
    let m = msg(0xa0, 0x25, vec![b'c', b'l', b'i', b'p', b'0', b'1']);
    let out = handle_command(m, &vec![], &mut config);
    assert_eq!(out, vec![0x04]);
    assert_eq!(config.port_status, PortStatus::Cued);
}

#[test]
fn active_id_names_the_cued_clip() {
    let mut config = port(1, vec![b"first".to_vec(), b"second".to_vec()]);
    let m = msg(0xb0, 0x07, vec![]);
    // Idle: a bare zero payload, framed.
    let out = handle_command(m, &vec![], &mut config);
    assert_eq!(out[4], 0x00);
    // Cued: a one followed by the cued clip's name.
    let cue = msg(0xa0, 0x25, vec![]);
    handle_command(cue, &vec![], &mut config);
    let m = msg(0xb0, 0x07, vec![]);
    let out = handle_command(m, &vec![], &mut config);
    assert_eq!(out[4], 0x01);
    assert_eq!(&out[5..10], b"first");
    // After a stop the cue pointer has moved on.
    let stop_msg = msg(0x10, 0x00, vec![]);
    handle_command(stop_msg, &vec![], &mut config);
    let cue = msg(0xa0, 0x25, vec![]);
    handle_command(cue, &vec![], &mut config);
    let m = msg(0xb0, 0x07, vec![]);
    let out = handle_command(m, &vec![], &mut config);
    assert_eq!(&out[5..11], b"second");
}

#[test]
fn system_status_reports_the_clip_flag() {
    let mut config = port(1, vec![b"a".to_vec()]);
    let m = msg(0x30, 0x10, vec![]);
    let out = handle_command(m, &vec![], &mut config);
    // Payload: [0x02, 0x00, clip flag].
    assert_eq!(&out[4..7], &[0x02, 0x00, 0x1f]);
    config.clip_status = ClipStatus::NoClips;
    let m = msg(0x30, 0x10, vec![]);
    let out = handle_command(m, &vec![], &mut config);
    assert_eq!(&out[4..7], &[0x02, 0x00, 0x00]);
}

#[test]
fn open_and_close_port_answer_their_fixed_bytes() {
    let mut config = port(1, vec![b"a".to_vec()]);
    let open = msg(0x30, 0x01, vec![]);
    let out = handle_command(open, &vec![], &mut config);
    assert_eq!(out, vec![0x02, 0x03, 0x30, 0x81, 0x01, 0x4e]);
    let close = msg(0x20, 0x21, vec![]);
    let out = handle_command(close, &vec![], &mut config);
    assert_eq!(out, vec![0x04]);
}

#[test]
fn id_request_confirms_the_clip() {
    let mut config = port(1, vec![b"a".to_vec()]);
    let m = msg(0xb0, 0x16, vec![b'x']);
    let out = handle_command(m, &vec![], &mut config);
    assert_eq!(&out[4..6], &[0x01, 0x00]);
}

#[test]
fn the_command_table_holds_the_protocol_dialect() {
    let commands = get_commands();
    let keys: Vec<(u8, u8)> = commands
        .iter()
        .map(|c| (c.command_type.data, c.command_code))
        .collect();
    assert_eq!(
        keys,
        vec![
            (0x0b, 0x16),
            (0x0b, 0x14),
            (0x03, 0x05),
            (0x03, 0x10),
            (0x03, 0x01),
            (0x02, 0x21),
            (0x02, 0x22),
            (0x0a, 0x25),
            (0x0b, 0x07),
            (0x01, 0x01),
            (0x01, 0x00),
        ]
    );
    assert_eq!(commands[0].name, "id_request");
    assert_eq!(commands[10].name, "stop");
}
