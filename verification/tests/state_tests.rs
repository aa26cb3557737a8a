use std::sync::mpsc::channel;

use vdcp_bridge::config::{Config, Delays};
use vdcp_bridge::serial::{check_timeout, resend_times};
use vdcp_bridge::types::{ClipStatus, PortConfig, PortStatus};

fn port(number: u8, clips: Vec<Vec<u8>>) -> PortConfig {
    let (tx, rx) = channel();
    std::mem::forget(rx);
    PortConfig::new(number, clips, tx)
}

#[test]
fn new_ports_start_idle_at_the_first_clip() {
    let config = port(3, vec![b"a".to_vec(), b"b".to_vec()]);
    assert_eq!(config.number, 3);
    assert_eq!(config.port_status, PortStatus::Idle);
    assert_eq!(config.clip_status, ClipStatus::Clips);
    assert_eq!(config.cued_number, 0);
    assert_eq!(config.clips.len(), 2);
}

#[test]
fn next_clip_wraps_past_the_last() {
    let mut config = port(1, vec![b"a".to_vec(), b"b".to_vec()]);
    config.next_clip();
    assert_eq!(config.cued_number, 1);
    config.next_clip();
    assert_eq!(config.cued_number, 0);
}

#[test]
fn get_cued_clip_reads_under_the_pointer() {
    let mut config = port(1, vec![b"a".to_vec(), b"b".to_vec()]);
    assert_eq!(config.get_cued_clip(), b"a".to_vec());
    config.next_clip();
    assert_eq!(config.get_cued_clip(), b"b".to_vec());
}

#[test]
fn wire_codes_match_the_protocol() {
    assert_eq!(PortStatus::Idle.code(), 0x01);
    assert_eq!(PortStatus::Cued.code(), 0x80);
    assert_eq!(PortStatus::Playing.code(), 0x04);
    assert_eq!(ClipStatus::Clips.code(), 0x1f);
    assert_eq!(ClipStatus::NoClips.code(), 0x00);
}

#[test]
fn fresh_times_drop_the_clip_flag_and_arm_the_deadline() {
    let mut config = port(1, vec![b"a".to_vec()]);
    let mut deadline: Option<u64> = None;
    resend_times(&mut config, &mut deadline, 1_000);
    assert_eq!(config.clip_status, ClipStatus::NoClips);
    assert_eq!(deadline, Some(1_000));
}

#[test]
fn the_deadline_expires_after_its_length() {
    let mut config = port(1, vec![b"a".to_vec()]);
    let mut deadline: Option<u64> = None;
    resend_times(&mut config, &mut deadline, 1_000);

    // Not yet: exactly at the boundary nothing changes.
    check_timeout(&mut deadline, 20_000, 21_000, &mut config);
    assert_eq!(deadline, Some(1_000));
    assert_eq!(config.clip_status, ClipStatus::NoClips);

    // One past the boundary: the flag reverts and the deadline clears.
    check_timeout(&mut deadline, 20_000, 21_001, &mut config);
    assert_eq!(deadline, None);
    assert_eq!(config.clip_status, ClipStatus::Clips);

    // With no deadline armed nothing ever changes.
    check_timeout(&mut deadline, 20_000, 99_999, &mut config);
    assert_eq!(deadline, None);
    assert_eq!(config.clip_status, ClipStatus::Clips);
}

#[test]
fn stock_delays() {
    let delays = Delays::default();
    assert_eq!(delays.data_read, 10);
    assert_eq!(delays.adam_command_buffer, 11);
    assert_eq!(delays.adam_pulse_off, 20);
}

#[test]
fn the_default_config_is_empty() {
    let config = Config::default();
    assert_eq!(config.ports.len(), 0);
    assert_eq!(config.adam_output_mapping.len(), 0);
    assert_eq!(config.adam_ips.len(), 0);
    assert_eq!(config.delays, Delays::default());
}

#[test]
fn the_longest_clip_list_still_cycles() {
    let clips: Vec<Vec<u8>> = (0..255u32).map(|i| vec![(i % 251) as u8]).collect();
    let mut config = port(1, clips);
    for _ in 0..255 {
        config.next_clip();
    }
    assert_eq!(config.cued_number, 0);
}
