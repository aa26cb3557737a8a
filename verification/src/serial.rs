//! The decision core of the serial transport loop: the clip-duration
//! freshness deadline. The loop itself (opening the device, reading bytes,
//! writing replies, sleeping) lives outside the library and hands in plain
//! values: the milliseconds of its clock and the decoded frames.

use vstd::prelude::*;
use crate::types::{ClipStatus, PortConfig, PortModel};

verus! {

/// Notes the arrival of a fresh duration batch: the clip flag drops to
/// `NoClips` and the freshness deadline is armed at `now` (milliseconds on
/// the caller's clock).
pub fn resend_times(config: &mut PortConfig, timeout: &mut Option<u64>, now: u64)
    ensures
        final(config)@ == (PortModel { clip_status: ClipStatus::NoClips, ..old(config)@ }),
        final(config).play_sender == old(config).play_sender,
        *final(timeout) == Some(now),
{
    config.clip_status = ClipStatus::NoClips;
    *timeout = Some(now);
}

/// Whether an armed freshness deadline has expired by `now`: more than
/// `timeout_length` milliseconds have passed since it was armed (a clock
/// that reads earlier than the arming counts as no time passed).
pub open spec fn deadline_expired(timeout: Option<u64>, timeout_length: u64, now: u64) -> bool {
    match timeout {
        Some(armed) => now >= armed && now - armed > timeout_length,
        None => false,
    }
}

/// Checks the freshness deadline: once `timeout_length` milliseconds have
/// elapsed since it was armed, the clip flag reverts to `Clips` and the
/// deadline is cleared; otherwise nothing changes.
pub fn check_timeout(
    timeout: &mut Option<u64>,
    timeout_length: u64,
    now: u64,
    config: &mut PortConfig,
)
    ensures
        deadline_expired(*old(timeout), timeout_length, now) ==> {
            &&& *final(timeout) == None::<u64>
            &&& final(config)@ == (PortModel { clip_status: ClipStatus::Clips, ..old(config)@ })
        },
        !deadline_expired(*old(timeout), timeout_length, now) ==> {
            &&& *final(timeout) == *old(timeout)
            &&& *final(config) == *old(config)
        },
        final(config).play_sender == old(config).play_sender,
{
    match *timeout {
        Some(armed) => {
            if now >= armed && now - armed > timeout_length {
                *timeout = None;
                config.clip_status = ClipStatus::Clips;
            }
        },
        None => {},
    }
}

} // verus!
