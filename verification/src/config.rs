//! The static configuration the process loads at startup, as plain values:
//! the serial ports to serve, the output mapping and module addresses for
//! the relay, and the tunable delays.

use vstd::prelude::*;
use crate::adam::{AdamCommand, Ipv4};

verus! {

/// One serial port to serve: the device id, the VDCP port number announced
/// on it, a display name, and the ordered clip-name segments.
#[derive(Clone, Debug)]
pub struct VDCPPort {
    pub port: String,
    pub number: u8,
    pub name: String,
    pub segments: Vec<String>,
}

/// The tunable delays, in milliseconds: the pause after a start byte before
/// the rest of a frame is read, the relay's coalescing window, and the gap
/// between the "on" and "off" halves of a pulse.
#[derive(Clone, Copy, Debug, PartialEq, Eq, Structural)]
pub struct Delays {
    pub data_read: u64,
    pub adam_command_buffer: u64,
    pub adam_pulse_off: u64,
}

impl Default for Delays {
    /// The stock delays: 10 ms before reading on, an 11 ms coalescing
    /// window, and 20 ms between the halves of a pulse.
    fn default() -> (r: Self)
        ensures
            r == (Delays { data_read: 10u64, adam_command_buffer: 11u64, adam_pulse_off: 20u64 }),
    {
        Self { data_read: 10, adam_command_buffer: 11, adam_pulse_off: 20 }
    }
}

/// The whole static configuration.
#[derive(Clone, Debug)]
pub struct Config {
    pub ports: Vec<VDCPPort>,
    pub adam_output_mapping: Vec<(u8, AdamCommand)>,
    pub adam_ips: Vec<(u8, Ipv4)>,
    pub delays: Delays,
}

impl Default for Config {
    /// An empty configuration with the stock delays.
    fn default() -> (r: Self)
        ensures
            r.ports@.len() == 0,
            r.adam_output_mapping@.len() == 0,
            r.adam_ips@.len() == 0,
            r.delays == (Delays {
                data_read: 10u64,
                adam_command_buffer: 11u64,
                adam_pulse_off: 20u64,
            }),
    {
        Self {
            ports: Vec::new(),
            adam_ips: Vec::new(),
            adam_output_mapping: Vec::new(),
            delays: Delays { data_read: 10, adam_command_buffer: 11, adam_pulse_off: 20 },
        }
    }
}

} // verus!
