//! The values the bridge starts from: the command-line defaults, the fixed
//! serial read parameters, the resolution of the device name, and the text of
//! the bind address.

use vstd::prelude::*;
use crate::text::dec_chars;
use crate::text::dec_string;

verus! {

/// Baud rate used when none is given on the command line.
pub const DEFAULT_BAUD_RATE: u32 = 250000;

/// TCP port used when none is given on the command line.
pub const DEFAULT_NET_PORT: u32 = 9090;

/// Bytes per serial read attempt.
pub const SERIAL_READ_BUF_LEN: usize = 1024;

/// Milliseconds before a serial read gives up and reports a timeout.
pub const SERIAL_READ_TIMEOUT_MS: u64 = 10;

/// Bind IP used when none is given on the command line.
pub fn default_bind_ip() -> (s: &'static str)
    ensures
        s@ == "0.0.0.0"@,
{
    "0.0.0.0"
}

/// The serial device to use: the requested name when one was given, otherwise
/// the first enumerated device, and none when neither exists (the bridge then
/// cannot start).
pub fn resolve_port_name(requested: String, first_available: Option<String>) -> (r: Option<
    String,
>)
    ensures
        requested@.len() > 0 ==> r == Some(requested),
        requested@.len() == 0 ==> r == first_available,
{
    if requested.as_str().is_empty() {
        first_available
    } else {
        Some(requested)
    }
}

/// The `ip:port` text handed to the TCP bind call.
pub fn bind_address(ip: &str, port: u32) -> (s: String)
    ensures
        s@ == ip@ + ":"@ + dec_chars(port as nat),
{
    let s = String::from_str(ip);
    let s = s.concat(":");
    let s = s.concat(dec_string(port as u64).as_str());
    s
}

/// The start-up line naming the device and baud rate in use.
pub fn device_banner(port: &str, bauds: u32) -> (s: String)
    ensures
        s@ == "Using serial port "@ + port@ + " at "@ + dec_chars(bauds as nat),
{
    let s = String::from_str("Using serial port ");
    let s = s.concat(port);
    let s = s.concat(" at ");
    let s = s.concat(dec_string(bauds as u64).as_str());
    s
}

/// The start-up line naming the bound address.
pub fn listening_banner(ip: &str, port: u32) -> (s: String)
    ensures
        s@ == "listening at "@ + ip@ + ":"@ + dec_chars(port as nat),
{
    let s = String::from_str("listening at ");
    let s = s.concat(ip);
    let s = s.concat(":");
    let s = s.concat(dec_string(port as u64).as_str());
    s
}

} // verus!
