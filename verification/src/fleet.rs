//! The pure parts of the fleet driver: reading the client count from an
//! optional argument, choosing the target address, and the startup line.
//! Spawning the clients and racing the two task groups is transport
//! plumbing and stays outside the library.
use vstd::prelude::*;

use crate::digits::all_digits;
use crate::digits::dec_digits;
use crate::digits::dec_value;
use crate::digits::format_u128;
use crate::digits::parse_u128;

verus! {

/// The address used when none is given.
pub open spec fn default_address() -> Seq<char> {
    "ws://localhost:8080/chat"@
}

/// Read the desired client count from the first argument: absent means
/// one client; present, it must be a decimal number that fits, else the
/// run is refused.
pub fn parse_client_count(arg: Option<&str>) -> (r: Option<u32>)
    ensures
        match arg {
            None => r == Some(1u32),
            Some(s) => match r {
                Some(n) => s@.len() > 0 && all_digits(s@) && n as int == dec_value(s@),
                None => !(s@.len() > 0 && all_digits(s@) && dec_value(s@) <= u32::MAX),
            },
        },
{
    match arg {
        None => Some(1),
        Some(s) => {
            match parse_u128(s) {
                None => None,
                Some(n) => {
                    if n <= u32::MAX as u128 {
                        Some(n as u32)
                    } else {
                        None
                    }
                },
            }
        },
    }
}

/// The target address: the second argument when given, else the default.
pub fn target_address(arg: Option<String>) -> (r: String)
    ensures
        match arg {
            Some(s) => r@ == s@,
            None => r@ == default_address(),
        },
{
    match arg {
        Some(s) => s,
        None => "ws://localhost:8080/chat".to_owned(),
    }
}

/// The line announcing a run.
pub open spec fn startup_text(count: int, address: Seq<char>) -> Seq<char> {
    "Connecting "@ + dec_digits(count) + " clients to "@ + address
}

/// Render the line announcing a run.
pub fn startup_line(count: u32, address: &str) -> (r: String)
    ensures
        r@ == startup_text(count as int, address@),
{
    let mut out = "Connecting ".to_owned();
    out.append(format_u128(count as u128).as_str());
    out.append(" clients to ");
    out.append(address);
    out
}

} // verus!
