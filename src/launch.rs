//! Start-up: reading the command line, and the one-byte protocol by which a
//! second instance hands its open location to the running one.

use vstd::prelude::*;
use crate::events::{ApplicationOpenLocation, EventLoopMessage};

verus! {

/// What `str::to_lowercase` makes of a text.
pub uninterp spec fn lower_of(s: Seq<char>) -> Seq<char>;

/// Relies on `str::to_lowercase`: the result depends on the characters
/// alone.
#[verifier::external_body]
pub(crate) fn lowercase(s: &str) -> (r: String)
    ensures
        r@ == lower_of(s@),
{
    s.to_lowercase()
}

/// Whether a lower-cased argument asks for launcher mode.
pub fn is_launcher_flag(lowered: &str) -> (r: bool)
    ensures
        r == (lowered@ == "--launcher"@),
{
    String::from_str(lowered) == String::from_str("--launcher")
}

/// Which open-location flag a lower-cased argument is: `--generate` is 0,
/// `--retrieve` is 1.
pub open spec fn location_flag_index(lowered: Seq<char>) -> Option<usize> {
    if lowered == "--generate"@ {
        Some(0usize)
    } else if lowered == "--retrieve"@ {
        Some(1usize)
    } else {
        None
    }
}

/// Finds a lower-cased argument among the open-location flags.
pub fn location_flag_position(lowered: &str) -> (r: Option<usize>)
    ensures
        r == location_flag_index(lowered@),
{
    let lowered = String::from_str(lowered);
    if lowered == String::from_str("--generate") {
        Some(0)
    } else if lowered == String::from_str("--retrieve") {
        Some(1)
    } else {
        None
    }
}

/// Whether the process was started in launcher mode: its first argument
/// after the program is `--launcher`, in any case.
pub fn check_start_with_launcher(args: &Vec<String>) -> (r: bool)
    ensures
        r == (args.len() > 1 && lower_of(args[1]@) == "--launcher"@),
{
    if args.len() <= 1 {
        return false;
    }
    let lowered = lowercase(args[1].as_str());
    is_launcher_flag(lowered.as_str())
}

/// Which open-location flag the first argument after the program is, if
/// any.
pub fn check_aol_argument(args: &Vec<String>) -> (r: Option<usize>)
    ensures
        r == (if args.len() > 1 { location_flag_index(lower_of(args[1]@)) } else { None::<usize> }),
{
    if args.len() <= 1 {
        return None;
    }
    let lowered = lowercase(args[1].as_str());
    location_flag_position(lowered.as_str())
}

/// The open location that a flag index stands for.
pub open spec fn location_of_flag(index: Option<usize>) -> ApplicationOpenLocation {
    match index {
        Some(0) => ApplicationOpenLocation::Generate,
        Some(1) => ApplicationOpenLocation::Retrieve,
        _ => ApplicationOpenLocation::Auto,
    }
}

/// Where the command line asks the interface to open.
pub fn get_applicaton_open_location(args: &Vec<String>) -> (r: ApplicationOpenLocation)
    ensures
        r == location_of_flag(if args.len() > 1 { location_flag_index(lower_of(args[1]@)) } else { None::<usize> }),
{
    match check_aol_argument(args) {
        Some(0) => ApplicationOpenLocation::Generate,
        Some(1) => ApplicationOpenLocation::Retrieve,
        _ => ApplicationOpenLocation::Auto,
    }
}

/// The byte that carries an open location over the activation pipe.
pub open spec fn activation_byte(aol: ApplicationOpenLocation) -> u8 {
    match aol {
        ApplicationOpenLocation::Auto => 0x42,
        ApplicationOpenLocation::Generate => 0x44,
        ApplicationOpenLocation::Retrieve => 0x46,
    }
}

/// The open location that an activation byte carries, if any.
pub open spec fn location_of_byte(b: u8) -> Option<ApplicationOpenLocation> {
    if b == 0x42 {
        Some(ApplicationOpenLocation::Auto)
    } else if b == 0x44 {
        Some(ApplicationOpenLocation::Generate)
    } else if b == 0x46 {
        Some(ApplicationOpenLocation::Retrieve)
    } else {
        None
    }
}

/// The byte that a second instance writes to the running one's pipe to ask
/// it to open at `aol`.
pub fn notify_window_process(aol: ApplicationOpenLocation) -> (payload: u8)
    ensures
        payload == activation_byte(aol),
{
    match aol {
        ApplicationOpenLocation::Auto => 0x42,
        ApplicationOpenLocation::Generate => 0x44,
        ApplicationOpenLocation::Retrieve => 0x46,
    }
}

/// What the running instance posts to its control loop for a byte read from
/// the activation pipe: a request to open the window, or nothing for a byte
/// that carries no location.
pub fn activation_event(b: u8) -> (r: Option<EventLoopMessage>)
    ensures
        match location_of_byte(b) {
            Some(aol) => r matches Some(EventLoopMessage::ApplicationOpenWindow(l)) && l == aol,
            None => r is None,
        },
{
    if b == 0x42 {
        Some(EventLoopMessage::ApplicationOpenWindow(ApplicationOpenLocation::Auto))
    } else if b == 0x44 {
        Some(EventLoopMessage::ApplicationOpenWindow(ApplicationOpenLocation::Generate))
    } else if b == 0x46 {
        Some(EventLoopMessage::ApplicationOpenWindow(ApplicationOpenLocation::Retrieve))
    } else {
        None
    }
}

/// A second instance forwards the location its command line asks for, and
/// the running instance reads back exactly that location: one request to
/// open the window, at the same place.
pub proof fn lemma_activation_round_trip(args: Seq<Seq<char>>)
    ensures
        ({
            let aol = location_of_flag(if args.len() > 1 { location_flag_index(lower_of(args[1])) } else { None::<usize> });
            location_of_byte(activation_byte(aol)) == Some(aol)
        }),
{
}

} // verus!
