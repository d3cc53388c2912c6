//! Handlers of the commands that only post to the control loop, and the
//! mappings from tray clicks and bundled file types.

use vstd::prelude::*;
use crate::codec::callback_script;
use crate::events::{ApplicationOpenLocation, EventLoopMessage, WindowButton};
use crate::ipc::{
    deserialize_arguments, integer_at, integer_in, integer_within, json_string, json_string_of,
    not_an_array_message, Argument, Invoke, Post,
};
use crate::launch::{lower_of, lowercase};

verus! {

/// The error text for a system-menu request without two integer
/// coordinates.
pub open spec fn bad_position_message() -> Seq<char> {
    "windowShowSysMenu expects two 32-bit integer coordinates"@
}

/// Handles `windowShowSysMenu`: where the first two arguments are integers
/// that fit 32 bits, the control loop is to be asked to open the system menu
/// at that screen position, and the call waits on that post; else the call is
/// rejected at once.
pub fn window_show_sys_menu(invoke: Invoke) -> (r: Result<Post, String>)
    ensures
        match invoke.message.payload {
            Argument::Array(args) => {
                let x = integer_at(args@, 0);
                let y = integer_at(args@, 1);
                if integer_within(x, i32::MIN as int, i32::MAX as int)
                    && integer_within(y, i32::MIN as int, i32::MAX as int) {
                    r matches Ok(post)
                        && post.event matches EventLoopMessage::WindowShowSysMenu { x: px, y: py }
                        && px == x->0 && py == y->0
                        && post.resolver == invoke.resolver
                } else {
                    r matches Err(script) && script@ == callback_script(
                        invoke.resolver.error_handle().0 as nat,
                        json_string_of(bad_position_message()),
                    )
                }
            },
            _ => r matches Err(script) && script@ == callback_script(
                invoke.resolver.error_handle().0 as nat,
                json_string_of(not_an_array_message()),
            ),
        },
{
    let (arguments, resolver) = match deserialize_arguments(invoke) {
        Ok(parts) => parts,
        Err(script) => return Err(script),
    };
    let x = integer_in(&arguments, 0, i32::MIN as i128, i32::MAX as i128);
    let y = integer_in(&arguments, 1, i32::MIN as i128, i32::MAX as i128);
    match (x, y) {
        (Some(x), Some(y)) => Ok(Post { event: EventLoopMessage::WindowShowSysMenu { x: x as i32, y: y as i32 }, resolver }),
        _ => {
            let message = json_string("windowShowSysMenu expects two 32-bit integer coordinates");
            Err(resolver.reject(message.as_str()))
        },
    }
}

/// What the window's activation message means, by its first parameter:
/// 1 or 2 is focus, 0 is blur, anything else is minimize.
pub fn activate_message(wparam: usize) -> (r: EventLoopMessage)
    ensures
        wparam == 1 || wparam == 2 ==> r is WindowFocus,
        wparam == 0 ==> r is WindowBlur,
        wparam > 2 ==> r is WindowMinimize,
{
    if wparam == 1 || wparam == 2 {
        EventLoopMessage::WindowFocus
    } else if wparam == 0 {
        EventLoopMessage::WindowBlur
    } else {
        EventLoopMessage::WindowMinimize
    }
}

/// Handles a window button: the control loop is to be asked to act on
/// `message`, and the call waits on that post.
pub fn handle_window_buttons(invoke: Invoke, message: WindowButton) -> (r: Post)
    ensures
        r.event matches EventLoopMessage::WindowSysCommand(b) && b == message,
        r.resolver == invoke.resolver,
{
    Post { event: EventLoopMessage::WindowSysCommand(message), resolver: invoke.resolver }
}

/// A click on the tray icon or its menu.
#[derive(Debug, Clone, Copy, PartialEq, Eq, Structural)]
pub enum TrayEvent {
    LeftClick,
    MenuItemClick(u16),
    Other,
}

/// What a tray click asks of the control loop: a left click or the "open"
/// item opens the window, the "quit" item quits, anything else nothing.
pub fn tray_message(event: TrayEvent, open: u16, quit: u16) -> (r: Option<EventLoopMessage>)
    ensures
        match event {
            TrayEvent::LeftClick => r matches Some(EventLoopMessage::ApplicationOpenWindow(l))
                && l == ApplicationOpenLocation::Auto,
            TrayEvent::MenuItemClick(id) => if id == open {
                r matches Some(EventLoopMessage::ApplicationOpenWindow(l)) && l == ApplicationOpenLocation::Auto
            } else if id == quit {
                r matches Some(EventLoopMessage::ApplicationQuit)
            } else {
                r is None
            },
            TrayEvent::Other => r is None,
        },
{
    match event {
        TrayEvent::LeftClick => Some(EventLoopMessage::ApplicationOpenWindow(ApplicationOpenLocation::Auto)),
        TrayEvent::MenuItemClick(id) => {
            if id == open {
                Some(EventLoopMessage::ApplicationOpenWindow(ApplicationOpenLocation::Auto))
            } else if id == quit {
                Some(EventLoopMessage::ApplicationQuit)
            } else {
                None
            }
        },
        TrayEvent::Other => None,
    }
}

/// The media type served for a lower-cased file extension of the bundle.
pub open spec fn mime_type_of(lowered: Seq<char>) -> Option<Seq<char>> {
    if lowered == "html"@ {
        Some("text/html"@)
    } else if lowered == "svg"@ {
        Some("image/svg+xml"@)
    } else if lowered == "ttf"@ {
        Some("font/ttf"@)
    } else if lowered == "js"@ {
        Some("text/javascript"@)
    } else if lowered == "css"@ {
        Some("text/css"@)
    } else {
        None
    }
}

/// The media type for a lower-cased extension.
pub fn mime_type_for_lowered(lowered: &str) -> (r: Option<String>)
    ensures
        match mime_type_of(lowered@) {
            Some(m) => r matches Some(s) && s@ == m,
            None => r is None,
        },
{
    let e = String::from_str(lowered);
    if e == String::from_str("html") {
        Some(String::from_str("text/html"))
    } else if e == String::from_str("svg") {
        Some(String::from_str("image/svg+xml"))
    } else if e == String::from_str("ttf") {
        Some(String::from_str("font/ttf"))
    } else if e == String::from_str("js") {
        Some(String::from_str("text/javascript"))
    } else if e == String::from_str("css") {
        Some(String::from_str("text/css"))
    } else {
        None
    }
}

/// The media type for a file extension, in any case; none for a type the
/// bundle does not serve.
pub fn mime_type(extension: &str) -> (r: Option<String>)
    ensures
        match mime_type_of(lower_of(extension@)) {
            Some(m) => r matches Some(s) && s@ == m,
            None => r is None,
        },
{
    let lowered = lowercase(extension);
    mime_type_for_lowered(lowered.as_str())
}

} // verus!
