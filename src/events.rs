//! The stimuli that the control loop reacts to.

use vstd::prelude::*;
use crate::channels::ChannelId;
use crate::ipc::ChannelHandshakeRequest;

verus! {

/// Where the interface should open when the window is revealed.
#[derive(Debug, Clone, Copy, PartialEq, Eq, Structural)]
pub enum ApplicationOpenLocation {
    Auto,
    Generate,
    Retrieve,
}

/// The window buttons that the interface draws itself.
#[derive(Debug, Clone, Copy, PartialEq, Eq, Structural)]
pub enum WindowButton {
    Close,
    Minimize,
}

/// One message of the control loop's inbox.
#[derive(Debug, Clone)]
pub enum EventLoopMessage {
    WebAppInit,
    PageContentLoaded,
    EstablishChannel(ChannelHandshakeRequest),
    CloseChannel(ChannelId),
    WindowShowSysMenu { x: i32, y: i32 },
    WindowSysCommand(WindowButton),
    WindowFocus,
    WindowBlur,
    WindowMinimize,
    ApplicationQuit,
    ApplicationOpenWindow(ApplicationOpenLocation),
    ApplicationCloseWindow,
}

} // verus!
