//! Native half of a desktop application whose interface runs in an embedded
//! web view: the script bridge, its channels and the control loop's decisions.

pub mod autostart;
pub mod channels;
pub mod codec;
pub mod commands;
pub mod config;
pub mod dialog;
pub mod events;
pub mod ipc;
pub mod launch;
pub mod lifecycle;
pub mod text;
