//! The logic of a Chorograph plugin that runs an `opencode` server and shows its client.
//!
//! `startup::init` starts the server and the client, `actions::handle_action` carries out what
//! the host asks for. Both only decide: they return what the host is to do, and what comes of it
//! goes back to the library as plain values.
use vstd::prelude::*;

pub mod action_laws;
pub mod actions;
pub mod armor;
pub mod document;
pub mod event_laws;
pub mod events;
pub mod host;
pub mod init_laws;
pub mod json;
pub mod number;
pub mod plugin;
pub mod plugin_laws;
pub mod port;
pub mod port_laws;
pub mod scan_laws;
pub mod sse;
pub mod start_laws;
pub mod startup;
pub mod stream_laws;
pub mod text;
pub mod ui;
pub mod value_laws;

verus! {

} // verus!
