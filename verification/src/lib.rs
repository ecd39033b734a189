//! A monitor for Bambu Lab printers in LAN mode: the state kept from the
//! printer's MQTT reports, the HTTP API over it, the tray icon, and the stored
//! configuration.

use vstd::prelude::*;

pub mod stdtext;
pub mod text;
pub mod json;
pub mod printer;
pub mod report;
pub mod clock;
pub mod storage;
pub mod server;
pub mod mqtt;
pub mod http;
pub mod tray;

verus! {

} // verus!
