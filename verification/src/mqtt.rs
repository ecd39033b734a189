//! The decisions of the MQTT client loop: when and how to connect, and what
//! each event from the broker does to the state.

use vstd::prelude::*;
use crate::json::JsonValue;
use crate::printer::{PrinterState, PrinterStateView};
use crate::report::{print_section, process_mqtt_payload, report_readable, updated_state};
use crate::clock::is_clock_text;
use crate::server::{PrinterConfig, ServerStatus, StatusEvent, status_after};
use crate::text::owned;

verus! {

/// The printer's MQTT port (TLS).
pub const MQTT_PORT: u16 = 8883;

/// The keep-alive interval asked of the broker, in seconds.
pub const KEEP_ALIVE_SECS: u64 = 30;

/// The user name the printer accepts with its access code.
pub const MQTT_USERNAME: &'static str = "bblp";

/// The request that asks the printer for a full report.
pub const PUSHALL_REQUEST: &'static str = "{\"pushing\":{\"sequence_id\":\"0\",\"command\":\"pushall\"}}";

/// The request that asks the printer for its versions.
pub const GET_VERSION_REQUEST: &'static str = "{\"info\":{\"sequence_id\":\"0\",\"command\":\"get_version\"}}";

/// How long to wait after a lost connection before trying again.
pub const RECONNECT_DELAY_MILLIS: u64 = 5000;

/// A text in the form of a hyphenated UUID: 36 characters, hyphens at
/// positions 8, 13, 18 and 23.
pub open spec fn is_uuid_text(s: Seq<char>) -> bool {
    &&& s.len() == 36
    &&& s[8] == '-' && s[13] == '-' && s[18] == '-' && s[23] == '-'
}

/// A fresh random (version 4) UUID from `uuid::Uuid::new_v4`, written in the
/// hyphenated form. Which UUID it is is not stated, only the form. uuid
/// panics where the system cannot supply random bytes.
#[verifier::external_body]
fn random_uuid_text() -> (r: String)
    ensures
        is_uuid_text(r@),
{
    uuid::Uuid::new_v4().to_string()
}

/// How to connect to the printer.
#[derive(Debug)]
pub struct ConnectPlan {
    pub host: String,
    pub port: u16,
    pub client_id: String,
    pub keep_alive_secs: u64,
    pub clean_session: bool,
    /// User name and password, where there is an access code.
    pub credentials: Option<(String, String)>,
    /// The topic the printer reports on.
    pub report_topic: String,
    /// The topic the printer takes requests on.
    pub request_topic: String,
}

/// What the MQTT loop does next.
#[derive(Debug)]
pub enum ConnectionStep {
    /// Nothing to do: wait half a second and ask again.
    Idle,
    /// Host or serial number is missing: wait two seconds and ask again.
    WaitForConfig,
    /// Connect as the plan says.
    Connect(ConnectPlan),
}

impl ConnectionStep {
    /// How long to wait before asking again, in milliseconds.
    pub fn pause_millis(&self) -> (r: u64)
        ensures
            r == match self {
                ConnectionStep::Idle => 500u64,
                ConnectionStep::WaitForConfig => 2000u64,
                ConnectionStep::Connect(_) => 0u64,
            },
    {
        match self {
            ConnectionStep::Idle => 500,
            ConnectionStep::WaitForConfig => 2000,
            ConnectionStep::Connect(_) => 0,
        }
    }
}

/// The topic `device/<serial>/<leaf>`.
pub open spec fn device_topic(serial: Seq<char>, leaf: Seq<char>) -> Seq<char> {
    "device/"@ + serial + seq!['/'] + leaf
}

fn make_topic(serial: &str, leaf: &str) -> (r: String)
    ensures
        r@ == device_topic(serial@, leaf@),
{
    let mut t = owned("device/");
    t.append(serial);
    t.push('/');
    t.append(leaf);
    t
}

/// The next step of the MQTT loop. Without a pending (re)connection request
/// there is nothing to do. Otherwise the request is taken; with host or
/// serial number missing it is put back and the loop waits for settings;
/// else the loop connects to port 8883 as `bambu-monitor-<uuid>`, with a
/// 30-second keep-alive and a clean session, logging in as `bblp` with the
/// access code where there is one, on the report and request topics of the
/// printer's serial number.
pub fn next_connection_step(status: &mut ServerStatus, cfg: &PrinterConfig) -> (r: ConnectionStep)
    ensures
        !old(status).reconnect_needed ==> r is Idle && *final(status) == *old(status),
        old(status).reconnect_needed && (cfg.host@.len() == 0 || cfg.serial@.len() == 0) ==> r is WaitForConfig
            && *final(status) == *old(status),
        old(status).reconnect_needed && cfg.host@.len() > 0 && cfg.serial@.len() > 0 ==> ({
            &&& *final(status) == status_after(*old(status), StatusEvent::ReconnectTaken)
            &&& r matches ConnectionStep::Connect(plan) && {
                &&& plan.host@ == cfg.host@
                &&& plan.port == 8883
                &&& plan.client_id@.len() == 50
                &&& plan.client_id@.subrange(0, 14) == "bambu-monitor-"@
                &&& is_uuid_text(plan.client_id@.subrange(14, 50))
                &&& plan.keep_alive_secs == 30
                &&& plan.clean_session
                &&& (cfg.access_code@.len() == 0 ==> plan.credentials is None)
                &&& (cfg.access_code@.len() > 0 ==> (plan.credentials matches Some(c)
                    && c.0@ == "bblp"@ && c.1@ == cfg.access_code@))
                &&& plan.report_topic@ == device_topic(cfg.serial@, "report"@)
                &&& plan.request_topic@ == device_topic(cfg.serial@, "request"@)
            }
        }),
{
    if !status.reconnect_needed {
        return ConnectionStep::Idle;
    }
    status.reconnect_needed = false;
    if cfg.host.as_str().is_empty() || cfg.serial.as_str().is_empty() {
        status.reconnect_needed = true;
        return ConnectionStep::WaitForConfig;
    }
    proof {
        reveal_strlit("bambu-monitor-");
    }
    let mut client_id = owned("bambu-monitor-");
    let id = random_uuid_text();
    client_id.append(id.as_str());
    assert(client_id@.subrange(0, 14) =~= "bambu-monitor-"@);
    assert(client_id@.subrange(14, 50) =~= id@);
    let credentials = if cfg.access_code.as_str().is_empty() {
        None
    } else {
        Some((owned(MQTT_USERNAME), cfg.access_code.clone()))
    };
    ConnectionStep::Connect(ConnectPlan {
        host: cfg.host.clone(),
        port: MQTT_PORT,
        client_id,
        keep_alive_secs: KEEP_ALIVE_SECS,
        clean_session: true,
        credentials,
        report_topic: make_topic(cfg.serial.as_str(), "report"),
        request_topic: make_topic(cfg.serial.as_str(), "request"),
    })
}

/// The state after a published payload: the report applied (stamped at time
/// `now`), and the printer online.
pub open spec fn after_publish(obj: JsonValue, old: PrinterStateView, now: Seq<char>) -> PrinterStateView {
    let s = match print_section(obj) {
        Some(pd) => updated_state(pd, old, now),
        None => old,
    };
    PrinterStateView { online: true, ..s }
}

/// A message arrived on the report topic; `payload` is its body read as JSON,
/// where it is JSON. A readable payload updates the state, marks the printer
/// online, and gives the state to broadcast; anything else changes nothing.
pub fn on_publish(state: &mut PrinterState, payload: Option<&JsonValue>) -> (r: Option<PrinterState>)
    requires
        payload matches Some(p) ==> report_readable(*p),
    ensures
        payload is None ==> r is None && final(state)@ == old(state)@,
        payload matches Some(p) ==> ({
            &&& final(state)@ == after_publish(*p, old(state)@, final(state)@.last_update)
            &&& (print_section(*p) is Some ==> is_clock_text(final(state)@.last_update))
            &&& (print_section(*p) is None ==> final(state)@.last_update == old(state)@.last_update)
            &&& r matches Some(b) && b@ == final(state)@
        }),
{
    match payload {
        Some(obj) => {
            process_mqtt_payload(obj, state);
            state.online = true;
            Some(state.snapshot())
        },
        None => None,
    }
}

/// The broker acknowledged the connection: MQTT counts as connected, and the
/// current state is broadcast.
pub fn on_connected(status: &mut ServerStatus, state: &PrinterState) -> (r: PrinterState)
    ensures
        *final(status) == status_after(*old(status), StatusEvent::Connected),
        r@ == state@,
{
    status.mqtt_connected = true;
    state.snapshot()
}

/// The connection failed or was lost: the printer is offline, the state is
/// broadcast, and the loop is to reconnect (after `RECONNECT_DELAY_MILLIS`).
pub fn on_connection_lost(status: &mut ServerStatus, state: &mut PrinterState) -> (r: PrinterState)
    ensures
        *final(status) == status_after(*old(status), StatusEvent::ConnectionLost),
        final(state)@ == (PrinterStateView { online: false, ..old(state)@ }),
        r@ == final(state)@,
{
    state.online = false;
    status.reconnect_needed = true;
    state.snapshot()
}

} // verus!
