//! The monitor's connection settings as the HTTP API sees them, and the
//! process-wide status flags of the HTTP server and MQTT client.

use vstd::prelude::*;
use crate::storage::PersistedConfig;

verus! {

/// Where the printer is and how to log in to it.
#[derive(Debug)]
pub struct PrinterConfig {
    pub host: String,
    pub serial: String,
    pub access_code: String,
}

/// A change to the connection settings: each field that is given replaces
/// the current value.
#[derive(Debug)]
pub struct ConfigUpdate {
    pub host: Option<String>,
    pub serial: Option<String>,
    pub access_code: Option<String>,
}

/// What `GET /api/config` reports: the access code itself is never shown.
#[derive(Debug)]
pub struct ConfigResponse {
    pub host: String,
    pub serial: String,
    pub has_access_code: bool,
}

/// The connection settings a connection file holds.
pub fn printer_config_from_persisted(p: PersistedConfig) -> (r: PrinterConfig)
    ensures
        r.host@ == p.host@,
        r.serial@ == p.serial@,
        r.access_code@ == p.access_code@,
{
    PrinterConfig { host: p.host, serial: p.serial, access_code: p.access_code }
}

/// What `GET /api/config` answers for the settings `cfg`.
pub fn config_response(cfg: &PrinterConfig) -> (r: ConfigResponse)
    ensures
        r.host@ == cfg.host@,
        r.serial@ == cfg.serial@,
        r.has_access_code == (cfg.access_code@.len() > 0),
{
    ConfigResponse {
        host: cfg.host.clone(),
        serial: cfg.serial.clone(),
        has_access_code: !cfg.access_code.as_str().is_empty(),
    }
}

/// The value a field takes under an update.
pub open spec fn updated_field(current: Seq<char>, update: Option<String>) -> Seq<char> {
    match update {
        Some(v) => v@,
        None => current,
    }
}

/// Applies an update and returns the settings to store in the connection
/// file: the new settings.
pub fn apply_config_update(cfg: &mut PrinterConfig, update: ConfigUpdate) -> (r: PersistedConfig)
    ensures
        final(cfg).host@ == updated_field(old(cfg).host@, update.host),
        final(cfg).serial@ == updated_field(old(cfg).serial@, update.serial),
        final(cfg).access_code@ == updated_field(old(cfg).access_code@, update.access_code),
        r.host@ == final(cfg).host@,
        r.serial@ == final(cfg).serial@,
        r.access_code@ == final(cfg).access_code@,
{
    if let Some(h) = update.host {
        cfg.host = h;
    }
    if let Some(sn) = update.serial {
        cfg.serial = sn;
    }
    if let Some(ac) = update.access_code {
        cfg.access_code = ac;
    }
    PersistedConfig { host: cfg.host.clone(), serial: cfg.serial.clone(), access_code: cfg.access_code.clone() }
}

/// The outcome of `POST /api/config`.
#[derive(Debug)]
pub enum ConfigPostReply {
    /// The request had no body.
    EmptyBody,
    /// The body was not a configuration update.
    InvalidJson,
    /// The settings were updated; these are to be stored.
    Updated(PersistedConfig),
}

/// Handles `POST /api/config`: `update` is the body read as an update, where
/// it is one. An empty body and an unreadable body leave the settings as
/// they are.
pub fn serve_config_post(cfg: &mut PrinterConfig, body_is_empty: bool, update: Option<ConfigUpdate>) -> (r: ConfigPostReply)
    ensures
        body_is_empty ==> r is EmptyBody && *final(cfg) == *old(cfg),
        !body_is_empty && update is None ==> r is InvalidJson && *final(cfg) == *old(cfg),
        !body_is_empty && update is Some ==> ({
            let u = update->Some_0;
            &&& final(cfg).host@ == updated_field(old(cfg).host@, u.host)
            &&& final(cfg).serial@ == updated_field(old(cfg).serial@, u.serial)
            &&& final(cfg).access_code@ == updated_field(old(cfg).access_code@, u.access_code)
            &&& r matches ConfigPostReply::Updated(p) && p.host@ == final(cfg).host@
                && p.serial@ == final(cfg).serial@ && p.access_code@ == final(cfg).access_code@
        }),
{
    if body_is_empty {
        return ConfigPostReply::EmptyBody;
    }
    match update {
        Some(u) => ConfigPostReply::Updated(apply_config_update(cfg, u)),
        None => ConfigPostReply::InvalidJson,
    }
}

// ── Status flags ─────────────────────────────────────────────────────────────

/// The process-wide status: the HTTP port once bound (0 before), whether MQTT
/// has connected at least once, and whether the MQTT client is to
/// (re)connect with the current settings.
#[derive(Debug, Clone, Copy)]
pub struct ServerStatus {
    pub http_port: u16,
    pub mqtt_connected: bool,
    pub reconnect_needed: bool,
}

/// One of the ports the HTTP server tries: 5001 to 5003.
pub open spec fn is_http_port(port: int) -> bool {
    5001 <= port <= 5003
}

/// The ports the HTTP server tries, in the order it tries them; it serves on
/// the first it can bind.
pub fn http_port_candidates() -> (r: Vec<u16>)
    ensures
        r@ == seq![5001u16, 5002u16, 5003u16],
{
    vec![5001u16, 5002u16, 5003u16]
}

/// The status at start: no port yet, never connected, a connection wanted.
pub open spec fn initial_status() -> ServerStatus {
    ServerStatus { http_port: 0, mqtt_connected: false, reconnect_needed: true }
}

/// What happens to the process-wide status.
pub enum StatusEvent {
    /// The HTTP server bound this port.
    PortBound(u16),
    /// The settings changed, or a reconnection was asked for.
    ReconnectRequested,
    /// The MQTT loop took the request and connects.
    ReconnectTaken,
    /// The broker acknowledged a connection.
    Connected,
    /// The connection failed or was lost.
    ConnectionLost,
}

/// The status after one event.
pub open spec fn status_after(s: ServerStatus, e: StatusEvent) -> ServerStatus {
    match e {
        StatusEvent::PortBound(port) => ServerStatus { http_port: port, ..s },
        StatusEvent::ReconnectRequested => ServerStatus { reconnect_needed: true, ..s },
        StatusEvent::ReconnectTaken => ServerStatus { reconnect_needed: false, ..s },
        StatusEvent::Connected => ServerStatus { mqtt_connected: true, ..s },
        StatusEvent::ConnectionLost => ServerStatus { reconnect_needed: true, ..s },
    }
}

/// The status after a sequence of events, in order.
pub open spec fn status_trace(s: ServerStatus, events: Seq<StatusEvent>) -> ServerStatus
    decreases events.len(),
{
    if events.len() == 0 {
        s
    } else {
        status_after(status_trace(s, events.drop_last()), events.last())
    }
}

/// The port the last `PortBound` event in `events` bound; 0 where there is
/// none.
pub open spec fn last_bound_port(events: Seq<StatusEvent>) -> u16
    decreases events.len(),
{
    if events.len() == 0 {
        0
    } else {
        match events.last() {
            StatusEvent::PortBound(port) => port,
            _ => last_bound_port(events.drop_last()),
        }
    }
}

/// Every port bound in `events` is one the HTTP server tries.
pub open spec fn binds_server_ports(events: Seq<StatusEvent>) -> bool {
    forall|i: int| 0 <= i < events.len() ==> (#[trigger] events[i] matches StatusEvent::PortBound(p) ==> is_http_port(p as int))
}

/// The status at start: no port yet, never connected, a connection wanted.
pub fn new_server_status() -> (r: ServerStatus)
    ensures
        r == initial_status(),
{
    ServerStatus { http_port: 0, mqtt_connected: false, reconnect_needed: true }
}

/// The HTTP server port (0 if not started yet).
pub fn http_port(status: &ServerStatus) -> (r: u16)
    ensures
        r == status.http_port,
{
    status.http_port
}

/// Whether MQTT has successfully connected at least once.
pub fn mqtt_connected(status: &ServerStatus) -> (r: bool)
    ensures
        r == status.mqtt_connected,
{
    status.mqtt_connected
}

/// Records the port the HTTP server bound, one of the ports it tries.
pub fn set_http_port(status: &mut ServerStatus, port: u16)
    requires
        is_http_port(port as int),
    ensures
        *final(status) == status_after(*old(status), StatusEvent::PortBound(port)),
{
    status.http_port = port;
}

/// Asks the MQTT client to reconnect with the current settings.
pub fn request_reconnect(status: &mut ServerStatus)
    ensures
        *final(status) == status_after(*old(status), StatusEvent::ReconnectRequested),
{
    status.reconnect_needed = true;
}

/// The settings were saved: the MQTT client is to reconnect, and the shared
/// settings `cfg` take the saved ones `persisted`.
pub fn notify_config_update(status: &mut ServerStatus, cfg: &mut PrinterConfig, persisted: PersistedConfig)
    ensures
        *final(status) == status_after(*old(status), StatusEvent::ReconnectRequested),
        final(cfg).host@ == persisted.host@,
        final(cfg).serial@ == persisted.serial@,
        final(cfg).access_code@ == persisted.access_code@,
{
    request_reconnect(status);
    cfg.host = persisted.host;
    cfg.serial = persisted.serial;
    cfg.access_code = persisted.access_code;
}

/// Whether MQTT counts as connected after `events` from a status `s`: it
/// did before, or some event acknowledged a connection.
proof fn lemma_connected_trace(s: ServerStatus, events: Seq<StatusEvent>)
    ensures
        status_trace(s, events).mqtt_connected <==> (s.mqtt_connected || exists|i: int|
            0 <= i < events.len() && #[trigger] events[i] is Connected),
    decreases events.len(),
{
    if events.len() > 0 {
        let pre = events.drop_last();
        let n = pre.len() as int;
        lemma_connected_trace(s, pre);
        if exists|i: int| 0 <= i < pre.len() && #[trigger] pre[i] is Connected {
            let i = choose|i: int| 0 <= i < pre.len() && #[trigger] pre[i] is Connected;
            assert(events[i] is Connected);
        }
        if !status_trace(s, events).mqtt_connected {
            assert forall|i: int| 0 <= i < events.len() implies !(#[trigger] events[i] is Connected) by {
                if i < n {
                    assert(pre[i] == events[i]);
                }
            }
        }
    }
}

/// The HTTP port after `events` from the start.
proof fn lemma_port_trace(events: Seq<StatusEvent>)
    ensures
        status_trace(initial_status(), events).http_port == last_bound_port(events),
        binds_server_ports(events) ==> ({
            let port = status_trace(initial_status(), events).http_port;
            &&& (port == 0 <==> forall|i: int| 0 <= i < events.len() ==> !(#[trigger] events[i] is PortBound))
            &&& (port == 0 || is_http_port(port as int))
            &&& (port != 0 ==> exists|i: int| 0 <= i < events.len() && #[trigger] events[i] == StatusEvent::PortBound(port))
        }),
    decreases events.len(),
{
    if events.len() > 0 {
        let pre = events.drop_last();
        let n = pre.len() as int;
        assert forall|i: int| 0 <= i < pre.len() implies #[trigger] pre[i] == events[i] by {}
        lemma_port_trace(pre);
        let before = status_trace(initial_status(), pre);
        let s = status_trace(initial_status(), events);
        assert(s == status_after(before, events[n]));
        if binds_server_ports(events) {
            assert(binds_server_ports(pre)) by {
                assert forall|i: int| 0 <= i < pre.len() implies (#[trigger] pre[i] matches StatusEvent::PortBound(p) ==> is_http_port(p as int)) by {
                    assert(pre[i] == events[i]);
                }
            }
            if before.http_port != 0 {
                let i = choose|i: int| 0 <= i < pre.len() && #[trigger] pre[i] == StatusEvent::PortBound(before.http_port);
                assert(events[i] == StatusEvent::PortBound(before.http_port));
            }
            if s.http_port == 0 {
                assert forall|i: int| 0 <= i < events.len() implies !(#[trigger] events[i] is PortBound) by {
                    if i < n {
                        assert(pre[i] == events[i]);
                    }
                }
            }
            if events[n] is PortBound {
                assert(events[n] == StatusEvent::PortBound(s.http_port));
            }
        }
    }
}

/// From start, whatever happened since, MQTT counts as connected exactly
/// when some connection was acknowledged.
pub proof fn law_connected_from_start(events: Seq<StatusEvent>)
    ensures
        status_trace(initial_status(), events).mqtt_connected <==> exists|i: int|
            0 <= i < events.len() && #[trigger] events[i] is Connected,
{
    lemma_connected_trace(initial_status(), events);
}

/// Once MQTT counts as connected, it stays so whatever happens next.
pub proof fn law_connected_never_reset(s: ServerStatus, events: Seq<StatusEvent>)
    requires
        s.mqtt_connected,
    ensures
        status_trace(s, events).mqtt_connected,
{
    lemma_connected_trace(s, events);
}

/// From start, whatever happened since, the HTTP port is the port bound
/// last, 0 where none was. When the ports bound are server ports, as
/// `set_http_port` demands of every one: it reads 0 exactly while no port
/// was bound, and after that it is a bound port, one of 5001 to 5003.
pub proof fn law_http_port_from_start(events: Seq<StatusEvent>)
    ensures
        status_trace(initial_status(), events).http_port == last_bound_port(events),
        binds_server_ports(events) ==> ({
            let port = status_trace(initial_status(), events).http_port;
            &&& (port == 0 <==> forall|i: int| 0 <= i < events.len() ==> !(#[trigger] events[i] is PortBound))
            &&& (port != 0 ==> is_http_port(port as int))
            &&& (port != 0 ==> exists|i: int| 0 <= i < events.len() && #[trigger] events[i] == StatusEvent::PortBound(port))
        }),
{
    lemma_port_trace(events);
}

/// Once a port is bound, the HTTP port never reads 0 again while the ports
/// bound are server ports.
pub proof fn law_http_port_never_reset(s: ServerStatus, events: Seq<StatusEvent>)
    requires
        s.http_port != 0,
        binds_server_ports(events),
    ensures
        status_trace(s, events).http_port != 0,
    decreases events.len(),
{
    if events.len() > 0 {
        let pre = events.drop_last();
        assert(binds_server_ports(pre)) by {
            assert forall|i: int| 0 <= i < pre.len() implies (#[trigger] pre[i] matches StatusEvent::PortBound(p) ==> is_http_port(p as int)) by {
                assert(pre[i] == events[i]);
            }
        }
        law_http_port_never_reset(s, pre);
        let n = pre.len() as int;
        if events[n] is PortBound {
            assert(events[n] matches StatusEvent::PortBound(p) ==> is_http_port(p as int));
        }
    }
}

} // verus!
