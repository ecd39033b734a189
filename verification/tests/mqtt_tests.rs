use bambu_monitor::mqtt::{
    next_connection_step, on_connected, on_connection_lost, ConnectionStep, GET_VERSION_REQUEST, PUSHALL_REQUEST,
};
use bambu_monitor::printer::initial_state;
use bambu_monitor::server::{
    apply_config_update, config_response, http_port, mqtt_connected, new_server_status, notify_config_update,
    http_port_candidates, printer_config_from_persisted, request_reconnect, serve_config_post, set_http_port, ConfigPostReply,
    ConfigUpdate, PrinterConfig,
};
use bambu_monitor::storage::PersistedConfig;

fn cfg(host: &str, serial: &str, code: &str) -> PrinterConfig {
    PrinterConfig { host: host.to_string(), serial: serial.to_string(), access_code: code.to_string() }
}

#[test]
fn status_flags() {
    let mut st = new_server_status();
    assert_eq!(http_port(&st), 0);
    assert!(!mqtt_connected(&st));
    set_http_port(&mut st, 5002);
    assert_eq!(http_port(&st), 5002);
}

#[test]
fn waits_for_settings() {
    let mut st = new_server_status();
    let step = next_connection_step(&mut st, &cfg("", "SN", "x"));
    assert!(matches!(step, ConnectionStep::WaitForConfig));
    assert_eq!(step.pause_millis(), 2000);
    assert!(st.reconnect_needed);
}

#[test]
fn connects_once_then_idles() {
    let mut st = new_server_status();
    let step = next_connection_step(&mut st, &cfg("192.168.1.87", "01S00A", "1234"));
    match step {
        ConnectionStep::Connect(plan) => {
            assert_eq!(plan.host, "192.168.1.87");
            assert_eq!(plan.port, 8883);
            assert_eq!(plan.keep_alive_secs, 30);
            assert!(plan.clean_session);
            assert_eq!(plan.client_id.len(), 50);
            assert!(plan.client_id.starts_with("bambu-monitor-"));
            assert_eq!(plan.credentials, Some(("bblp".to_string(), "1234".to_string())));
            assert_eq!(plan.report_topic, "device/01S00A/report");
            assert_eq!(plan.request_topic, "device/01S00A/request");
        }
        other => panic!("expected a connection, got {:?}", other),
    }
    assert!(!st.reconnect_needed);
    let idle = next_connection_step(&mut st, &cfg("192.168.1.87", "01S00A", "1234"));
    assert!(matches!(idle, ConnectionStep::Idle));
    assert_eq!(idle.pause_millis(), 500);
    request_reconnect(&mut st);
    match next_connection_step(&mut st, &cfg("h", "s", "")) {
        ConnectionStep::Connect(plan) => assert!(plan.credentials.is_none()),
        other => panic!("expected a connection, got {:?}", other),
    }
    assert!(PUSHALL_REQUEST.contains("pushall"));
    assert!(GET_VERSION_REQUEST.contains("get_version"));
}

#[test]
fn connection_events() {
    let mut st = new_server_status();
    let mut state = initial_state();
    state.online = true;
    let b = on_connected(&mut st, &state);
    assert!(st.mqtt_connected);
    assert!(b.online);
    st.reconnect_needed = false;
    let b = on_connection_lost(&mut st, &mut state);
    assert!(!state.online && !b.online);
    assert!(st.reconnect_needed);
}

#[test]
fn config_endpoints() {
    let mut c = cfg("h", "s", "");
    let r = config_response(&c);
    assert_eq!(r.host, "h");
    assert!(!r.has_access_code);
    let reply = serve_config_post(&mut c, true, None);
    assert!(matches!(reply, ConfigPostReply::EmptyBody));
    let reply = serve_config_post(&mut c, false, None);
    assert!(matches!(reply, ConfigPostReply::InvalidJson));
    let upd = ConfigUpdate { host: Some("h2".to_string()), serial: None, access_code: Some("ac".to_string()) };
    match serve_config_post(&mut c, false, Some(upd)) {
        ConfigPostReply::Updated(p) => {
            assert_eq!(p.host, "h2");
            assert_eq!(p.serial, "s");
            assert_eq!(p.access_code, "ac");
        }
        other => panic!("expected an update, got {:?}", other),
    }
    assert!(config_response(&c).has_access_code);
    let empty = ConfigUpdate { host: None, serial: None, access_code: None };
    let p = apply_config_update(&mut c, empty);
    assert_eq!((c.host.as_str(), c.serial.as_str(), c.access_code.as_str()), ("h2", "s", "ac"));
    assert_eq!(p.host, "h2");
}

#[test]
fn notify_reloads_settings() {
    let mut st = new_server_status();
    st.reconnect_needed = false;
    let mut c = cfg("old", "old", "old");
    let p = PersistedConfig { host: "new".to_string(), serial: "SN".to_string(), access_code: "".to_string() };
    notify_config_update(&mut st, &mut c, p);
    assert!(st.reconnect_needed);
    assert_eq!(c.host, "new");
    assert_eq!(c.access_code, "");
    let c2 = printer_config_from_persisted(PersistedConfig { host: "a".to_string(), serial: "b".to_string(), access_code: "c".to_string() });
    assert_eq!(c2.serial, "b");
}

#[test]
fn http_ports_tried_in_order() {
    assert_eq!(http_port_candidates(), vec![5001u16, 5002, 5003]);
}

#[test]
fn connected_flag_is_never_reset() {
    let mut st = new_server_status();
    let mut state = initial_state();
    let _ = on_connected(&mut st, &state);
    assert!(mqtt_connected(&st));
    let _ = on_connection_lost(&mut st, &mut state);
    assert!(mqtt_connected(&st));
    request_reconnect(&mut st);
    let _ = next_connection_step(&mut st, &cfg("192.168.1.5", "SN", "x"));
    assert!(mqtt_connected(&st));
    assert_eq!(http_port(&st), 0);
    set_http_port(&mut st, 5001);
    let _ = on_connection_lost(&mut st, &mut state);
    assert_eq!(http_port(&st), 5001);
}
