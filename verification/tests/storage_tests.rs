use bambu_monitor::storage::{
    add_printer, config_path, database_path, get_app_config, get_print_history, get_printer_config,
    history_params, remove_printer, set_active_printer, update_printer_config, AppConfig, AppSettings,
    HistoryRow, PersistedConfig, PrintHistoryRecord, PrinterConfig,
};

fn printer(host: &str, serial: &str, code: &str, name: &str) -> PrinterConfig {
    PrinterConfig {
        host: host.to_string(),
        serial: serial.to_string(),
        access_code: code.to_string(),
        name: name.to_string(),
    }
}

#[test]
fn test_config_path() {
    let path = config_path("/home/user/.config/bambu-monitor");
    println!("Config path: {:?}", path);
    assert!(path.ends_with("config.json"));
    assert!(path.starts_with("/home/user/.config/bambu-monitor"));
}

#[test]
fn config_path_joins_with_one_separator() {
    assert_eq!(config_path("/tmp/cfg"), "/tmp/cfg/config.json");
    assert_eq!(config_path("/tmp/cfg/"), "/tmp/cfg/config.json");
    assert_eq!(database_path("/tmp/cfg"), "/tmp/cfg/print_history.db");
}

#[test]
fn config_path_edge_directories() {
    assert_eq!(config_path(""), "config.json");
    assert_eq!(database_path("/"), "/print_history.db");
    assert_eq!(config_path("cfg"), "cfg/config.json");
}

#[test]
fn default_settings() {
    let s = AppSettings::default();
    assert_eq!(s.check_interval, 6);
    assert!(s.notification_enabled);
    assert!(!s.start_minimized);
    assert!(s.auto_connect);
    let c = AppConfig::default();
    assert!(c.printers.is_empty());
    assert!(c.active_printer.is_none());
}

#[test]
fn first_printer_added_becomes_active() {
    let mut c = AppConfig::default();
    add_printer(&mut c, "p1".to_string(), printer("10.0.0.2", "SN1", "code", "A1"));
    assert_eq!(c.active_printer.as_deref(), Some("p1"));
    add_printer(&mut c, "p2".to_string(), printer("10.0.0.3", "SN2", "code2", "X1"));
    assert_eq!(c.active_printer.as_deref(), Some("p1"));
    let got = get_printer_config(&c, "p2").unwrap();
    assert_eq!(got.host, "10.0.0.3");
    assert_eq!(got.name, "X1");
}

#[test]
fn adding_again_replaces() {
    let mut c = AppConfig::default();
    add_printer(&mut c, "p1".to_string(), printer("a", "b", "c", "d"));
    add_printer(&mut c, "p1".to_string(), printer("e", "f", "g", "h"));
    assert_eq!(c.printers.len(), 1);
    assert_eq!(get_printer_config(&c, "p1").unwrap().host, "e");
}

#[test]
fn removing_active_picks_another() {
    let mut c = AppConfig::default();
    add_printer(&mut c, "p1".to_string(), printer("a", "b", "c", "d"));
    add_printer(&mut c, "p2".to_string(), printer("e", "f", "g", "h"));
    remove_printer(&mut c, "p1");
    assert!(get_printer_config(&c, "p1").is_none());
    assert_eq!(c.active_printer.as_deref(), Some("p2"));
    remove_printer(&mut c, "p2");
    assert!(c.active_printer.is_none());
    assert!(c.printers.is_empty());
}

#[test]
fn removing_other_keeps_active() {
    let mut c = AppConfig::default();
    add_printer(&mut c, "p1".to_string(), printer("a", "b", "c", "d"));
    add_printer(&mut c, "p2".to_string(), printer("e", "f", "g", "h"));
    remove_printer(&mut c, "p2");
    assert_eq!(c.active_printer.as_deref(), Some("p1"));
    remove_printer(&mut c, "missing");
    assert_eq!(c.printers.len(), 1);
}

#[test]
fn set_active_only_for_known() {
    let mut c = AppConfig::default();
    add_printer(&mut c, "p1".to_string(), printer("a", "b", "c", "d"));
    add_printer(&mut c, "p2".to_string(), printer("e", "f", "g", "h"));
    set_active_printer(&mut c, "p2".to_string());
    assert_eq!(c.active_printer.as_deref(), Some("p2"));
    set_active_printer(&mut c, "nope".to_string());
    assert_eq!(c.active_printer.as_deref(), Some("p2"));
}

#[test]
fn update_only_known() {
    let mut c = AppConfig::default();
    add_printer(&mut c, "p1".to_string(), printer("a", "b", "c", "d"));
    update_printer_config(&mut c, "p1", printer("z", "b", "c", "d"));
    assert_eq!(get_printer_config(&c, "p1").unwrap().host, "z");
    update_printer_config(&mut c, "p9", printer("q", "q", "q", "q"));
    assert!(get_printer_config(&c, "p9").is_none());
    let copy = get_app_config(&c);
    assert_eq!(copy.printers.len(), 1);
    assert_eq!(copy.active_printer.as_deref(), Some("p1"));
}

#[test]
fn printer_from_persisted_has_empty_name() {
    let p = PersistedConfig { host: "h".to_string(), serial: "s".to_string(), access_code: "a".to_string() };
    let c = PrinterConfig::from_persisted(p);
    assert_eq!(c.host, "h");
    assert_eq!(c.serial, "s");
    assert_eq!(c.access_code, "a");
    assert_eq!(c.name, "");
    let d = PersistedConfig::default();
    assert_eq!(d.host, "");
}

#[test]
fn history_round_trip() {
    let rec = PrintHistoryRecord {
        id: None,
        printer_serial: "SN".to_string(),
        job_name: "benchy".to_string(),
        started_at: "10:00".to_string(),
        finished_at: "11:00".to_string(),
        filament_type: "PLA".to_string(),
        layer_count: 120,
        success: true,
    };
    let p = history_params(&rec);
    assert_eq!(p.success, 1);
    let row = HistoryRow {
        id: 7,
        printer_serial: p.printer_serial,
        job_name: p.job_name,
        started_at: p.started_at,
        finished_at: p.finished_at,
        filament_type: p.filament_type,
        layer_count: p.layer_count,
        success: p.success,
    };
    let back = get_print_history(vec![row]);
    assert_eq!(back.len(), 1);
    assert_eq!(back[0].id, Some(7));
    assert_eq!(back[0].job_name, "benchy");
    assert!(back[0].success);
}

#[test]
fn history_success_only_for_flag_one() {
    let row = |flag: i32| HistoryRow {
        id: 1,
        printer_serial: String::new(),
        job_name: String::new(),
        started_at: String::new(),
        finished_at: String::new(),
        filament_type: String::new(),
        layer_count: 0,
        success: flag,
    };
    let recs = get_print_history(vec![row(0), row(1), row(2)]);
    assert!(!recs[0].success);
    assert!(recs[1].success);
    assert!(!recs[2].success);
}
