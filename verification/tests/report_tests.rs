use bambu_monitor::json::{JsonNumber, JsonValue};
use bambu_monitor::mqtt::on_publish;
use bambu_monitor::printer::{initial_state, parse_hex_color, is_hex_color_sliceable, PrinterState};
use bambu_monitor::report::{apply_mqtt_payload, is_report_readable, process_mqtt_payload};

fn s(v: &str) -> JsonValue {
    JsonValue::Str(v.to_string())
}

fn u(n: u64) -> JsonValue {
    JsonValue::Number(JsonNumber::PosInt(n))
}

fn f(x: f64) -> JsonValue {
    JsonValue::Number(JsonNumber::Float(x.to_bits()))
}

fn obj(entries: Vec<(&str, JsonValue)>) -> JsonValue {
    JsonValue::Object(entries.into_iter().map(|(k, v)| (k.to_string(), v)).collect())
}

fn arr(items: Vec<JsonValue>) -> JsonValue {
    JsonValue::Array(items)
}

fn slot(k: &str, st: &PrinterState) -> Option<(String, String, u32)> {
    st.ams
        .iter()
        .rev()
        .find(|(name, _)| name == k)
        .map(|(_, a)| (a.color.clone(), a.material.clone(), a.remaining))
}

fn full_report() -> JsonValue {
    obj(vec![(
        "print",
        obj(vec![
            ("gcode_state", s("RUNNING")),
            ("mc_percent", u(42)),
            ("mc_remaining_time", u(37)),
            ("layer_num", u(12)),
            ("total_layer_num", u(200)),
            ("subtask_name", s("benchy.3mf")),
            ("nozzle_temper", f(219.87)),
            ("nozzle_target_temper", u(220)),
            ("bed_temper", f(54.96)),
            ("bed_target_temper", u(55)),
            ("fan_gear", u(15)),
            ("spd_lvl", u(2)),
            ("command", s("push_status")),
            (
                "lights_report",
                arr(vec![
                    obj(vec![("node", s("work_light")), ("mode", s("flashing"))]),
                    obj(vec![("node", s("chamber_light")), ("mode", s("on"))]),
                ]),
            ),
            (
                "ams",
                obj(vec![
                    ("tray_now", s("0")),
                    ("tray_tar", s("1")),
                    (
                        "ams",
                        arr(vec![obj(vec![
                            ("id", s("0")),
                            (
                                "tray",
                                arr(vec![
                                    obj(vec![
                                        ("id", s("0")),
                                        ("tray_color", s("ff8000FF")),
                                        ("tray_type", s("PLA")),
                                        ("remain", u(80)),
                                    ]),
                                    obj(vec![("id", s("1")), ("tray_type", s("PETG"))]),
                                ]),
                            ),
                        ])]),
                    ),
                ]),
            ),
        ]),
    )])
}

#[test]
fn initial_state_is_unknown_and_offline() {
    let st = initial_state();
    assert_eq!(st.gcode_state, "UNKNOWN");
    assert_eq!(st.mode, "unknown");
    assert_eq!(st.speed, "100");
    assert_eq!(st.light, "off");
    assert!(!st.online);
    assert!(st.ams.is_empty());
}

#[test]
fn full_report_updates_everything() {
    let mut st = initial_state();
    let payload = full_report();
    assert!(is_report_readable(&payload));
    apply_mqtt_payload(&payload, &mut st, "12:00:00".to_string());
    assert_eq!(st.mode, "printer");
    assert_eq!(st.gcode_state, "RUNNING");
    assert_eq!(st.action, "push_status");
    assert!(matches!(st.progress, JsonNumber::PosInt(42)));
    assert_eq!(st.remaining_time, 37);
    assert_eq!(st.layer_current, 12);
    assert_eq!(st.layer_total, 200);
    assert_eq!(st.job_name, "benchy");
    assert_eq!(st.speed, "2");
    assert_eq!(st.live_speed, 15);
    assert_eq!(st.light, "on");
    assert_eq!(st.filament_type, "PETG");
    assert!(st.online);
    assert_eq!(st.last_update, "12:00:00");
    assert_eq!(slot("slot0", &st), Some(("#FF8000".to_string(), "PLA".to_string(), 80)));
    match st.nozzle_temp {
        JsonNumber::Float(b) => assert_eq!(f64::from_bits(b), 219.87),
        _ => panic!("nozzle temperature kept as reported"),
    }
}

#[test]
fn partial_report_only_refreshes_readings() {
    let mut st = initial_state();
    apply_mqtt_payload(&full_report(), &mut st, "12:00:00".to_string());
    let partial = obj(vec![(
        "print",
        obj(vec![("nozzle_temper", f(221.5)), ("bed_temper", u(0)), ("mc_remaining_time", u(0)), ("subtask_name", s("other"))]),
    )]);
    apply_mqtt_payload(&partial, &mut st, "12:00:05".to_string());
    assert_eq!(st.gcode_state, "RUNNING");
    assert_eq!(st.job_name, "benchy");
    assert_eq!(st.remaining_time, 37);
    assert_eq!(st.last_update, "12:00:05");
    match st.nozzle_temp {
        JsonNumber::Float(b) => assert_eq!(f64::from_bits(b), 221.5),
        _ => panic!("nozzle temperature replaced"),
    }
    match st.bed_temp {
        JsonNumber::Float(b) => assert_eq!(f64::from_bits(b), 54.96),
        _ => panic!("bed temperature kept"),
    }
}

#[test]
fn unknown_state_is_partial() {
    let mut st = initial_state();
    let p = obj(vec![("print", obj(vec![("gcode_state", s("UNKNOWN")), ("mc_remaining_time", u(9))]))]);
    apply_mqtt_payload(&p, &mut st, "01:02:03".to_string());
    assert_eq!(st.mode, "unknown");
    assert_eq!(st.remaining_time, 9);
    assert!(st.online);
}

#[test]
fn payload_without_print_changes_nothing() {
    let mut st = initial_state();
    let p = obj(vec![("info", obj(vec![("command", s("get_version"))]))]);
    process_mqtt_payload(&p, &mut st);
    assert!(!st.online);
    assert_eq!(st.last_update, "");
}

#[test]
fn process_stamps_clock_time() {
    let mut st = initial_state();
    process_mqtt_payload(&full_report(), &mut st);
    let t = st.last_update.as_bytes();
    assert_eq!(t.len(), 8);
    assert_eq!(t[2], b':');
    assert_eq!(t[5], b':');
    assert!(t.iter().enumerate().all(|(i, c)| i == 2 || i == 5 || c.is_ascii_digit()));
}

#[test]
fn report_applied_twice_is_applied_once() {
    let mut a = initial_state();
    apply_mqtt_payload(&full_report(), &mut a, "t".to_string());
    let mut b = a.snapshot();
    apply_mqtt_payload(&full_report(), &mut b, "t".to_string());
    assert_eq!(format!("{:?}", a), format!("{:?}", b));
}

#[test]
fn job_name_falls_back_to_gcode_file_and_strips_3mf() {
    let mut st = initial_state();
    let p = obj(vec![("print", obj(vec![("gcode_state", s("FINISH")), ("gcode_file", s("a.3mf.3mf_b.3mf"))]))]);
    apply_mqtt_payload(&p, &mut st, "t".to_string());
    assert_eq!(st.job_name, "a_b");
    let p2 = obj(vec![("print", obj(vec![("gcode_state", s("FINISH")), ("subtask_name", u(3)), ("gcode_file", s("x"))]))]);
    apply_mqtt_payload(&p2, &mut st, "t".to_string());
    assert_eq!(st.job_name, "");
}

#[test]
fn speed_level_and_light_defaults() {
    let mut st = initial_state();
    let p = obj(vec![("print", obj(vec![("gcode_state", s("IDLE")), ("spd_lvl", JsonValue::Number(JsonNumber::NegInt(-3)))]))]);
    apply_mqtt_payload(&p, &mut st, "t".to_string());
    assert_eq!(st.speed, "-3");
    assert_eq!(st.light, "off");
    let p2 = obj(vec![("print", obj(vec![("gcode_state", s("IDLE")), ("spd_lvl", f(2.0))]))]);
    apply_mqtt_payload(&p2, &mut st, "t".to_string());
    assert_eq!(st.speed, "100");
}

#[test]
fn ams_takes_first_four_units() {
    let unit = |id: &str| {
        obj(vec![("id", s(id)), ("tray", arr(vec![obj(vec![("tray_color", s("00FF00")), ("remain", u(5))])]))])
    };
    let p = obj(vec![(
        "print",
        obj(vec![
            ("gcode_state", s("RUNNING")),
            (
                "ams",
                obj(vec![("ams", arr(vec![unit("0"), u(1), unit("1"), unit("2"), unit("3"), unit("4")]))]),
            ),
        ]),
    )]);
    let mut st = initial_state();
    apply_mqtt_payload(&p, &mut st, "t".to_string());
    assert!(slot("slot3", &st).is_some());
    assert!(slot("slot4", &st).is_none());
    assert_eq!(slot("slot0", &st), Some(("#00FF00".to_string(), "N/A".to_string(), 5)));
}

#[test]
fn unit_without_id_is_named_slot_question_mark() {
    let p = obj(vec![(
        "print",
        obj(vec![
            ("gcode_state", s("RUNNING")),
            ("ams", obj(vec![("ams", arr(vec![obj(vec![("tray", arr(vec![obj(vec![])]))])]))])),
        ]),
    )]);
    let mut st = initial_state();
    apply_mqtt_payload(&p, &mut st, "t".to_string());
    assert_eq!(slot("slot?", &st), Some(("N/A".to_string(), "N/A".to_string(), 0)));
}

#[test]
fn hex_colors() {
    assert_eq!(parse_hex_color("ff8000FF"), "#FF8000");
    assert_eq!(parse_hex_color("+f+f+f"), "#0F0F0F");
    assert_eq!(parse_hex_color("zz00gg"), "#FF00FF");
    assert_eq!(parse_hex_color("12345"), "12345");
    assert!(is_hex_color_sliceable("ab"));
    assert!(!is_hex_color_sliceable("aé4567"));
}

#[test]
fn unsliceable_color_is_not_readable() {
    let p = obj(vec![(
        "print",
        obj(vec![(
            "ams",
            obj(vec![("ams", arr(vec![obj(vec![("tray", arr(vec![obj(vec![("tray_color", s("aé4567"))])]))])]))]),
        )]),
    )]);
    assert!(!is_report_readable(&p));
}

#[test]
fn publish_marks_online_and_broadcasts() {
    let mut st = initial_state();
    let p = obj(vec![("other", u(1))]);
    let b = on_publish(&mut st, Some(&p)).unwrap();
    assert!(st.online);
    assert!(b.online);
    let mut st2 = initial_state();
    assert!(on_publish(&mut st2, None).is_none());
    assert!(!st2.online);
}
