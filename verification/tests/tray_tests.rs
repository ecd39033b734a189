use bambu_monitor::tray::{
    backend_completion_step, backend_tray_status, completion_message, debug_info, draw_digit,
    draw_progress_number, floating_window_action, progress_level, read_polled_status, state_icon,
    track_completion, tray_refresh_needed, TrayStatus, WindowAction, COMPLETION_TITLE,
};
use bambu_monitor::json::{JsonNumber, JsonValue};
use bambu_monitor::tray::{can_draw_digit, can_draw_progress_number, main_window_shown_after_click, menu_action, MenuAction};

#[test]
fn tray_menu_and_click() {
    assert_eq!(menu_action("show"), MenuAction::ShowWindow);
    assert_eq!(menu_action("quit"), MenuAction::Quit);
    assert_eq!(menu_action("other"), MenuAction::Nothing);
    assert!(main_window_shown_after_click(false));
    assert!(!main_window_shown_after_click(true));
}

#[test]
fn drawing_preconditions() {
    assert!(can_draw_progress_number(32 * 32 * 4, 32, 32, 100));
    assert!(!can_draw_progress_number(32 * 32 * 4, 10, 32, 100));
    assert!(!can_draw_progress_number(32 * 32 * 4, 32, 4, 5));
    assert!(can_draw_digit(12, 0, 0, 3, 8));
    assert!(!can_draw_digit(12, 0, 0, 3, 10));
    // digit 8 lights the third pixel of a 3-pixel row; with 11 bytes its alpha byte is missing
    assert!(!can_draw_digit(11, 0, 0, 3, 8));
    assert!(!can_draw_digit(64, 0, usize::MAX - 2, 1, 1));
}

#[test]
fn five_progress_levels() {
    assert_eq!(progress_level(-5), 0);
    assert_eq!(progress_level(0), 0);
    assert_eq!(progress_level(24), 0);
    assert_eq!(progress_level(25), 25);
    assert_eq!(progress_level(49), 25);
    assert_eq!(progress_level(50), 50);
    assert_eq!(progress_level(74), 50);
    assert_eq!(progress_level(75), 75);
    assert_eq!(progress_level(99), 75);
    assert_eq!(progress_level(100), 100);
    assert_eq!(progress_level(1000), 100);
}

#[test]
fn digit_one_pixels() {
    let w = 5;
    let mut buf = vec![0u8; w * 7 * 4];
    draw_digit(&mut buf, 1, 1, w, 1, (10, 20, 30));
    let lit = |x: usize, y: usize| buf[(y * w + x) * 4 + 3] == 255;
    // pattern of 1: 010 / 110 / 010 / 010 / 111
    assert!(lit(2, 1) && !lit(1, 1) && !lit(3, 1));
    assert!(lit(1, 2) && lit(2, 2) && !lit(3, 2));
    assert!(lit(1, 5) && lit(2, 5) && lit(3, 5));
    assert_eq!(&buf[(2 * w + 1) * 4..(2 * w + 1) * 4 + 4], &[10, 20, 30, 255]);
    assert_eq!(buf.iter().filter(|b| **b == 255).count(), 8);
}

#[test]
fn digit_outside_buffer_is_clipped() {
    let mut buf = vec![0u8; 3 * 4];
    draw_digit(&mut buf, 0, 0, 3, 8, (1, 2, 3));
    assert_eq!(buf, vec![1, 2, 3, 255, 1, 2, 3, 255, 1, 2, 3, 255]);
}

#[test]
fn progress_number_centred() {
    let (w, h) = (32usize, 32usize);
    let mut buf = vec![0u8; w * h * 4];
    draw_progress_number(&mut buf, w, h, 100, (255, 255, 255));
    // "100": 11 pixels wide, starting at x = 10, y = 13
    let lit = |x: usize, y: usize| buf[(y * w + x) * 4 + 3] == 255;
    assert!(lit(11, 13));
    assert!(!lit(10, 13));
    assert!(lit(14, 13) && lit(15, 13) && lit(16, 13));
    assert!(lit(18, 17) && lit(20, 17));
    let mut buf2 = vec![0u8; w * h * 4];
    draw_progress_number(&mut buf2, w, h, -7, (255, 255, 255));
    let lit2 = |x: usize, y: usize| buf2[(y * w + x) * 4 + 3] == 255;
    // "0" alone: 3 pixels wide, starting at x = 14
    assert!(lit2(14, 13) && lit2(15, 13) && lit2(16, 13) && !lit2(15, 14));
}

#[test]
fn colours_and_tooltips() {
    let (c, t) = state_icon("running", 42);
    assert_eq!(c, (0xFF, 0xB0, 0x00));
    assert_eq!(t, "🖨 打印中 42%");
    assert_eq!(state_icon("PAUSE", 0).0, (0xFF, 0x8C, 0x00));
    assert_eq!(state_icon("paused", 0).1, "⏸ 已暂停");
    assert_eq!(state_icon("FINISH", 0).0, (0x00, 0xD4, 0xAA));
    assert_eq!(state_icon("success", 0).1, "✅ 已完成");
    assert_eq!(state_icon("IDLE", 0).0, (0xFF, 0x45, 0x45));
    assert_eq!(state_icon("prepare", 0).1, "⏸ 待机");
    assert_eq!(state_icon("FAIL", 0).0, (0xFF, 0x45, 0x45));
    assert_eq!(state_icon("error", 0).1, "❌ 错误");
    assert_eq!(state_icon("weird", 0), ((0x88, 0x88, 0x88), "Bambu Monitor".to_string()));
}

#[test]
fn floating_window() {
    assert_eq!(floating_window_action("printing", 50), WindowAction::Show);
    assert_eq!(floating_window_action("PAUSE", 0), WindowAction::Show);
    assert_eq!(floating_window_action("RUNNING", 100), WindowAction::Keep);
    assert_eq!(floating_window_action("RUNNING", -1), WindowAction::Keep);
    assert_eq!(floating_window_action("finish", 100), WindowAction::HideSoon);
    assert_eq!(floating_window_action("SUCCESS", 100), WindowAction::Keep);
}

#[test]
fn refresh_decision() {
    assert!(tray_refresh_needed("", -1, "IDLE", 0));
    assert!(!tray_refresh_needed("IDLE", 0, "IDLE", 0));
    assert!(tray_refresh_needed("RUNNING", 5, "RUNNING", 6));
}

#[test]
fn completion_announced_once_after_running() {
    let (running, announce) = track_completion(false, "finish");
    assert!(!running && !announce);
    let (running, announce) = track_completion(false, "printing");
    assert!(running && !announce);
    let (running, announce) = track_completion(running, "FINISH");
    assert!(!running && announce);
    let (_, announce) = track_completion(running, "FINISH");
    assert!(!announce);
    assert_eq!(completion_message("benchy"), "任务 'benchy' 已完成");
    assert_eq!(COMPLETION_TITLE, "打印完成");
}

#[test]
fn backend_variant() {
    assert_eq!(backend_tray_status("SUCCESS"), TrayStatus::Unknown);
    assert_eq!(backend_tray_status("PREPARE"), TrayStatus::Unknown);
    assert_eq!(backend_tray_status("FINISH"), TrayStatus::Finished);
    assert_eq!(backend_completion_step(true, "finish"), (false, true));
    assert_eq!(backend_completion_step(false, "Printing"), (false, false));
    assert_eq!(backend_completion_step(false, "printing"), (true, false));
}

#[test]
fn polled_status_defaults() {
    let doc = JsonValue::Object(vec![("gcode_state".to_string(), JsonValue::Str("RUNNING".to_string()))]);
    let p = read_polled_status(&doc);
    assert_eq!(p.state, "RUNNING");
    assert_eq!(p.job, "—");
    assert!(matches!(p.progress, JsonNumber::PosInt(0)));
}

#[test]
fn debug_line() {
    assert_eq!(
        debug_info(5001, true, "0.4.0", "2.1.0"),
        "http_port=5001 mqtt_connected=true app_version=0.4.0 tauri_version=2.1.0"
    );
}

#[test]
fn completion_over_a_sequence_of_reads() {
    let reads = ["IDLE", "running", "RUNNING", "PAUSE", "finish", "FINISH", "IDLE", "SUCCESS", "PRINTING", "COMPLETED"];
    let mut running = false;
    let mut announced = Vec::new();
    for state in reads.iter() {
        let (now, announce) = track_completion(running, state);
        running = now;
        announced.push(announce);
    }
    assert_eq!(announced, vec![false, false, false, false, true, false, false, false, false, true]);
}

#[test]
fn backend_completion_over_a_sequence_of_replies() {
    let replies = ["printing", "RUNNING", "FINISH", "completed", "Printing", "finish", "RUNNING", "SUCCESS", "completed"];
    let mut running = false;
    let mut announced = Vec::new();
    for state in replies.iter() {
        let (now, announce) = backend_completion_step(running, state);
        running = now;
        announced.push(announce);
    }
    assert_eq!(announced, vec![false, false, true, false, false, false, false, false, true]);
}

#[test]
fn progress_number_is_held_to_0_through_100() {
    let (w, h) = (11usize, 5usize);
    let draw = |p: i32| {
        let mut buf = vec![0u8; w * h * 4];
        assert!(can_draw_progress_number(buf.len(), w, h, p));
        draw_progress_number(&mut buf, w, h, p, (9, 8, 7));
        buf
    };
    assert_eq!(draw(250), draw(100));
    assert_eq!(draw(-3), draw(0));
    assert_ne!(draw(42), draw(24));
    // 42 is drawn as two digits, starting at column (11 - 7) / 2 = 2 of row 0.
    let b = draw(42);
    assert_eq!(&b[2 * 4..2 * 4 + 4], &[9, 8, 7, 255]);
    assert_eq!(&b[0..4], &[0, 0, 0, 0]);
}
