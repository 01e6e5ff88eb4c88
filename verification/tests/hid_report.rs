use qmk::usb::{version_bcd, HidState, MAX_KEYS};

#[test]
fn add_code_lands_in_the_last_free_slot() {
    let mut hid = HidState::new();
    hid.add_code(0x04);
    assert_eq!(hid.keyboard_report.key_code, vec![0, 0, 0, 0, 0, 0x04]);
    assert!(hid.keyboard_updated);
    hid.add_code(0x05);
    assert_eq!(hid.keyboard_report.key_code, vec![0, 0, 0, 0, 0x05, 0x04]);
}

#[test]
fn add_code_ignores_a_present_code() {
    let mut hid = HidState::new();
    hid.add_code(0x04);
    hid.keyboard_updated = false;
    hid.add_code(0x04);
    assert_eq!(hid.keyboard_report.key_code, vec![0, 0, 0, 0, 0, 0x04]);
    assert!(!hid.keyboard_updated);
}

#[test]
fn add_code_ignores_a_full_report() {
    let mut hid = HidState::new();
    for code in 10..10 + MAX_KEYS {
        hid.add_code(code);
    }
    hid.keyboard_updated = false;
    hid.add_code(0x30);
    assert_eq!(hid.keyboard_report.key_code, vec![15, 14, 13, 12, 11, 10]);
    assert!(!hid.keyboard_updated);
}

#[test]
fn remove_code_clears_the_first_occurrence() {
    let mut hid = HidState::new();
    hid.keyboard_report.key_code = vec![7, 9, 7, 0, 0, 0];
    hid.keyboard_updated = false;
    hid.remove_code(7);
    assert_eq!(hid.keyboard_report.key_code, vec![0, 9, 7, 0, 0, 0]);
    assert!(hid.keyboard_updated);
}

#[test]
fn remove_code_ignores_an_absent_code() {
    let mut hid = HidState::new();
    hid.keyboard_report.key_code = vec![7, 9, 0, 0, 0, 0];
    hid.keyboard_updated = false;
    hid.remove_code(3);
    assert_eq!(hid.keyboard_report.key_code, vec![7, 9, 0, 0, 0, 0]);
    assert!(!hid.keyboard_updated);
}

#[test]
fn toggle_code_inserts_then_clears() {
    let mut hid = HidState::new();
    hid.toggle_code(0x1D);
    assert_eq!(hid.keyboard_report.key_code, vec![0, 0, 0, 0, 0, 0x1D]);
    hid.toggle_code(0x1D);
    assert!(hid.keyboard_report.key_code.iter().all(|&c| c == 0));
}

#[test]
fn keyboard_report_waits_for_the_endpoint() {
    let mut hid = HidState::new();
    hid.add_code(0x04);
    // Not configured: nothing goes out, the dirty flag stays.
    assert!(hid.send_next_keyboard_report(false, true).is_none());
    assert!(hid.keyboard_updated);
    // Configured but endpoint busy: still nothing.
    assert!(hid.send_next_keyboard_report(true, false).is_none());
    assert!(hid.keyboard_updated);
    // Ready: the report goes out and the flag clears.
    let report = hid.send_next_keyboard_report(true, true).unwrap();
    assert_eq!(report.key_code, vec![0, 0, 0, 0, 0, 0x04]);
    assert!(!hid.keyboard_updated);
    // Nothing new: nothing more goes out.
    assert!(hid.send_next_keyboard_report(true, true).is_none());
}

#[test]
fn idle_period_forces_a_report() {
    let mut hid = HidState::new();
    hid.idle_count = 8;
    hid.idle_ms_remaining = 2;
    // The idle period has not expired and nothing changed: no report.
    assert!(hid.send_next_keyboard_report(true, true).is_none());
    hid.start_of_frame();
    hid.start_of_frame();
    assert_eq!(hid.idle_ms_remaining, 0);
    // Expired: a report is due even without changes, and the period
    // restarts.
    assert!(hid.send_next_keyboard_report(true, true).is_some());
    assert_eq!(hid.idle_ms_remaining, 8);
}

#[test]
fn start_of_frame_saturates_at_zero() {
    let mut hid = HidState::new();
    hid.idle_ms_remaining = 1;
    hid.start_of_frame();
    assert_eq!(hid.idle_ms_remaining, 0);
    hid.start_of_frame();
    assert_eq!(hid.idle_ms_remaining, 0);
}

#[test]
fn mouse_report_sends_while_moving() {
    let mut hid = HidState::new();
    assert!(hid.send_next_mouse_report(true, true).is_none());
    hid.mouse_report.x = 3;
    let report = hid.send_next_mouse_report(true, true).unwrap();
    assert_eq!(report.x, 3);
}

#[test]
fn mouse_send_clears_the_keyboard_flag() {
    // The mouse send has always cleared the keyboard dirty flag; callers
    // rely on the order: keyboard decision first, then the mouse one.
    let mut hid = HidState::new();
    hid.add_code(0x05);
    hid.mouse_report.x = 1;
    assert!(hid.keyboard_updated);
    let r = hid.send_next_mouse_report(true, true);
    assert!(r.is_some());
    assert!(!hid.keyboard_updated);
}

#[test]
fn hid_task_serves_both_endpoints() {
    let mut hid = HidState::new();
    hid.add_code(0x09);
    hid.mouse_report.y = -2;
    let (kb, mouse) = hid.hid_task(true, true, true);
    assert_eq!(kb.unwrap().key_code, vec![0, 0, 0, 0, 0, 0x09]);
    assert_eq!(mouse.unwrap().y, -2);
    let (kb2, _) = hid.hid_task(false, true, true);
    assert!(kb2.is_none());
}

#[test]
fn version_bcd_packs_nibbles() {
    assert_eq!(version_bcd(1, 2, 3), 0x0123);
    assert_eq!(version_bcd(0x12, 0xF5, 0x39), 0x1259);
}
