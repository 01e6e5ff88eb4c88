use qmk::keymap::{KeyAction, Keymap, Layer};
use qmk::keys::Key;
use qmk::matrix::DEBOUNCE;
use qmk::pins::Pin;
use qmk::progmem::Progmem;
use qmk::{Hand, KeyboardConfig, QmkKeyboard};

const ROWS_PER_HAND: u8 = 5;
const COLS: u8 = 6;

fn make_keymap(layers: u8) -> Keymap {
    let mut ls = Vec::new();
    for _ in 0..layers {
        let mut keys = Vec::new();
        for i in 0..(2 * ROWS_PER_HAND as usize * COLS as usize) {
            keys.push(KeyAction::Plain(Key((i as u8) + 4)));
        }
        ls.push(Layer { keys });
    }
    Keymap { layers: ls }
}

fn make_keyboard(hand: Hand) -> QmkKeyboard {
    let config = KeyboardConfig {
        hand,
        rows_per_hand: ROWS_PER_HAND,
        matrix_columns: COLS,
        layer_count: 2,
        row_pins: vec![Pin(0x30), Pin(0x31), Pin(0x32), Pin(0x33), Pin(0x34)],
        col_pins: vec![Pin(0x60), Pin(0x61), Pin(0x62), Pin(0x63), Pin(0x64), Pin(0x65)],
        soft_serial_pin: Pin(0x92),
        red_led_pin: Pin(0x93),
        rotary_encoder_resolution: 1,
    };
    QmkKeyboard::new(config, Progmem::store(make_keymap(2)))
}

/// Column samples for one half: true = pin high = released.
fn samples_with(pressed: &[(usize, usize)]) -> Vec<Vec<bool>> {
    let mut s = vec![vec![true; COLS as usize]; ROWS_PER_HAND as usize];
    for &(r, c) in pressed {
        s[r][c] = false;
    }
    s
}

#[test]
fn debounce_commits_once_after_window() {
    // A single raw toggle commits exactly once, DEBOUNCE ms later, never
    // before.
    let mut kb = make_keyboard(Hand::Left);
    kb.raw_matrix[2] = 0b001000;
    assert!(!kb.debounce(true, 100));
    assert_eq!(kb.current_matrix[2], 0);
    for i in 1..DEBOUNCE {
        assert!(!kb.debounce(false, 100 + i));
        assert_eq!(kb.current_matrix[2], 0);
    }
    assert!(kb.debounce(false, 100 + DEBOUNCE));
    assert_eq!(kb.current_matrix[2], 0b001000);
    // Stable afterwards: no further change is reported.
    assert!(!kb.debounce(false, 100 + DEBOUNCE + 1));
    assert!(!kb.debounce(false, 100 + DEBOUNCE + 2));
}

#[test]
fn debounce_chatter_waits_for_last_toggle() {
    // Chatter inside the window restarts the wait: no commit until
    // DEBOUNCE ms after the last toggle.
    let mut kb = make_keyboard(Hand::Left);
    kb.raw_matrix[1] = 0b000010;
    assert!(!kb.debounce(true, 50));
    assert!(!kb.debounce(false, 52));
    // Another toggle 3 ms in: the stamp resets.
    assert!(!kb.debounce(true, 53));
    // What would have been the first window's expiry does nothing.
    assert!(!kb.debounce(false, 55));
    assert_eq!(kb.current_matrix[1], 0);
    assert!(!kb.debounce(false, 57));
    assert_eq!(kb.current_matrix[1], 0);
    // DEBOUNCE ms after the last toggle it commits.
    assert!(kb.debounce(false, 53 + DEBOUNCE));
    assert_eq!(kb.current_matrix[1], 0b000010);
}

#[test]
fn debounce_works_across_timer_wraparound() {
    let mut kb = make_keyboard(Hand::Left);
    kb.raw_matrix[0] = 1;
    let t0 = u32::MAX - 2;
    assert!(!kb.debounce(true, t0));
    assert!(!kb.debounce(false, t0.wrapping_add(2)));
    assert_eq!(kb.current_matrix[0], 0);
    assert!(kb.debounce(false, t0.wrapping_add(DEBOUNCE)));
    assert_eq!(kb.current_matrix[0], 1);
}

#[test]
fn scan_left_packs_columns_ascending() {
    let kb = make_keyboard(Hand::Left);
    let mut samples = vec![true; COLS as usize];
    samples[0] = false;
    samples[3] = false;
    assert_eq!(kb.matrix_read_cols_on_row(&samples), 0b001001);
}

#[test]
fn scan_right_packs_columns_descending() {
    let kb = make_keyboard(Hand::Right);
    let mut samples = vec![true; COLS as usize];
    samples[0] = false;
    assert_eq!(kb.matrix_read_cols_on_row(&samples), 0b100000);
}

#[test]
fn scan_skips_unwired_rows_and_columns() {
    let mut kb = make_keyboard(Hand::Left);
    kb.config.row_pins[1] = Pin(0xFF);
    kb.config.col_pins[2] = Pin(0xFF);
    // All columns low: every wired position reads pressed.
    let samples = vec![vec![false; COLS as usize]; ROWS_PER_HAND as usize];
    kb.matrix_scan(&samples, 0);
    // Row 1 is unwired: it scans as released; column 2 never reads pressed.
    assert_eq!(kb.raw_matrix[0], 0b111011);
    assert_eq!(kb.raw_matrix[1], 0);
    assert_eq!(kb.raw_matrix[2], 0b111011);
}

#[test]
fn matrix_init_idles_every_pin() {
    let kb = make_keyboard(Hand::Left);
    let mut regs = qmk::pins::RegisterFile::new();
    // Leave the pins in a scrambled state first.
    for pin in kb.config.row_pins.iter().chain(kb.config.col_pins.iter()) {
        pin.gpio_set_pin_output(&mut regs);
        pin.gpio_write_pin_low(&mut regs);
    }
    kb.matrix_init(&mut regs);
    for pin in kb.config.row_pins.iter().chain(kb.config.col_pins.iter()) {
        let mask = 1u8 << (pin.0 & 0x0F);
        // Input (direction bit clear) with the pull-up on (port bit set).
        assert_eq!(regs.get(pin.ddrx_register()) & mask, 0);
        assert_ne!(regs.get(pin.portx_register()) & mask, 0);
    }
}

#[test]
fn two_keys_in_one_tick_both_dispatch() {
    // Two cells change in the same committed tick: both fire.
    let mut kb = make_keyboard(Hand::Left);
    let idle: Vec<bool> = Vec::new();
    let pressed = samples_with(&[(0, 0), (2, 3)]);
    let mut now: u32 = 1;
    kb.matrix_task(&pressed, now, &idle);
    for _ in 0..DEBOUNCE {
        now += 1;
        kb.matrix_task(&pressed, now, &idle);
    }
    let mut codes: Vec<u8> =
        kb.hid.keyboard_report.key_code.iter().cloned().filter(|&c| c != 0).collect();
    codes.sort();
    // Cell (0,0) is code 4; cell (2,3) is flat index 27, code 31.
    assert_eq!(codes, vec![4, 31]);
}

#[test]
fn task_runs_the_whole_tick() {
    let mut kb = make_keyboard(Hand::Left);
    let idle: Vec<bool> = Vec::new();
    let pressed = samples_with(&[(0, 0)]);
    kb.rotary_encoder.encoder.pulses = 3;

    let (changed, kb_report, mouse_report, detents) = kb.task(&pressed, 1, &idle, true, true, true);
    assert!(!changed);  // the debounce window only just armed
    assert!(kb_report.is_none());  // nothing dirty yet
    assert!(mouse_report.is_none());
    assert_eq!(detents, 3);  // resolution 1: every pulse is a detent
    assert_eq!(kb.rotary_encoder.encoder.pulses, 0);

    let mut now = 1;
    for _ in 0..DEBOUNCE {
        now += 1;
        kb.task(&pressed, now, &idle, true, true, true);
    }
    // The press went through the pipeline; the next tick reports it.
    let (_, kb_report, _, _) = kb.task(&pressed, now + 1, &idle, true, true, true);
    assert_eq!(kb_report.unwrap().key_code, vec![0, 0, 0, 0, 0, 4]);
}

#[test]
fn single_key_press_dispatches_once() {
    // Row 2, column 3 goes down on the left half; after the debounce
    // settles the press handler for keymap cell (layer 0, row 2, column 3)
    // fires exactly once, and the release handler once on the way back.
    let mut kb = make_keyboard(Hand::Left);
    let idle: Vec<bool> = Vec::new();
    let pressed = samples_with(&[(2, 3)]);
    let released = samples_with(&[]);

    // Keymap cell (0, row 2, col 3): flat index 3 + 2*12 = 27, code 31.
    let expected_code = 27 + 4;

    let mut now: u32 = 1;
    // The toggle tick arms the window; nothing dispatches yet.
    assert!(!kb.matrix_task(&pressed, now, &idle));
    assert!(kb.hid.keyboard_report.key_code.iter().all(|&c| c == 0));
    // Stable ticks inside the window dispatch nothing either.
    for _ in 0..DEBOUNCE - 1 {
        now += 1;
        assert!(!kb.matrix_task(&pressed, now, &idle));
        assert!(kb.hid.keyboard_report.key_code.iter().all(|&c| c == 0));
    }
    // The tick that closes the window commits and dispatches the press.
    now += 1;
    assert!(kb.matrix_task(&pressed, now, &idle));
    let codes: Vec<u8> = kb.hid.keyboard_report.key_code.iter().cloned().filter(|&c| c != 0).collect();
    assert_eq!(codes, vec![expected_code]);
    assert!(kb.hid.keyboard_updated);

    // Further stable ticks change nothing: the press fired exactly once.
    kb.hid.keyboard_updated = false;
    now += 1;
    assert!(!kb.matrix_task(&pressed, now, &idle));
    assert!(!kb.hid.keyboard_updated);

    // Release: the key comes back up, and after the window the release
    // handler fires exactly once.
    now += 1;
    assert!(!kb.matrix_task(&released, now, &idle));
    for _ in 0..DEBOUNCE - 1 {
        now += 1;
        assert!(!kb.matrix_task(&released, now, &idle));
    }
    now += 1;
    assert!(kb.matrix_task(&released, now, &idle));
    assert!(kb.hid.keyboard_report.key_code.iter().all(|&c| c == 0));
    assert!(kb.hid.keyboard_updated);
}
