use qmk::keymap::{flat_index, KeyAction, Keymap, Layer};
use qmk::keys::{Key, LayerDown, LayerUp, NoOpKey, TransparentUp};
use qmk::pins::Pin;
use qmk::progmem::Progmem;
use qmk::{is_left, is_master, is_right, side, Hand, KeyboardConfig, QmkKeyboard};

const ROWS_PER_HAND: u8 = 5;
const COLS: u8 = 6;

fn layer_of(cells: &[KeyAction]) -> Layer {
    Layer { keys: cells.to_vec() }
}

fn make_keyboard(keymap: Keymap, layer_count: u8) -> QmkKeyboard {
    let config = KeyboardConfig {
        hand: Hand::Left,
        rows_per_hand: ROWS_PER_HAND,
        matrix_columns: COLS,
        layer_count,
        row_pins: vec![Pin(0x30), Pin(0x31), Pin(0x32), Pin(0x33), Pin(0x34)],
        col_pins: vec![Pin(0x60), Pin(0x61), Pin(0x62), Pin(0x63), Pin(0x64), Pin(0x65)],
        soft_serial_pin: Pin(0x92),
        red_led_pin: Pin(0x93),
        rotary_encoder_resolution: 1,
    };
    QmkKeyboard::new(config, Progmem::store(keymap))
}

fn plain_layer(base: u8) -> Layer {
    let mut cells = Vec::new();
    for i in 0..(2 * ROWS_PER_HAND as usize * COLS as usize) {
        cells.push(KeyAction::Plain(Key(base + i as u8)));
    }
    layer_of(&cells)
}

#[test]
fn flat_index_matches_the_packed_layout() {
    // A full keymap row holds both halves' rows interleaved by column
    // pair: row 2 column 3 on the first sub-half, then the other sub-half
    // shifted by one column block.
    assert_eq!(flat_index(2, 3, ROWS_PER_HAND, COLS), 3 + 2 * 12);
    assert_eq!(flat_index(7, 3, ROWS_PER_HAND, COLS), 3 + 2 * 12 + 6);
    assert_eq!(flat_index(0, 0, ROWS_PER_HAND, COLS), 0);
    assert_eq!(flat_index(5, 0, ROWS_PER_HAND, COLS), 6);
    assert_eq!(flat_index(4, 5, ROWS_PER_HAND, COLS), 5 + 4 * 12);
    assert_eq!(flat_index(9, 5, ROWS_PER_HAND, COLS), 5 + 4 * 12 + 6);
}

#[test]
fn flat_index_covers_every_cell_exactly_once() {
    // Injective and covering [0, rows * cols): no two coordinates alias
    // the same keymap cell.
    let total = 2 * ROWS_PER_HAND as usize * COLS as usize;
    let mut seen = vec![false; total];
    for row in 0..2 * ROWS_PER_HAND {
        for col in 0..COLS {
            let idx = flat_index(row, col, ROWS_PER_HAND, COLS);
            assert!(idx < total);
            assert!(!seen[idx], "cell aliased");
            seen[idx] = true;
        }
    }
    assert!(seen.iter().all(|&s| s));
}

#[test]
fn get_key_reads_the_addressed_cell() {
    let kb = make_keyboard(Keymap { layers: vec![plain_layer(4)] }, 1);
    assert_eq!(kb.get_key(0, 3, 2), KeyAction::Plain(Key(4 + 27)));
    assert_eq!(kb.get_key(0, 0, 0), KeyAction::Plain(Key(4)));
}

#[test]
fn layer_moves_saturate_at_the_ends() {
    let keymap = Keymap { layers: vec![plain_layer(4), plain_layer(4), plain_layer(4)] };
    let mut kb = make_keyboard(keymap, 3);
    assert_eq!(kb.layer, 0);
    kb.layer_up(1);
    assert_eq!(kb.layer, 0);
    kb.layer_down(2);
    assert_eq!(kb.layer, 2);
    kb.layer_down(5);
    assert_eq!(kb.layer, 2);
    kb.layer_up(1);
    assert_eq!(kb.layer, 1);
    assert_eq!(kb.get_layer_up(4), 0);
    assert_eq!(kb.get_layer_down(9), 2);
}

#[test]
fn layer_keys_move_the_current_layer() {
    let mut up_cells = plain_layer(100);
    up_cells.keys[0] = KeyAction::Up(LayerUp(1));
    let mut down_cells = plain_layer(4);
    down_cells.keys[0] = KeyAction::Down(LayerDown(1));
    let keymap = Keymap { layers: vec![down_cells, up_cells] };
    let mut kb = make_keyboard(keymap, 2);

    // Pressing the layer-down key on layer 0 moves to layer 1.
    kb.key_pressed(0, 0);
    assert_eq!(kb.layer, 1);
    // Pressing the same cell, now a layer-up key, moves back.
    kb.key_pressed(0, 0);
    assert_eq!(kb.layer, 0);
}

#[test]
fn transparent_key_resolves_one_layer_up() {
    let base = plain_layer(40);
    let mut upper = plain_layer(90);
    upper.keys[27] = KeyAction::Transparent(TransparentUp);
    let keymap = Keymap { layers: vec![base, upper] };
    let mut kb = make_keyboard(keymap, 2);
    kb.layer = 1;

    // Cell (row 2, col 3) is transparent on layer 1: the press falls
    // through to layer 0's plain key.
    kb.key_pressed(3, 2);
    let codes: Vec<u8> =
        kb.hid.keyboard_report.key_code.iter().cloned().filter(|&c| c != 0).collect();
    assert_eq!(codes, vec![40 + 27]);

    // Releasing through the transparent cell removes the same code.
    kb.key_released(3, 2);
    assert!(kb.hid.keyboard_report.key_code.iter().all(|&c| c == 0));
}

#[test]
fn transparent_on_layer_zero_is_a_no_op() {
    let mut base = plain_layer(40);
    base.keys[0] = KeyAction::Transparent(TransparentUp);
    let keymap = Keymap { layers: vec![base] };
    let mut kb = make_keyboard(keymap, 1);
    kb.key_pressed(0, 0);
    assert!(kb.hid.keyboard_report.key_code.iter().all(|&c| c == 0));
    assert_eq!(kb.layer, 0);
}

#[test]
fn noop_key_does_nothing() {
    let mut base = plain_layer(40);
    base.keys[1] = KeyAction::NoOp(NoOpKey);
    let keymap = Keymap { layers: vec![base] };
    let mut kb = make_keyboard(keymap, 1);
    kb.key_pressed(1, 0);
    assert!(kb.hid.keyboard_report.key_code.iter().all(|&c| c == 0));
}

#[test]
fn sides_and_master_follow_the_hand() {
    assert!(!side(Hand::Left));
    assert!(side(Hand::Right));
    assert!(is_left(Hand::Left));
    assert!(!is_left(Hand::Right));
    assert!(is_right(Hand::Right));
    assert!(is_master(Hand::Left));
    assert!(!is_master(Hand::Right));
}
