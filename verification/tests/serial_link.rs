use qmk::keymap::{KeyAction, Keymap, Layer};
use qmk::keys::Key;
use qmk::pins::Pin;
use qmk::progmem::Progmem;
use qmk::pins::{Register, RegisterFile, EICRA, EIMSK};
use qmk::serial::{SerialError, Transaction};
use qmk::{Hand, KeyboardConfig, QmkKeyboard};

const ROWS_PER_HAND: u8 = 5;
const COLS: u8 = 6;

fn make_keymap(layers: u8) -> Keymap {
    let mut ls = Vec::new();
    for _ in 0..layers {
        let mut keys = Vec::new();
        for i in 0..(2 * ROWS_PER_HAND as usize * COLS as usize) {
            keys.push(KeyAction::Plain(Key((i as u8) + 4)));
        }
        ls.push(Layer { keys });
    }
    Keymap { layers: ls }
}

fn make_keyboard(hand: Hand) -> QmkKeyboard {
    let config = KeyboardConfig {
        hand,
        rows_per_hand: ROWS_PER_HAND,
        matrix_columns: COLS,
        layer_count: 2,
        row_pins: vec![Pin(0x30), Pin(0x31), Pin(0x32), Pin(0x33), Pin(0x34)],
        col_pins: vec![Pin(0x60), Pin(0x61), Pin(0x62), Pin(0x63), Pin(0x64), Pin(0x65)],
        soft_serial_pin: Pin(0x92),
        red_led_pin: Pin(0x93),
        rotary_encoder_resolution: 1,
    };
    QmkKeyboard::new(config, Progmem::store(make_keymap(2)))
}

#[test]
fn serial_init_sets_the_idle_line() {
    // The master drives the pin high as an output.
    let master = make_keyboard(Hand::Left);
    let mut regs = RegisterFile::new();
    master.serial_init(&mut regs);
    let pin = master.config.soft_serial_pin;
    let mask = 1u8 << (pin.0 & 0x0F);
    assert_ne!(regs.get(pin.ddrx_register()) & mask, 0);
    assert_ne!(regs.get(pin.portx_register()) & mask, 0);

    // The slave listens with the pull-up and arms the wake-up interrupt.
    let slave = make_keyboard(Hand::Right);
    let mut regs = RegisterFile::new();
    Register(EICRA).write(&mut regs, 0xFF);
    slave.serial_init(&mut regs);
    assert_eq!(regs.get(pin.ddrx_register()) & mask, 0);
    assert_ne!(regs.get(pin.portx_register()) & mask, 0);
    assert_eq!(Register(EIMSK).read(&regs), qmk::serial::SERIAL_INT_ENABLE);
    assert_eq!(Register(EICRA).read(&regs), 0xFF & !qmk::serial::SERIAL_INT_SENSE);
}

#[test]
fn sync_master_round_trip() {
    let mut sender = make_keyboard(Hand::Left);
    sender.master_shared_memory.master_matrix = vec![0x01, 0x22, 0x00, 0xFF, 0x10];
    let mut line: Vec<bool> = Vec::new();
    sender.serial_write_data(Transaction::SyncMaster, &mut line).unwrap();

    let mut receiver = make_keyboard(Hand::Right);
    let mut pos: usize = 0;
    let r = receiver.serial_read_data(&line, &mut pos);
    assert_eq!(r, Ok(false));
    assert_eq!(receiver.master_shared_memory.master_matrix, vec![0x01, 0x22, 0x00, 0xFF, 0x10]);
}

#[test]
fn sync_slave_round_trip() {
    let mut sender = make_keyboard(Hand::Right);
    sender.slave_shared_memory.slave_matrix = vec![0x20, 0x00, 0x3F, 0x05, 0x0A];
    let mut line: Vec<bool> = Vec::new();
    sender.serial_write_data(Transaction::SyncSlave, &mut line).unwrap();

    let mut receiver = make_keyboard(Hand::Left);
    let mut pos: usize = 0;
    let r = receiver.serial_read_data(&line, &mut pos);
    assert_eq!(r, Ok(false));
    assert_eq!(receiver.slave_shared_memory.slave_matrix, vec![0x20, 0x00, 0x3F, 0x05, 0x0A]);
}

#[test]
fn end_of_communication_ends_the_read() {
    let sender = make_keyboard(Hand::Left);
    let mut line: Vec<bool> = Vec::new();
    sender.serial_write_data(Transaction::EndOfCommunication, &mut line).unwrap();
    assert_eq!(line.len(), 3);

    let mut receiver = make_keyboard(Hand::Right);
    let mut pos: usize = 0;
    let r = receiver.serial_read_data(&line, &mut pos);
    assert_eq!(r, Ok(true));
}

#[test]
fn tag_parity_flip_is_a_fault() {
    let mut sender = make_keyboard(Hand::Left);
    sender.master_shared_memory.master_matrix = vec![0x01, 0x02, 0x03, 0x04, 0x05];
    let mut line: Vec<bool> = Vec::new();
    sender.serial_write_data(Transaction::SyncMaster, &mut line).unwrap();
    line[2] = !line[2];

    let mut receiver = make_keyboard(Hand::Right);
    let mut pos: usize = 0;
    assert_eq!(receiver.serial_read_data(&line, &mut pos), Err(SerialError));
}

#[test]
fn any_payload_parity_flip_is_a_fault() {
    for byte_index in 0..ROWS_PER_HAND as usize {
        let mut sender = make_keyboard(Hand::Left);
        sender.master_shared_memory.master_matrix = vec![0x01, 0x02, 0x03, 0x04, 0x05];
        let mut line: Vec<bool> = Vec::new();
        sender.serial_write_data(Transaction::SyncMaster, &mut line).unwrap();
        let p = 3 + 9 * byte_index + 8;
        line[p] = !line[p];

        let mut receiver = make_keyboard(Hand::Right);
        let mut pos: usize = 0;
        assert_eq!(receiver.serial_read_data(&line, &mut pos), Err(SerialError));
        // The whole frame was still consumed, keeping the stream aligned.
        assert_eq!(pos, 3 + 9 * ROWS_PER_HAND as usize + 8);
    }
}

#[test]
fn checksum_corruption_is_a_fault() {
    for bit in 0..8usize {
        let mut sender = make_keyboard(Hand::Left);
        sender.master_shared_memory.master_matrix = vec![0x11, 0x22, 0x33, 0x44, 0x55];
        let mut line: Vec<bool> = Vec::new();
        sender.serial_write_data(Transaction::SyncMaster, &mut line).unwrap();
        let checksum_start = 3 + 9 * ROWS_PER_HAND as usize;
        line[checksum_start + bit] = !line[checksum_start + bit];

        let mut receiver = make_keyboard(Hand::Right);
        let mut pos: usize = 0;
        assert_eq!(receiver.serial_read_data(&line, &mut pos), Err(SerialError));
    }
}

#[test]
fn tag_validation_rejects_reserved_and_unknown() {
    assert_eq!(Transaction::from_tag(0), Err(SerialError));
    assert_eq!(Transaction::from_tag(1), Ok(Transaction::EndOfCommunication));
    assert_eq!(Transaction::from_tag(2), Ok(Transaction::SyncSlave));
    assert_eq!(Transaction::from_tag(3), Ok(Transaction::SyncMaster));
    assert_eq!(Transaction::from_tag(4), Err(SerialError));
    assert_eq!(Transaction::from_tag(255), Err(SerialError));
}

#[test]
fn line_held_low_is_a_fault() {
    // A line stuck low reads the all-zero Reserved tag.
    let line = vec![false; 64];
    let mut receiver = make_keyboard(Hand::Right);
    let mut pos: usize = 0;
    assert_eq!(receiver.serial_read_data(&line, &mut pos), Err(SerialError));
    assert_eq!(pos, 3);
}

#[test]
fn dead_link_returns_and_counts_one_error() {
    // A floating or disconnected line reads high everywhere: the exchange
    // must return within one call and bump the diagnostic counter.
    let mut master = make_keyboard(Hand::Left);
    assert_eq!(master.error_count, 0);
    let floating: Vec<bool> = Vec::new();
    let sent = master.master_exec_transactions(&floating);
    assert!(!sent.is_empty());
    assert_eq!(master.error_count, 1);

    let held_low = vec![false; 300];
    master.master_exec_transactions(&held_low);
    assert_eq!(master.error_count, 2);
}

#[test]
fn cross_half_merge_places_master_row() {
    // Master's local row 0 = 0b000001; after one successful exchange the
    // slave's logical matrix holds that row at the master's offset.
    let mut master = make_keyboard(Hand::Left);
    master.current_matrix[0] = 0b000001;
    master.slave_shared_memory.slave_matrix = vec![0; ROWS_PER_HAND as usize];

    let mut slave = make_keyboard(Hand::Right);
    slave.current_matrix[5] = 0b100000;  // the slave's own half, rows [5, 10)
    // The slave copies its half into its outgoing view (its serial task).
    slave.serial_task(&Vec::new());
    assert_eq!(slave.slave_shared_memory.slave_matrix[0], 0b100000);

    // The master's half rides in SyncMaster; the slave's reaction decodes
    // it and responds with SyncSlave.
    master.master_shared_memory.master_matrix = master.current_matrix[0..5].to_vec();
    let mut sent: Vec<bool> = Vec::new();
    master.serial_write_data(Transaction::SyncMaster, &mut sent).unwrap();
    master.serial_write_data(Transaction::EndOfCommunication, &mut sent).unwrap();
    let response = slave.serial_interrupt(&sent);
    assert!(!response.is_empty());
    assert_eq!(slave.master_shared_memory.master_matrix, vec![0b000001, 0, 0, 0, 0]);
    assert_eq!(slave.error_count, 0);

    // The slave's next serial task merges the master rows into its matrix
    // at the master's offset (the other hand's offset, 0 on the right).
    slave.serial_task(&Vec::new());
    assert_eq!(slave.current_matrix[0], 0b000001);

    // The master reads the slave's response into its own logical matrix.
    let sent = master.serial_task(&response);
    assert!(sent.is_some());
    assert_eq!(master.error_count, 0);
    assert_eq!(master.slave_shared_memory.slave_matrix[0], 0b100000);
    assert_eq!(master.current_matrix[5], 0b100000);
}
