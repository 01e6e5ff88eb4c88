use qmk::bin_packed::{BinPackedArray, IndexByValue, IndexByValueMut};
use qmk::graphics::QmkImage;
use qmk::init::disable_watchdog;
use qmk::pins::{Pin, Register, RegisterFile, CS00, CS01, CS10, OCIE0A, OCR0A, TCCR0A, TCCR0B,
    TCCR1A, TCCR1B, TCNT1L, TIMSK0, WDTCSR, WGM01};
use qmk::progmem::{Flash, Progmem, ProgmemPtr, ProgmemRef};
use qmk::timer::{cycles_elapsed, cycles_read, timer_init, Timer, TIMER_RAW_TOP};

#[test]
fn timer_counts_milliseconds() {
    let mut t = Timer::new();
    assert_eq!(t.timer_read(), 0);
    t.timer_increment();
    t.timer_increment();
    assert_eq!(t.timer_read(), 2);
    assert_eq!(t.timer_elapsed(0), 2);
    assert!(!t.timer_expired(2));
    assert!(t.timer_expired(1));
}

#[test]
fn timer_elapsed_is_correct_across_wraparound() {
    let mut t = Timer::new();
    t.ms = u32::MAX;
    t.timer_increment();
    assert_eq!(t.ms, 0);
    t.ms = 3;
    assert_eq!(t.timer_elapsed(u32::MAX - 1), 5);
    assert_eq!(t.timer_elapsed16(u32::MAX - 1), 5);
    t.ms = 0x2_0005 & 0xFFFF_FFFF;
    assert_eq!(t.timer_elapsed16(5), 0);
}

#[test]
fn timer_init_configures_both_clocks() {
    let mut regs = RegisterFile::new();
    timer_init(&mut regs);
    assert_eq!(Register(TCCR0A).read(&regs), WGM01);
    assert_eq!(Register(TCCR0B).read(&regs), CS00 | CS01);
    assert_eq!(Register(OCR0A).read(&regs), TIMER_RAW_TOP);
    assert_eq!(Register(TIMSK0).read(&regs), OCIE0A);
    assert_eq!(Register(TCCR1A).read(&regs), 0);
    assert_eq!(Register(TCCR1B).read(&regs), CS10);
}

#[test]
fn cycle_counter_wraps() {
    let mut regs = RegisterFile::new();
    Register(TCNT1L).write(&mut regs, 10);
    assert_eq!(cycles_read(&regs), 10);
    assert_eq!(cycles_elapsed(&regs, 250), 16);
}

#[test]
fn gpio_pins_poke_their_own_bits() {
    let mut regs = RegisterFile::new();
    let pin = Pin(0x23);  // port 2, bit 3
    let ddr = pin.ddrx_register();
    let port = pin.portx_register();

    pin.gpio_set_pin_output(&mut regs);
    assert_eq!(regs.get(ddr), 0b0000_1000);
    pin.gpio_write_pin_high(&mut regs);
    assert_eq!(regs.get(port), 0b0000_1000);
    pin.gpio_write_pin_low(&mut regs);
    assert_eq!(regs.get(port), 0);
    pin.gpio_write_pin(&mut regs, true);
    assert_eq!(regs.get(port), 0b0000_1000);
    pin.gpio_toggle_pin(&mut regs);
    assert_eq!(regs.get(port), 0);
    pin.gpio_set_pin_input_high(&mut regs);
    assert_eq!(regs.get(ddr), 0);
    assert_eq!(regs.get(port), 0b0000_1000);

    // The level comes from the input register, set by the outside world.
    let pinx = pin.pinx_register();
    regs.set(pinx, 0b0000_1000);
    assert!(pin.gpio_read_pin(&regs));
    regs.set(pinx, 0);
    assert!(!pin.gpio_read_pin(&regs));

    assert!(pin.is_wired());
    assert!(!Pin::no_pin().is_wired());
}

#[test]
fn watchdog_disable_clears_the_control_register() {
    let mut regs = RegisterFile::new();
    Register(WDTCSR).write(&mut regs, 0xFF);
    disable_watchdog(&mut regs);
    assert_eq!(Register(WDTCSR).read(&regs), 0);
}

#[test]
fn rotary_init_idles_both_pads() {
    let mut regs = RegisterFile::new();
    let pin1 = Pin(0x34);
    let pin2 = Pin(0x35);
    // Drive them first so the init has something to undo.
    pin1.gpio_set_pin_output(&mut regs);
    pin2.gpio_set_pin_output(&mut regs);
    qmk::rotary_encoder::RotaryEncoder::init(&mut regs, pin1, pin2);
    assert_eq!(regs.get(pin1.ddrx_register()), 0);
    assert_eq!(regs.get(pin1.portx_register()), 0b0011_0000);
}

#[test]
fn rotary_encoder_counts_detents() {
    let mut enc = qmk::rotary_encoder::RotaryEncoder::new();
    // One full quadrature cycle in one direction.
    enc.fast_encoder_task(true, false);
    enc.fast_encoder_task(true, true);
    enc.fast_encoder_task(false, true);
    enc.fast_encoder_task(false, false);
    assert_eq!(enc.encoder.pulses, -4);
    let detents = enc.task(4);
    assert_eq!(detents, -1);
    assert_eq!(enc.encoder.pulses, 0);
}

#[test]
fn rotary_task_keeps_the_remainder() {
    let mut enc = qmk::rotary_encoder::RotaryEncoder::new();
    enc.encoder.pulses = 7;
    assert_eq!(enc.task(4), 1);
    assert_eq!(enc.encoder.pulses, 3);
    enc.encoder.pulses = -7;
    assert_eq!(enc.task(4), -1);
    assert_eq!(enc.encoder.pulses, -3);
}

#[test]
fn progmem_reads_are_exact() {
    let flash = Flash::new(vec![10, 20, 30, 40, 50]);
    let mut ptr = ProgmemPtr::new(1, 3);
    assert_eq!(ptr.address(), 1);
    assert_eq!(ptr.len(), 3);
    assert_eq!(ptr.read_byte(&flash), 20);
    assert_eq!(ptr.read_byte_incr(&flash), 20);
    assert_eq!(ptr.read_byte(&flash), 30);

    let r = ProgmemRef::new(1, 3);
    assert_eq!(r.read(&flash), vec![20, 30, 40]);
    let mut it = r.iter_u8();
    assert_eq!(it.size_hint(), 3);
    assert_eq!(it.next(&flash), Some(20));
    assert_eq!(it.next(&flash), Some(30));
    assert_eq!(it.next(&flash), Some(40));
    assert_eq!(it.next(&flash), None);

    let value: Progmem<u8> = Progmem::store(77);
    assert_eq!(value.read_value(), 77);
}

#[test]
fn bin_packed_bits_are_independent() {
    let mut bits = BinPackedArray::new(4);
    assert!(!bits.at(13));
    bits.set(13, true);
    bits.set(14, true);
    assert!(bits.at(13));
    assert!(bits.at(14));
    assert!(!bits.at(12));
    assert!(!bits.at(5));
    bits.set(13, false);
    assert!(!bits.at(13));
    assert!(bits.at(14));
    assert_eq!(bits.data, vec![0, 0b0100_0000, 0, 0]);
}

#[test]
fn image_pixels_follow_the_packing() {
    // Pixel (x, y) lives in byte (y*width + x)/8 at bit y%8 of it.
    let img = QmkImage { width: 8, height: 2, bytes: vec![0b0000_0001, 0b0000_0010, 0] };
    assert_eq!(img.get_pixel(0, 0), Some(true));
    assert_eq!(img.get_pixel(1, 0), Some(true));
    assert_eq!(img.get_pixel(0, 1), Some(true));
    assert_eq!(img.get_pixel(1, 1), Some(true));
    assert_eq!(img.get_pixel(8, 0), None);
    assert_eq!(img.get_pixel(0, 2), None);
}
