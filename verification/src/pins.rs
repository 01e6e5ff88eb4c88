//! Typed access to the microcontroller's I/O registers and GPIO pins.
//!
//! The register space is modeled as an explicit 256-byte file
//! ([`RegisterFile`]), so that every read-modify-write a pin operation
//! performs is ordinary verified code. The unverified shell owns the file
//! and is responsible for presenting the input registers (what the pins
//! actually read) and applying the output registers to the world.
use vstd::prelude::*;

verus! {

/// Number of bytes in the modeled I/O register space.
pub const REGISTER_SPACE: usize = 256;

/// Offset of the memory-mapped I/O area.
pub const ADDRESS_BASE: usize = 0x20;

/// A pin code packs the port index in its high nibble.
pub const PORT_SHIFTER: u8 = 4;

/// Settle delay (in CPU cycles) after reconfiguring an input pin.
pub const GPIO_INPUT_PIN_DELAY: u64 = 2;

/// The whole I/O register space as explicit state.
pub struct RegisterFile {
    bytes: Vec<u8>,
}

impl View for RegisterFile {
    type V = Seq<u8>;

    closed spec fn view(&self) -> Seq<u8> {
        self.bytes@
    }
}

impl RegisterFile {
    /// The file always spans the whole register space.
    pub open spec fn wf(&self) -> bool {
        self@.len() == REGISTER_SPACE
    }

    /// A fresh register file, all registers reading zero.
    pub fn new() -> (r: RegisterFile)
        ensures
            r.wf(),
            forall|i: int| 0 <= i < REGISTER_SPACE ==> r@[i] == 0u8,
    {
        let mut bytes: Vec<u8> = Vec::new();
        let mut i: usize = 0;
        while i < REGISTER_SPACE
            invariant
                i <= REGISTER_SPACE,
                bytes@.len() == i,
                forall|j: int| 0 <= j < i ==> bytes@[j] == 0u8,
            decreases REGISTER_SPACE - i,
        {
            bytes.push(0);
            i = i + 1;
        }
        RegisterFile { bytes }
    }

    /// Reads the register at `addr`.
    pub fn get(&self, addr: usize) -> (r: u8)
        requires
            self.wf(),
            addr < REGISTER_SPACE,
        ensures
            r == self@[addr as int],
    {
        self.bytes[addr]
    }

    /// Writes the register at `addr`.
    pub fn set(&mut self, addr: usize, val: u8)
        requires
            old(self).wf(),
            addr < REGISTER_SPACE,
        ensures
            final(self).wf(),
            final(self)@ == old(self)@.update(addr as int, val),
    {
        self.bytes.set(addr, val);
    }
}

/// A memory-mapped control register at a fixed byte address.
#[derive(Clone, Copy, PartialEq, Eq, Structural, Debug)]
pub struct Register(pub u8);

impl Register {
    /// Writes `val` to the register.
    pub fn write(&self, regs: &mut RegisterFile, val: u8)
        requires
            old(regs).wf(),
        ensures
            final(regs).wf(),
            final(regs)@ == old(regs)@.update(self.0 as int, val),
    {
        regs.set(self.0 as usize, val);
    }

    /// Reads the register.
    pub fn read(&self, regs: &RegisterFile) -> (r: u8)
        requires
            regs.wf(),
        ensures
            r == regs@[self.0 as int],
    {
        regs.get(self.0 as usize)
    }
}

/// USB controller register.
pub const USBCON: u8 = 0xD8;

/// External interrupt mask register.
pub const EIMSK: u8 = 0x3D;

/// External interrupt control register A.
pub const EICRA: u8 = 0x69;

/// Timer 1 counter low byte (the free-running cycle counter).
pub const TCNT1L: u8 = 0x84;

/// Timer 1 control register B.
pub const TCCR1B: u8 = 0x81;

/// Timer 1 control register A.
pub const TCCR1A: u8 = 0x80;

/// Timer 0 interrupt mask register.
pub const TIMSK0: u8 = 0x6E;

/// Timer 0 output compare register A.
pub const OCR0A: u8 = 0x47;

/// Timer 0 control register B.
pub const TCCR0B: u8 = 0x45;

/// Timer 0 control register A.
pub const TCCR0A: u8 = 0x44;

/// Watchdog timer control register.
pub const WDTCSR: u8 = 0x60;

/// Waveform generation mode bit.
pub const WGM01: u8 = 2;

/// Timer 0 output compare match A interrupt enable bit.
pub const OCIE0A: u8 = 2;

/// Clock select bits.
pub const CS00: u8 = 1;

/// Clock select bits.
pub const CS01: u8 = 2;

/// Clock select bits.
pub const CS10: u8 = 1;

/// USB enable bit.
pub const USBE: u8 = 128;

/// Watchdog system reset enable bit.
pub const WDE: u8 = 8;

/// Watchdog change enable bit.
pub const WDCE: u8 = 16;

/// A pin rests in its idle state: direction bit clear (input) and pull-up
/// bit set.
pub open spec fn spec_pin_idle_input_high(regs: Seq<u8>, pin: Pin) -> bool {
    &&& regs[pin.spec_port_base() + 1] & pin.spec_mask() == 0
    &&& regs[pin.spec_port_base() + 2] & pin.spec_mask() != 0
}

/// Two pins' port register blocks do not straddle each other: they either
/// share a port or lie at least a whole block apart, as the hardware lays
/// ports out.
pub open spec fn spec_ports_apart(a: Pin, b: Pin) -> bool {
    ||| a.spec_port_base() == b.spec_port_base()
    ||| a.spec_port_base() + 3 <= b.spec_port_base()
    ||| b.spec_port_base() + 3 <= a.spec_port_base()
}

/// One GPIO pin: the high nibble selects the port, the low nibble the bit.
///
/// The code `0xFF` is the "not wired" sentinel (see [`Pin::no_pin`]); such
/// a pin is never driven or sampled.
#[derive(Clone, Copy, PartialEq, Eq, Structural, Debug)]
pub struct Pin(pub u8);

impl Pin {
    /// The sentinel for a matrix position with no physical pin.
    pub fn no_pin() -> (p: Pin)
        ensures
            p.0 == 0xFF,
            !p.valid(),
    {
        proof {
            assert(0xFFu8 & 0x0Fu8 == 15u8) by (bit_vector);
        }
        Pin(0xFF)
    }

    /// A pin that can actually be poked: its bit index is a real bit.
    pub open spec fn valid(self) -> bool {
        self.0 & 0x0F < 8
    }

    /// True when this matrix position is backed by a physical pin.
    pub fn is_wired(self) -> (r: bool)
        ensures
            r == (self.0 != 0xFF),
    {
        self.0 != 0xFF
    }

    /// The bit mask this pin occupies within its port registers.
    pub open spec fn spec_mask(self) -> u8 {
        1u8 << (self.0 & 0x0F)
    }

    /// Base address of this pin's port register block.
    pub open spec fn spec_port_base(self) -> int {
        ADDRESS_BASE + (self.0 >> PORT_SHIFTER)
    }

    /// Address computation shared by the three port registers.
    fn pin_address(self, offset: usize) -> (r: usize)
        requires
            offset <= 2,
        ensures
            r == self.spec_port_base() + offset,
            r < REGISTER_SPACE,
    {
        proof {
            let code = self.0;
            assert(code >> 4 < 16) by (bit_vector);
        }
        ADDRESS_BASE + ((self.0 >> PORT_SHIFTER) as usize) + offset
    }

    /// Address of the input register (reads the pin level).
    pub fn pinx_register(self) -> (r: usize)
        ensures
            r == self.spec_port_base(),
            r < REGISTER_SPACE,
    {
        self.pin_address(0)
    }

    /// Address of the data-direction register.
    pub fn ddrx_register(self) -> (r: usize)
        ensures
            r == self.spec_port_base() + 1,
            r < REGISTER_SPACE,
    {
        self.pin_address(1)
    }

    /// Address of the output/pull-up register.
    pub fn portx_register(self) -> (r: usize)
        ensures
            r == self.spec_port_base() + 2,
            r < REGISTER_SPACE,
    {
        self.pin_address(2)
    }

    /// The pin's mask as a value; the low nibble must be a real bit index.
    fn mask(self) -> (r: u8)
        requires
            self.valid(),
        ensures
            r == self.spec_mask(),
    {
        let bit: u8 = self.0 & 0x0F;
        1u8 << bit
    }

    /// Configures the pin as a floating input (direction and pull-up off).
    pub fn gpio_set_pin_input(self, regs: &mut RegisterFile)
        requires
            old(regs).wf(),
            self.valid(),
        ensures
            final(regs).wf(),
            final(regs)@ == old(regs)@
                .update(self.spec_port_base() + 1, old(regs)@[self.spec_port_base() + 1] & !self.spec_mask())
                .update(self.spec_port_base() + 2, old(regs)@[self.spec_port_base() + 2] & !self.spec_mask()),
    {
        let ddr = self.ddrx_register();
        let current = regs.get(ddr);
        regs.set(ddr, current & !self.mask());
        let port = self.portx_register();
        let current = regs.get(port);
        regs.set(port, current & !self.mask());
    }

    /// Configures the pin as an input with the pull-up enabled.
    pub fn gpio_set_pin_input_high(self, regs: &mut RegisterFile)
        requires
            old(regs).wf(),
            self.valid(),
        ensures
            final(regs).wf(),
            final(regs)@ == old(regs)@
                .update(self.spec_port_base() + 1, old(regs)@[self.spec_port_base() + 1] & !self.spec_mask())
                .update(self.spec_port_base() + 2, old(regs)@[self.spec_port_base() + 2] | self.spec_mask()),
    {
        let ddr = self.ddrx_register();
        let current = regs.get(ddr);
        regs.set(ddr, current & !self.mask());
        let port = self.portx_register();
        let current = regs.get(port);
        regs.set(port, current | self.mask());
    }

    /// Configures the pin as a push-pull output.
    pub fn gpio_set_pin_output_push_pull(self, regs: &mut RegisterFile)
        requires
            old(regs).wf(),
            self.valid(),
        ensures
            final(regs).wf(),
            final(regs)@ == old(regs)@
                .update(self.spec_port_base() + 1, old(regs)@[self.spec_port_base() + 1] | self.spec_mask()),
    {
        let ddr = self.ddrx_register();
        let current = regs.get(ddr);
        regs.set(ddr, current | self.mask());
    }

    /// Configures the pin as an output.
    pub fn gpio_set_pin_output(self, regs: &mut RegisterFile)
        requires
            old(regs).wf(),
            self.valid(),
        ensures
            final(regs).wf(),
            final(regs)@ == old(regs)@
                .update(self.spec_port_base() + 1, old(regs)@[self.spec_port_base() + 1] | self.spec_mask()),
    {
        self.gpio_set_pin_output_push_pull(regs);
    }

    /// Drives the pin high.
    pub fn gpio_write_pin_high(self, regs: &mut RegisterFile)
        requires
            old(regs).wf(),
            self.valid(),
        ensures
            final(regs).wf(),
            final(regs)@ == old(regs)@
                .update(self.spec_port_base() + 2, old(regs)@[self.spec_port_base() + 2] | self.spec_mask()),
    {
        let port = self.portx_register();
        let current = regs.get(port);
        regs.set(port, current | self.mask());
    }

    /// Drives the pin low.
    pub fn gpio_write_pin_low(self, regs: &mut RegisterFile)
        requires
            old(regs).wf(),
            self.valid(),
        ensures
            final(regs).wf(),
            final(regs)@ == old(regs)@
                .update(self.spec_port_base() + 2, old(regs)@[self.spec_port_base() + 2] & !self.spec_mask()),
    {
        let port = self.portx_register();
        let current = regs.get(port);
        regs.set(port, current & !self.mask());
    }

    /// Drives the pin to the given level.
    pub fn gpio_write_pin(self, regs: &mut RegisterFile, level: bool)
        requires
            old(regs).wf(),
            self.valid(),
        ensures
            final(regs).wf(),
            final(regs)@ == old(regs)@.update(
                self.spec_port_base() + 2,
                if level {
                    old(regs)@[self.spec_port_base() + 2] | self.spec_mask()
                } else {
                    old(regs)@[self.spec_port_base() + 2] & !self.spec_mask()
                },
            ),
    {
        if level {
            self.gpio_write_pin_high(regs);
        } else {
            self.gpio_write_pin_low(regs);
        }
    }

    /// Samples the pin level from the input register.
    pub fn gpio_read_pin(self, regs: &RegisterFile) -> (r: bool)
        requires
            regs.wf(),
            self.valid(),
        ensures
            r == ((regs@[self.spec_port_base()] & self.spec_mask()) != 0),
    {
        let pinx = self.pinx_register();
        (regs.get(pinx) & self.mask()) != 0
    }

    /// Flips the pin's output level.
    pub fn gpio_toggle_pin(self, regs: &mut RegisterFile)
        requires
            old(regs).wf(),
            self.valid(),
        ensures
            final(regs).wf(),
            final(regs)@ == old(regs)@
                .update(self.spec_port_base() + 2, old(regs)@[self.spec_port_base() + 2] ^ self.spec_mask()),
    {
        let port = self.portx_register();
        let current = regs.get(port);
        regs.set(port, current ^ self.mask());
    }
}

} // verus!
