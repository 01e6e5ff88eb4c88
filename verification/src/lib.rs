//! Core logic of a split mechanical keyboard firmware.
//!
//! The library models the firmware's hard core: the bit-banged serial
//! protocol that synchronizes the two halves, the debounced matrix scanner,
//! the layered keymap dispatcher, and the timer arithmetic they rely on.
//! Hardware registers are modeled as explicit state (`pins::RegisterFile`),
//! so that every register manipulation is ordinary verified code; the
//! actual I/O (pin sampling, busy-wait delays, USB endpoints) lives outside
//! the library and hands plain values in and out.
//!
//! Concurrency discipline: the firmware has a single thread of control plus
//! two narrow interrupt sources (the millisecond timer and the slave's
//! wake-up edge). All state shared with an interrupt handler is only ever
//! mutated inside an atomic section (interrupts disabled, previous state
//! restored). Here that state is owned explicitly by [`QmkKeyboard`], and
//! the atomic-section discipline is the documented invariant substituting
//! for a lock.
use vstd::prelude::*;

pub mod bin_packed;
pub mod graphics;
pub mod init;
pub mod keymap;
pub mod keys;
pub mod matrix;
pub mod pins;
pub mod progmem;
pub mod rotary_encoder;
pub mod serial;
pub mod shared_memory;
pub mod timer;
pub mod usb;

verus! {

/// Which physical half this firmware image is built for.
///
/// On the device the side is baked in at build time; here it is an
/// explicit value so that both halves can be reasoned about together.
#[derive(Clone, Copy, PartialEq, Eq, Structural, Debug)]
pub enum Hand {
    Left,
    Right,
}

/// Returns true when this image is the right half.
pub fn side(hand: Hand) -> (r: bool)
    ensures
        r == (hand is Right),
{
    match hand {
        Hand::Left => false,
        Hand::Right => true,
    }
}

/// Returns true when this image is the left half.
pub fn is_left(hand: Hand) -> (r: bool)
    ensures
        r == (hand is Left),
{
    !side(hand)
}

/// Returns true when this image is the right half.
pub fn is_right(hand: Hand) -> (r: bool)
    ensures
        r == (hand is Right),
{
    side(hand)
}

/// The left half initiates USB communication and the serial exchange.
pub fn is_master(hand: Hand) -> (r: bool)
    ensures
        r == (hand is Left),
{
    is_left(hand)
}

/// The build-time configuration of one keyboard half.
pub struct KeyboardConfig {
    /// Which half this image drives.
    pub hand: Hand,
    /// Physical rows on one half; the full logical matrix has twice this.
    pub rows_per_hand: u8,
    /// Columns on a half; a row is one byte, so at most eight.
    pub matrix_columns: u8,
    /// Number of keymap layers.
    pub layer_count: u8,
    /// Row select pins; an unwired row carries the no-pin sentinel.
    pub row_pins: Vec<pins::Pin>,
    /// Column sense pins; an unwired column carries the no-pin sentinel.
    pub col_pins: Vec<pins::Pin>,
    /// The single bidirectional pin of the serial link.
    pub soft_serial_pin: pins::Pin,
    /// The diagnostic LED.
    pub red_led_pin: pins::Pin,
    /// Encoder pulses per detent.
    pub rotary_encoder_resolution: i8,
}

impl KeyboardConfig {
    /// The dimensions are usable and every wired pin can be poked.
    pub open spec fn wf(&self) -> bool {
        &&& 1 <= self.rows_per_hand <= 127
        &&& 1 <= self.matrix_columns <= 8
        &&& 1 <= self.layer_count
        &&& self.row_pins@.len() == self.rows_per_hand
        &&& self.col_pins@.len() == self.matrix_columns
        &&& forall|i: int|
            0 <= i < self.row_pins@.len() ==> (#[trigger] self.row_pins@[i]).0 != 0xFF
                ==> self.row_pins@[i].valid()
        &&& forall|i: int|
            0 <= i < self.col_pins@.len() ==> (#[trigger] self.col_pins@[i]).0 != 0xFF
                ==> self.col_pins@[i].valid()
        &&& self.soft_serial_pin.valid()
        &&& self.rotary_encoder_resolution >= 1
    }

    /// The matrix pins' port register blocks never straddle one another:
    /// any two wired matrix pins either share a port or lie a whole
    /// register block apart, as the hardware lays its ports out.
    pub open spec fn spec_matrix_ports_disjoint(&self) -> bool {
        let all_pins = self.row_pins@ + self.col_pins@;
        forall|i: int, j: int|
            0 <= i < all_pins.len() && 0 <= j < all_pins.len() ==> pins::spec_ports_apart(
                #[trigger] all_pins[i],
                #[trigger] all_pins[j],
            )
    }

    /// Total rows of the logical matrix, both halves.
    pub open spec fn spec_matrix_rows(&self) -> int {
        2 * self.rows_per_hand as int
    }

    /// Total rows of the logical matrix, both halves.
    pub fn matrix_rows(&self) -> (r: u8)
        requires
            self.wf(),
        ensures
            r == self.spec_matrix_rows(),
    {
        2 * self.rows_per_hand
    }

    /// Where this half's rows start within the logical matrix.
    pub open spec fn spec_this_hand_offset(&self) -> int {
        if self.hand is Right {
            self.rows_per_hand as int
        } else {
            0
        }
    }

    /// Where this half's rows start within the logical matrix.
    pub fn this_hand_offset(&self) -> (r: u8)
        requires
            self.wf(),
        ensures
            r == self.spec_this_hand_offset(),
    {
        if is_right(self.hand) {
            self.rows_per_hand
        } else {
            0
        }
    }

    /// Where the other half's rows start within the logical matrix.
    pub open spec fn spec_other_hand_offset(&self) -> int {
        self.rows_per_hand as int - self.spec_this_hand_offset()
    }

    /// Where the other half's rows start within the logical matrix.
    pub fn other_hand_offset(&self) -> (r: u8)
        requires
            self.wf(),
        ensures
            r == self.spec_other_hand_offset(),
    {
        self.rows_per_hand - self.this_hand_offset()
    }
}

/// The whole keyboard state: configuration, matrices, the two shared
/// memory payloads, the current layer, debounce state, diagnostics, and
/// the collaborating encoder and HID states.
///
/// In the firmware several of these fields are also touched by interrupt
/// handlers; every such access happens inside an atomic section, which
/// exclusive ownership of this struct models.
pub struct QmkKeyboard {
    pub config: KeyboardConfig,
    /// The just-scanned, undebounced state of this half.
    pub raw_matrix: Vec<u8>,
    /// The logical matrix as of the previous dispatched tick.
    pub previous_matrix: Vec<u8>,
    /// The authoritative logical matrix: this half's debounced rows plus
    /// the other half's rows as last received.
    pub current_matrix: Vec<u8>,
    pub master_shared_memory: shared_memory::MasterSharedMemory,
    pub slave_shared_memory: shared_memory::SlaveSharedMemory,
    /// The active keymap layer.
    pub layer: u8,
    /// Whether a raw change is waiting out the debounce window.
    pub debouncing: bool,
    /// When the pending raw change was last seen, in milliseconds.
    pub debouncing_time: u32,
    /// Serial faults seen so far, for diagnostics; wraps.
    pub error_count: u8,
    pub rotary_encoder: rotary_encoder::RotaryEncoder,
    /// The keymap, resident in program memory.
    pub keymap: progmem::Progmem<keymap::Keymap>,
    pub hid: usb::HidState,
}

impl QmkKeyboard {
    /// Everything sized to the configuration and the layer in range.
    pub open spec fn wf(&self) -> bool {
        &&& self.config.wf()
        &&& self.raw_matrix@.len() == self.config.rows_per_hand
        &&& self.previous_matrix@.len() == self.config.spec_matrix_rows()
        &&& self.current_matrix@.len() == self.config.spec_matrix_rows()
        &&& self.master_shared_memory.wf(self.config.rows_per_hand)
        &&& self.slave_shared_memory.wf(self.config.rows_per_hand)
        &&& self.layer < self.config.layer_count
        &&& self.keymap@.wf(self.config.layer_count, self.config.rows_per_hand, self.config.matrix_columns)
        &&& self.hid.wf()
    }

    /// A keyboard at power-on: everything zeroed, layer 0.
    pub fn new(config: KeyboardConfig, keymap: progmem::Progmem<keymap::Keymap>) -> (r:
        QmkKeyboard)
        requires
            config.wf(),
            keymap@.wf(config.layer_count, config.rows_per_hand, config.matrix_columns),
        ensures
            r.wf(),
            r.config == config,
            r.keymap == keymap,
            r.layer == 0,
            !r.debouncing,
            r.debouncing_time == 0,
            r.error_count == 0,
            forall|i: int| 0 <= i < r.raw_matrix@.len() ==> r.raw_matrix@[i] == 0u8,
            forall|i: int| 0 <= i < r.previous_matrix@.len() ==> r.previous_matrix@[i] == 0u8,
            forall|i: int| 0 <= i < r.current_matrix@.len() ==> r.current_matrix@[i] == 0u8,
            forall|i: int|
                0 <= i < config.rows_per_hand ==> r.master_shared_memory.master_matrix@[i] == 0u8,
            forall|i: int|
                0 <= i < config.rows_per_hand ==> r.slave_shared_memory.slave_matrix@[i] == 0u8,
            r.rotary_encoder.encoder.state == 0,
            r.rotary_encoder.encoder.pulses == 0,
            !r.hid.keyboard_updated,
            !r.hid.mouse_updated,
            r.hid.idle_count == 0,
            r.hid.idle_ms_remaining == 0,
            forall|i: int| 0 <= i < usb::MAX_KEYS ==> r.hid.keyboard_report.key_code@[i] == 0u8,
    {
        let rows_per_hand = config.rows_per_hand;
        let matrix_rows = config.matrix_rows();
        QmkKeyboard {
            config,
            raw_matrix: shared_memory::zero_rows(rows_per_hand),
            previous_matrix: shared_memory::zero_rows(matrix_rows),
            current_matrix: shared_memory::zero_rows(matrix_rows),
            master_shared_memory: shared_memory::MasterSharedMemory::new(rows_per_hand),
            slave_shared_memory: shared_memory::SlaveSharedMemory::new(rows_per_hand),
            layer: 0,
            debouncing: false,
            debouncing_time: 0,
            error_count: 0,
            rotary_encoder: rotary_encoder::RotaryEncoder::new(),
            keymap,
            hid: usb::HidState::new(),
        }
    }

    /// The layer `count` steps up (toward layer 0) from the current one,
    /// stopping at layer 0.
    pub fn get_layer_up(&self, count: u8) -> (r: u8)
        ensures
            r == if self.layer >= count {
                (self.layer - count) as u8
            } else {
                0u8
            },
    {
        if self.layer >= count {
            self.layer - count
        } else {
            0
        }
    }

    /// The layer `count` steps down (toward higher indices) from the
    /// current one, stopping at the last layer.
    pub fn get_layer_down(&self, count: u8) -> (r: u8)
        requires
            self.wf(),
        ensures
            r == spec_layer_down(self.layer, count, self.config.layer_count),
            r < self.config.layer_count,
    {
        let last = self.config.layer_count - 1;
        if count < last && self.layer < last - count {
            self.layer + count
        } else {
            last
        }
    }

    /// Moves the current layer up (toward layer 0), stopping at layer 0.
    pub fn layer_up(&mut self, count: u8)
        requires
            old(self).wf(),
        ensures
            final(self).wf(),
            final(self).layer == if old(self).layer >= count {
                (old(self).layer - count) as u8
            } else {
                0u8
            },
            *final(self) == (QmkKeyboard { layer: final(self).layer, ..*old(self) }),
    {
        self.layer = self.get_layer_up(count);
    }

    /// Moves the current layer down (toward higher indices), stopping at
    /// the last layer.
    pub fn layer_down(&mut self, count: u8)
        requires
            old(self).wf(),
        ensures
            final(self).wf(),
            final(self).layer == spec_layer_down(
                old(self).layer,
                count,
                old(self).config.layer_count,
            ),
            *final(self) == (QmkKeyboard { layer: final(self).layer, ..*old(self) }),
    {
        self.layer = self.get_layer_down(count);
    }

    /// Looks the key action at `(layer, column, row)` up in the keymap,
    /// through the program memory read path.
    pub fn get_key(&self, layer: u8, column: u8, row: u8) -> (r: keymap::KeyAction)
        requires
            self.wf(),
            layer < self.config.layer_count,
            column < self.config.matrix_columns,
            row < self.config.spec_matrix_rows(),
        ensures
            r == spec_key_at(
                self.keymap@,
                layer as int,
                column as int,
                row as int,
                self.config.rows_per_hand as int,
                self.config.matrix_columns as int,
            ),
    {
        let index = keymap::flat_index(
            row,
            column,
            self.config.rows_per_hand,
            self.config.matrix_columns,
        );
        self.keymap.read_key(layer as usize, index)
    }
}

/// The layer reached by moving `count` steps down from `layer`, capped at
/// the last layer.
pub open spec fn spec_layer_down(layer: u8, count: u8, layer_count: u8) -> u8 {
    if layer + count < layer_count {
        (layer + count) as u8
    } else {
        (layer_count - 1) as u8
    }
}

impl QmkKeyboard {
    /// Dispatches a key press at `(layer, column, row)`, walking down
    /// through transparent cells; recursion is bounded by the layer index.
    pub fn press_at(&mut self, layer: u8, column: u8, row: u8)
        requires
            old(self).wf(),
            layer < old(self).config.layer_count,
            column < old(self).config.matrix_columns,
            row < old(self).config.spec_matrix_rows(),
        ensures
            final(self).wf(),
            spec_press_effect(*old(self), *final(self), layer as int, column as int, row as int),
        decreases layer,
    {
        match self.get_key(layer, column, row) {
            keymap::KeyAction::Plain(k) => {
                self.hid.add_code(k.0);
            },
            keymap::KeyAction::NoOp(_) => {},
            keymap::KeyAction::Up(u) => {
                self.layer_up(u.0);
            },
            keymap::KeyAction::Down(d) => {
                self.layer_down(d.0);
            },
            keymap::KeyAction::Transparent(_) => {
                if layer > 0 {
                    self.press_at(layer - 1, column, row);
                }
            },
        }
    }

    /// Dispatches a key release at `(layer, column, row)`, walking down
    /// through transparent cells; layer keys do nothing on release.
    pub fn release_at(&mut self, layer: u8, column: u8, row: u8)
        requires
            old(self).wf(),
            layer < old(self).config.layer_count,
            column < old(self).config.matrix_columns,
            row < old(self).config.spec_matrix_rows(),
        ensures
            final(self).wf(),
            spec_release_effect(*old(self), *final(self), layer as int, column as int, row as int),
        decreases layer,
    {
        match self.get_key(layer, column, row) {
            keymap::KeyAction::Plain(k) => {
                self.hid.remove_code(k.0);
            },
            keymap::KeyAction::NoOp(_) => {},
            keymap::KeyAction::Up(_) => {},
            keymap::KeyAction::Down(_) => {},
            keymap::KeyAction::Transparent(_) => {
                if layer > 0 {
                    self.release_at(layer - 1, column, row);
                }
            },
        }
    }

    /// Dispatches a press of the key at `(column, row)` on the current
    /// layer.
    pub fn key_pressed(&mut self, column: u8, row: u8)
        requires
            old(self).wf(),
            column < old(self).config.matrix_columns,
            row < old(self).config.spec_matrix_rows(),
        ensures
            final(self).wf(),
            spec_press_effect(
                *old(self),
                *final(self),
                old(self).layer as int,
                column as int,
                row as int,
            ),
    {
        self.press_at(self.layer, column, row);
    }

    /// Dispatches a release of the key at `(column, row)` on the current
    /// layer.
    pub fn key_released(&mut self, column: u8, row: u8)
        requires
            old(self).wf(),
            column < old(self).config.matrix_columns,
            row < old(self).config.spec_matrix_rows(),
        ensures
            final(self).wf(),
            spec_release_effect(
                *old(self),
                *final(self),
                old(self).layer as int,
                column as int,
                row as int,
            ),
    {
        self.release_at(self.layer, column, row);
    }
}

impl QmkKeyboard {
    /// One whole firmware tick, minus the display and USB plumbing: decide
    /// the HID reports, drain the rotary encoder, and run the matrix
    /// pipeline (scan, exchange, dispatch).
    ///
    /// The shell supplies the sampled column levels, the millisecond
    /// clock, the serial response line, and the USB readiness flags; it
    /// takes back the reports to put on the endpoints, the encoder detents
    /// since the last tick, and whether the logical matrix changed (which
    /// gates a display refresh).
    pub fn task(
        &mut self,
        samples: &Vec<Vec<bool>>,
        now: u32,
        response: &Vec<bool>,
        device_configured: bool,
        kb_endpoint_ready: bool,
        mouse_endpoint_ready: bool,
    ) -> (r: (bool, Option<usb::UsbKeyboardReportData>, Option<usb::UsbMouseReportData>, i8))
        requires
            old(self).wf(),
            samples@.len() == old(self).config.rows_per_hand,
            forall|i: int|
                0 <= i < samples@.len() ==> (#[trigger] samples@[i])@.len() == old(
                    self,
                ).config.matrix_columns,
            response@.len() + 22 + 18 * (old(self).config.rows_per_hand as int) <= usize::MAX,
        ensures
            final(self).wf(),
            final(self).config == old(self).config,
            spec_task_effect(
                *old(self),
                *final(self),
                samples@,
                now,
                response@,
                device_configured,
                kb_endpoint_ready,
                mouse_endpoint_ready,
                r,
            ),
            r.1 is Some ==> r.1->0.key_code@ == old(self).hid.keyboard_report.key_code@,
            r.0 ==> final(self).previous_matrix@ == final(self).current_matrix@,
    {
        let (kb_report, mouse_report) = self.hid.hid_task(
            device_configured,
            kb_endpoint_ready,
            mouse_endpoint_ready,
        );
        let resolution = self.config.rotary_encoder_resolution;
        let detents = self.rotary_encoder.task(resolution);
        let ghost mid = *self;
        let ghost h = self.hid;
        let ghost rot = self.rotary_encoder;
        let changed = self.matrix_task(samples, now, response);
        proof {
            // The intermediate state the decisions left behind, and the
            // three stage effects the composed contract chains together.
            assert(mid == (QmkKeyboard { hid: h, rotary_encoder: rot, ..*old(self) }));
            assert(usb::spec_hid_task_effect(
                old(self).hid,
                h,
                device_configured,
                kb_endpoint_ready,
                mouse_endpoint_ready,
                kb_report,
                mouse_report,
            ));
            assert(rotary_encoder::spec_rotary_task_effect(
                old(self).rotary_encoder,
                rot,
                old(self).config.rotary_encoder_resolution,
                detents,
            ));
            assert(matrix::spec_matrix_task_effect(
                (QmkKeyboard { hid: h, rotary_encoder: rot, ..*old(self) }),
                *self,
                samples@,
                now,
                response@,
                changed,
            ));
            let rr = (changed, kb_report, mouse_report, detents);
            assert(spec_task_effect(
                *old(self),
                *self,
                samples@,
                now,
                response@,
                device_configured,
                kb_endpoint_ready,
                mouse_endpoint_ready,
                rr,
            ));
        }
        (changed, kb_report, mouse_report, detents)
    }
}

/// What one whole firmware tick does: the HID report decisions on the
/// starting state, the encoder drain, and then the matrix pipeline from
/// the resulting intermediate state, chained through their exact effects.
/// The result carries the matrix-changed flag, the two reports, and the
/// encoder detents.
pub open spec fn spec_task_effect(
    pre: QmkKeyboard,
    post: QmkKeyboard,
    samples: Seq<Vec<bool>>,
    now: u32,
    response: Seq<bool>,
    device_configured: bool,
    kb_endpoint_ready: bool,
    mouse_endpoint_ready: bool,
    r: (bool, Option<usb::UsbKeyboardReportData>, Option<usb::UsbMouseReportData>, i8),
) -> bool {
    let h = usb::spec_mouse_send_post(
        usb::spec_keyboard_send_post(pre.hid, device_configured, kb_endpoint_ready),
        device_configured,
        mouse_endpoint_ready,
    );
    let rot = rotary_encoder::spec_rotary_task_post(
        pre.rotary_encoder,
        pre.config.rotary_encoder_resolution,
    );
    let mid = QmkKeyboard { hid: h, rotary_encoder: rot, ..pre };
    &&& usb::spec_hid_task_effect(
        pre.hid,
        h,
        device_configured,
        kb_endpoint_ready,
        mouse_endpoint_ready,
        r.1,
        r.2,
    )
    &&& rotary_encoder::spec_rotary_task_effect(
        pre.rotary_encoder,
        rot,
        pre.config.rotary_encoder_resolution,
        r.3,
    )
    &&& matrix::spec_matrix_task_effect(mid, post, samples, now, response, r.0)
}

/// The action a coordinate resolves to, walking down through transparent
/// cells; a transparent cell on layer 0 resolves to a no-op.
pub open spec fn spec_resolve(
    km: keymap::Keymap,
    layer: int,
    column: int,
    row: int,
    rows_per_hand: int,
    columns: int,
) -> keymap::KeyAction
    decreases layer,
{
    let a = spec_key_at(km, layer, column, row, rows_per_hand, columns);
    if a is Transparent {
        if layer > 0 {
            spec_resolve(km, layer - 1, column, row, rows_per_hand, columns)
        } else {
            keymap::KeyAction::NoOp(keys::NoOpKey)
        }
    } else {
        a
    }
}

/// Everything except the HID keycode slots and the layer stands still.
pub open spec fn dispatch_frame(pre: QmkKeyboard, post: QmkKeyboard) -> bool {
    &&& post == (QmkKeyboard { layer: post.layer, hid: post.hid, ..pre })
    &&& usb::keycode_op_frame(pre.hid, post.hid)
}

/// What dispatching a press at `(layer, column, row)` does: the resolved
/// action's own effect, everything else untouched.
pub open spec fn spec_press_effect(
    pre: QmkKeyboard,
    post: QmkKeyboard,
    layer: int,
    column: int,
    row: int,
) -> bool {
    let a = spec_resolve(
        pre.keymap@,
        layer,
        column,
        row,
        pre.config.rows_per_hand as int,
        pre.config.matrix_columns as int,
    );
    &&& dispatch_frame(pre, post)
    &&& match a {
        keymap::KeyAction::Plain(k) => post.layer == pre.layer && usb::add_code_effect(
            pre.hid.keyboard_report.key_code@,
            k.0,
            pre.hid.keyboard_updated,
            post.hid.keyboard_report.key_code@,
            post.hid.keyboard_updated,
        ),
        keymap::KeyAction::NoOp(_) => post == pre,
        keymap::KeyAction::Up(u) => post == (QmkKeyboard {
            layer: if pre.layer >= u.0 {
                (pre.layer - u.0) as u8
            } else {
                0u8
            },
            ..pre
        }),
        keymap::KeyAction::Down(d) => post == (QmkKeyboard {
            layer: spec_layer_down(pre.layer, d.0, pre.config.layer_count),
            ..pre
        }),
        keymap::KeyAction::Transparent(_) => post == pre,
    }
}

/// What dispatching a release at `(layer, column, row)` does: a plain key
/// leaves the report, layer keys act only on press.
pub open spec fn spec_release_effect(
    pre: QmkKeyboard,
    post: QmkKeyboard,
    layer: int,
    column: int,
    row: int,
) -> bool {
    let a = spec_resolve(
        pre.keymap@,
        layer,
        column,
        row,
        pre.config.rows_per_hand as int,
        pre.config.matrix_columns as int,
    );
    &&& dispatch_frame(pre, post)
    &&& match a {
        keymap::KeyAction::Plain(k) => post.layer == pre.layer && usb::remove_code_effect(
            pre.hid.keyboard_report.key_code@,
            k.0,
            pre.hid.keyboard_updated,
            post.hid.keyboard_report.key_code@,
            post.hid.keyboard_updated,
        ),
        keymap::KeyAction::NoOp(_) => post == pre,
        keymap::KeyAction::Up(_) => post == pre,
        keymap::KeyAction::Down(_) => post == pre,
        keymap::KeyAction::Transparent(_) => post == pre,
    }
}

/// The part of the keyboard a dispatched key can move: the active layer
/// and the keycode slots with their dirty flag.
pub struct DispatchState {
    pub layer: u8,
    pub key_code: Seq<u8>,
    pub keyboard_updated: bool,
}

/// The dispatchable part of a keyboard state.
pub open spec fn spec_dispatch_state_of(kb: QmkKeyboard) -> DispatchState {
    DispatchState {
        layer: kb.layer,
        key_code: kb.hid.keyboard_report.key_code@,
        keyboard_updated: kb.hid.keyboard_updated,
    }
}

/// What one press does to the dispatchable state: the resolved action's
/// own move.
pub open spec fn spec_press_step(
    km: keymap::Keymap,
    layer_count: u8,
    rows_per_hand: int,
    columns: int,
    st: DispatchState,
    column: int,
    row: int,
) -> DispatchState {
    match spec_resolve(km, st.layer as int, column, row, rows_per_hand, columns) {
        keymap::KeyAction::Plain(k) => DispatchState {
            key_code: usb::spec_add_code(st.key_code, k.0),
            keyboard_updated: usb::spec_add_marks(st.key_code, k.0, st.keyboard_updated),
            ..st
        },
        keymap::KeyAction::Up(u) => DispatchState {
            layer: if st.layer >= u.0 {
                (st.layer - u.0) as u8
            } else {
                0u8
            },
            ..st
        },
        keymap::KeyAction::Down(d) => DispatchState {
            layer: spec_layer_down(st.layer, d.0, layer_count),
            ..st
        },
        _ => st,
    }
}

/// What one release does to the dispatchable state: a plain key leaves the
/// report, layer keys act only on press.
pub open spec fn spec_release_step(
    km: keymap::Keymap,
    layer_count: u8,
    rows_per_hand: int,
    columns: int,
    st: DispatchState,
    column: int,
    row: int,
) -> DispatchState {
    match spec_resolve(km, st.layer as int, column, row, rows_per_hand, columns) {
        keymap::KeyAction::Plain(k) => DispatchState {
            key_code: usb::spec_remove_code(st.key_code, k.0),
            keyboard_updated: usb::spec_remove_marks(st.key_code, k.0, st.keyboard_updated),
            ..st
        },
        _ => st,
    }
}

/// The press relation determines the dispatchable state: a press from the
/// current layer moves it by exactly one press step.
pub proof fn lemma_press_functional(pre: QmkKeyboard, post: QmkKeyboard, column: int, row: int)
    requires
        spec_press_effect(pre, post, pre.layer as int, column, row),
    ensures
        spec_dispatch_state_of(post) == spec_press_step(
            pre.keymap@,
            pre.config.layer_count,
            pre.config.rows_per_hand as int,
            pre.config.matrix_columns as int,
            spec_dispatch_state_of(pre),
            column,
            row,
        ),
{
    match spec_resolve(
        pre.keymap@,
        pre.layer as int,
        column,
        row,
        pre.config.rows_per_hand as int,
        pre.config.matrix_columns as int,
    ) {
        keymap::KeyAction::Plain(k) => {
            usb::lemma_add_code_functional(
                pre.hid.keyboard_report.key_code@,
                k.0,
                pre.hid.keyboard_updated,
                post.hid.keyboard_report.key_code@,
                post.hid.keyboard_updated,
            );
        },
        _ => {},
    }
}

/// The release relation determines the dispatchable state likewise.
pub proof fn lemma_release_functional(pre: QmkKeyboard, post: QmkKeyboard, column: int, row: int)
    requires
        spec_release_effect(pre, post, pre.layer as int, column, row),
    ensures
        spec_dispatch_state_of(post) == spec_release_step(
            pre.keymap@,
            pre.config.layer_count,
            pre.config.rows_per_hand as int,
            pre.config.matrix_columns as int,
            spec_dispatch_state_of(pre),
            column,
            row,
        ),
{
    match spec_resolve(
        pre.keymap@,
        pre.layer as int,
        column,
        row,
        pre.config.rows_per_hand as int,
        pre.config.matrix_columns as int,
    ) {
        keymap::KeyAction::Plain(k) => {
            usb::lemma_remove_code_functional(
                pre.hid.keyboard_report.key_code@,
                k.0,
                pre.hid.keyboard_updated,
                post.hid.keyboard_report.key_code@,
                post.hid.keyboard_updated,
            );
        },
        _ => {},
    }
}

/// The keymap cell addressed by `(layer, column, row)`.
pub open spec fn spec_key_at(
    km: keymap::Keymap,
    layer: int,
    column: int,
    row: int,
    rows_per_hand: int,
    columns: int,
) -> keymap::KeyAction {
    km.layers@[layer].keys@[keymap::spec_flat_index(row, column, rows_per_hand, columns)]
}

} // verus!
