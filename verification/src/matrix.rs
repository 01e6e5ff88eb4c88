//! Scanning, debouncing, and dispatching the key matrix.
//!
//! Per tick the scanner samples this half's rows into a raw bitmap,
//! debounces it with a trailing-edge settle window, merges in the other
//! half's rows received over the serial link, and dispatches every changed
//! cell as a press or release through the layered keymap.
use vstd::arithmetic::div_mod::{
    lemma_fundamental_div_mod_converse_div, lemma_fundamental_div_mod_converse_mod,
};
use vstd::prelude::*;

use crate::pins::{Pin, RegisterFile};
use crate::QmkKeyboard;

verus! {

/// Settle delay after unselecting a row, in microseconds.
pub const MATRIX_IO_DELAY: u64 = 30;

/// The debounce window: a raw change must hold this many milliseconds.
pub const DEBOUNCE: u32 = 5;

/// Drives a pin low as an output, atomically (row select).
pub fn gpio_atomic_set_pin_output_low(regs: &mut RegisterFile, pin: Pin)
    requires
        old(regs).wf(),
        pin.valid(),
    ensures
        final(regs).wf(),
        final(regs)@ == old(regs)@.update(
            pin.spec_port_base() + 1,
            old(regs)@[pin.spec_port_base() + 1] | pin.spec_mask(),
        ).update(pin.spec_port_base() + 2, old(regs)@[pin.spec_port_base() + 2] & !pin.spec_mask()),
{
    pin.gpio_set_pin_output(regs);
    pin.gpio_write_pin_low(regs);
    proof {
        let base = pin.spec_port_base();
        let mask = pin.spec_mask();
        let code = pin.0;
        assert(code >> 4 < 16) by (bit_vector);
        assert(regs@ =~= old(regs)@.update(base + 1, old(regs)@[base + 1] | mask).update(
            base + 2,
            old(regs)@[base + 2] & !mask,
        ));
    }
}

/// Reverts a pin to an input with the pull-up on, atomically (row
/// unselect).
pub fn gpio_atomic_set_pin_input_high(regs: &mut RegisterFile, pin: Pin)
    requires
        old(regs).wf(),
        pin.valid(),
    ensures
        final(regs).wf(),
        final(regs)@ == old(regs)@.update(
            pin.spec_port_base() + 1,
            old(regs)@[pin.spec_port_base() + 1] & !pin.spec_mask(),
        ).update(pin.spec_port_base() + 2, old(regs)@[pin.spec_port_base() + 2] | pin.spec_mask()),
{
    pin.gpio_set_pin_input_high(regs);
}

/// Reads one column pin; an unwired position always reads high (never
/// pressed).
pub fn read_matrix_pin(regs: &RegisterFile, pin: Pin) -> (r: bool)
    requires
        regs.wf(),
        pin.0 != 0xFF ==> pin.valid(),
    ensures
        r == (pin.0 == 0xFF || (regs@[pin.spec_port_base()] & pin.spec_mask()) != 0),
{
    if pin.is_wired() {
        pin.gpio_read_pin(regs)
    } else {
        true
    }
}

/// Whether the sampled column is a pressed key: the position is wired and
/// the pin reads low.
pub open spec fn spec_col_pressed(config: crate::KeyboardConfig, samples: Seq<bool>, c: int) -> bool {
    config.col_pins@[c].0 != 0xFF && !samples[c]
}

/// Which bit of the row value column `c` lands in: ascending on the left
/// half, descending on the right, so the merged matrix reads consistently
/// end to end across the split.
pub open spec fn spec_col_bit(config: crate::KeyboardConfig, c: int) -> int {
    if config.hand is Right {
        config.matrix_columns - 1 - c
    } else {
        c
    }
}

/// The row value built from the first `c` columns.
pub open spec fn spec_row_value_rec(
    config: crate::KeyboardConfig,
    samples: Seq<bool>,
    c: int,
) -> u8
    decreases c,
{
    if c <= 0 {
        0u8
    } else {
        spec_row_value_rec(config, samples, c - 1) | (if spec_col_pressed(config, samples, c - 1) {
            1u8 << (spec_col_bit(config, c - 1) as u8)
        } else {
            0u8
        })
    }
}

/// The row value a full set of column samples denotes.
pub open spec fn spec_row_value(config: crate::KeyboardConfig, samples: Seq<bool>) -> u8 {
    spec_row_value_rec(config, samples, config.matrix_columns as int)
}

/// The raw matrix a full scan produces: each wired row's value, zero for
/// unwired rows.
pub open spec fn spec_scanned_matrix(config: crate::KeyboardConfig, samples: Seq<Vec<bool>>) -> Seq<
    u8,
> {
    Seq::new(
        config.rows_per_hand as nat,
        |r: int|
            if config.row_pins@[r].0 != 0xFF {
                spec_row_value(config, samples[r]@)
            } else {
                0u8
            },
    )
}

/// What one scan-and-debounce pass does: the raw matrix becomes exactly
/// what the samples denote, and the debounce step runs on whether that
/// differs from the previous raw state.
pub open spec fn spec_scan_effect(
    pre: QmkKeyboard,
    post: QmkKeyboard,
    samples: Seq<Vec<bool>>,
    now: u32,
    cooked_changed: bool,
) -> bool {
    &&& post == (QmkKeyboard {
        raw_matrix: post.raw_matrix,
        current_matrix: post.current_matrix,
        debouncing: post.debouncing,
        debouncing_time: post.debouncing_time,
        ..pre
    })
    &&& post.raw_matrix@ == spec_scanned_matrix(pre.config, samples)
    &&& spec_debounce_effect(
        (QmkKeyboard { raw_matrix: post.raw_matrix, ..pre }),
        post,
        spec_scanned_matrix(pre.config, samples) != pre.raw_matrix@,
        now,
        cooked_changed,
    )
}

/// Clearing or setting other bits never disturbs a bit that is already in
/// the wanted state; clearing or setting a bit puts it there.
proof fn lemma_monotone_bits(x: u8, m: u8, k: u8)
    by (bit_vector)
    requires
        k < 8,
    ensures
        (x & (1u8 << k)) == 0 ==> ((x & !m) & (1u8 << k)) == 0,
        (x & (1u8 << k)) != 0 ==> ((x | m) & (1u8 << k)) != 0,
        ((x & !(1u8 << k)) & (1u8 << k)) == 0,
        ((x | (1u8 << k)) & (1u8 << k)) != 0,
{
}

/// One unselect step (direction bit cleared, pull-up bit set on `active`,
/// or nothing for an unwired pin) keeps every pin of a non-straddling port
/// idle if it already was, and leaves `active` itself idle.
proof fn lemma_idle_preserved_by_unselect(pre: Seq<u8>, post: Seq<u8>, active: Pin)
    requires
        pre.len() == crate::pins::REGISTER_SPACE,
        active.0 != 0xFF ==> active.valid(),
        if active.0 != 0xFF {
            post == pre.update(
                active.spec_port_base() + 1,
                pre[active.spec_port_base() + 1] & !active.spec_mask(),
            ).update(
                active.spec_port_base() + 2,
                pre[active.spec_port_base() + 2] | active.spec_mask(),
            )
        } else {
            post == pre
        },
    ensures
        forall|p: Pin|
            crate::pins::spec_ports_apart(p, active) && p.valid()
                && crate::pins::spec_pin_idle_input_high(pre, p)
                ==> #[trigger] crate::pins::spec_pin_idle_input_high(post, p),
        active.0 != 0xFF ==> crate::pins::spec_pin_idle_input_high(post, active),
{
    if active.0 != 0xFF {
        let b = active.spec_port_base();
        let m = active.spec_mask();
        let code = active.0;
        assert(code >> 4 < 16) by (bit_vector);
        assert forall|p: Pin|
            crate::pins::spec_ports_apart(p, active) && p.valid()
                && crate::pins::spec_pin_idle_input_high(pre, p) implies
            crate::pins::spec_pin_idle_input_high(post, p) by {
            let pc = p.0;
            assert(pc >> 4 < 16) by (bit_vector);
            let pb = p.spec_port_base();
            let pk = p.0 & 0x0F;
            if pb == b {
                lemma_monotone_bits(pre[b + 1], m, pk);
                lemma_monotone_bits(pre[b + 2], m, pk);
            }
        }
        let k = active.0 & 0x0F;
        lemma_monotone_bits(pre[b + 1], m, k);
        lemma_monotone_bits((pre[b + 1] & !m) as u8, m, k);
        lemma_monotone_bits(pre[b + 2], m, k);
    }
}

impl QmkKeyboard {
    /// Selects a row for sampling by driving its pin low; an unwired row
    /// is skipped.
    ///
    /// Returns whether the row was selected.
    pub fn select_row(&self, regs: &mut RegisterFile, row: u8) -> (r: bool)
        requires
            self.wf(),
            old(regs).wf(),
            row < self.config.rows_per_hand,
        ensures
            final(regs).wf(),
            r == (self.config.row_pins@[row as int].0 != 0xFF),
            ({
                let pin = self.config.row_pins@[row as int];
                if pin.0 != 0xFF {
                    final(regs)@ == old(regs)@.update(
                        pin.spec_port_base() + 1,
                        old(regs)@[pin.spec_port_base() + 1] | pin.spec_mask(),
                    ).update(
                        pin.spec_port_base() + 2,
                        old(regs)@[pin.spec_port_base() + 2] & !pin.spec_mask(),
                    )
                } else {
                    final(regs)@ == old(regs)@
                }
            }),
    {
        let pin = self.config.row_pins[row as usize];
        if pin.is_wired() {
            gpio_atomic_set_pin_output_low(regs, pin);
            return true;
        }
        false
    }

    /// Unselects a row by reverting its pin to an input with the pull-up
    /// on; an unwired row is skipped.
    ///
    /// Returns whether the row was unselected.
    pub fn unselect_row(&self, regs: &mut RegisterFile, row: u8) -> (r: bool)
        requires
            self.wf(),
            old(regs).wf(),
            row < self.config.rows_per_hand,
        ensures
            final(regs).wf(),
            r == (self.config.row_pins@[row as int].0 != 0xFF),
            ({
                let pin = self.config.row_pins@[row as int];
                if pin.0 != 0xFF {
                    final(regs)@ == old(regs)@.update(
                        pin.spec_port_base() + 1,
                        old(regs)@[pin.spec_port_base() + 1] & !pin.spec_mask(),
                    ).update(
                        pin.spec_port_base() + 2,
                        old(regs)@[pin.spec_port_base() + 2] | pin.spec_mask(),
                    )
                } else {
                    final(regs)@ == old(regs)@
                }
            }),
    {
        let pin = self.config.row_pins[row as usize];
        if pin.is_wired() {
            gpio_atomic_set_pin_input_high(regs, pin);
            return true;
        }
        false
    }

    /// Puts every row and column pin into its idle state: every wired pin
    /// ends as an input with the pull-up on, so no row is left selected
    /// and the first scan starts from a quiescent line state.
    pub fn matrix_init(&self, regs: &mut RegisterFile)
        requires
            self.wf(),
            self.config.spec_matrix_ports_disjoint(),
            old(regs).wf(),
        ensures
            final(regs).wf(),
            forall|i: int|
                0 <= i < self.config.rows_per_hand && (#[trigger] self.config.row_pins@[i]).0
                    != 0xFF ==> crate::pins::spec_pin_idle_input_high(
                    final(regs)@,
                    self.config.row_pins@[i],
                ),
            forall|i: int|
                0 <= i < self.config.matrix_columns && (#[trigger] self.config.col_pins@[i]).0
                    != 0xFF ==> crate::pins::spec_pin_idle_input_high(
                    final(regs)@,
                    self.config.col_pins@[i],
                ),
    {
        let ghost all_pins = self.config.row_pins@ + self.config.col_pins@;
        let rows = self.config.rows_per_hand;
        let cols = self.config.matrix_columns;
        let mut row: u8 = 0;
        while row < rows
            invariant
                self.wf(),
                self.config.spec_matrix_ports_disjoint(),
                regs.wf(),
                row <= rows,
                rows == self.config.rows_per_hand,
                all_pins == self.config.row_pins@ + self.config.col_pins@,
                forall|j: int|
                    0 <= j < row && (#[trigger] self.config.row_pins@[j]).0 != 0xFF
                        ==> crate::pins::spec_pin_idle_input_high(
                        regs@,
                        self.config.row_pins@[j],
                    ),
            decreases rows - row,
        {
            let ghost before = regs@;
            self.unselect_row(regs, row);
            proof {
                let active = self.config.row_pins@[row as int];
                lemma_idle_preserved_by_unselect(before, regs@, active);
                assert forall|j: int|
                    0 <= j < row + 1 && (#[trigger] self.config.row_pins@[j]).0 != 0xFF implies
                    crate::pins::spec_pin_idle_input_high(
                        regs@,
                        self.config.row_pins@[j],
                    ) by {
                    if j < row {
                        assert(all_pins[j] == self.config.row_pins@[j]);
                        assert(all_pins[row as int] == active);
                        assert(crate::pins::spec_ports_apart(all_pins[j], all_pins[row as int]));
                    }
                }
            }
            row = row + 1;
        }
        let mut col: u8 = 0;
        while col < cols
            invariant
                self.wf(),
                self.config.spec_matrix_ports_disjoint(),
                regs.wf(),
                col <= cols,
                rows == self.config.rows_per_hand,
                cols == self.config.matrix_columns,
                all_pins == self.config.row_pins@ + self.config.col_pins@,
                forall|j: int|
                    0 <= j < rows && (#[trigger] self.config.row_pins@[j]).0 != 0xFF
                        ==> crate::pins::spec_pin_idle_input_high(
                        regs@,
                        self.config.row_pins@[j],
                    ),
                forall|j: int|
                    0 <= j < col && (#[trigger] self.config.col_pins@[j]).0 != 0xFF
                        ==> crate::pins::spec_pin_idle_input_high(
                        regs@,
                        self.config.col_pins@[j],
                    ),
            decreases cols - col,
        {
            let ghost before = regs@;
            let pin = self.config.col_pins[col as usize];
            if pin.is_wired() {
                gpio_atomic_set_pin_input_high(regs, pin);
            }
            proof {
                lemma_idle_preserved_by_unselect(before, regs@, pin);
                let ghost at = rows + col;
                assert(all_pins[at as int] == pin);
                assert forall|j: int|
                    0 <= j < rows && (#[trigger] self.config.row_pins@[j]).0 != 0xFF implies
                    crate::pins::spec_pin_idle_input_high(
                        regs@,
                        self.config.row_pins@[j],
                    ) by {
                    assert(all_pins[j] == self.config.row_pins@[j]);
                    assert(crate::pins::spec_ports_apart(all_pins[j], all_pins[at as int]));
                }
                assert forall|j: int|
                    0 <= j < col + 1 && (#[trigger] self.config.col_pins@[j]).0 != 0xFF implies
                    crate::pins::spec_pin_idle_input_high(
                        regs@,
                        self.config.col_pins@[j],
                    ) by {
                    if j < col {
                        assert(all_pins[rows + j] == self.config.col_pins@[j]);
                        assert(crate::pins::spec_ports_apart(
                            all_pins[rows + j],
                            all_pins[at as int],
                        ));
                    }
                }
            }
            col = col + 1;
        }
    }

    /// Builds one row's value from its sampled column levels.
    ///
    /// Sampling happens on the wire: the row is selected, the settle delay
    /// elapses, every column pin is read, and the row is unselected again;
    /// `samples` holds those readings.
    pub fn matrix_read_cols_on_row(&self, samples: &Vec<bool>) -> (row_value: u8)
        requires
            self.wf(),
            samples@.len() == self.config.matrix_columns,
        ensures
            row_value == spec_row_value(self.config, samples@),
    {
        let cols = self.config.matrix_columns;
        let mut current_row_value: u8 = 0;
        let mut col_index: u8 = 0;
        while col_index < cols
            invariant
                self.wf(),
                col_index <= cols,
                cols == self.config.matrix_columns,
                samples@.len() == cols,
                current_row_value == spec_row_value_rec(self.config, samples@, col_index as int),
            decreases cols - col_index,
        {
            let pin = self.config.col_pins[col_index as usize];
            let level = if pin.is_wired() {
                samples[col_index as usize]
            } else {
                true
            };
            if !level {
                let bit: u8 = if is_right_hand(&self.config) {
                    cols - 1 - col_index
                } else {
                    col_index
                };
                current_row_value = current_row_value | (1u8 << bit);
            } else {
                proof {
                    let v = current_row_value;
                    assert(v | 0u8 == v) by (bit_vector);
                }
            }
            col_index = col_index + 1;
        }
        current_row_value
    }
}

/// Whether this configuration drives the right half.
fn is_right_hand(config: &crate::KeyboardConfig) -> (r: bool)
    ensures
        r == (config.hand is Right),
{
    crate::is_right(config.hand)
}

/// Compares `count` rows of `a` starting at `a_off` with the same range of
/// `b` starting at `b_off`.
fn ranges_equal(a: &Vec<u8>, a_off: u8, b: &Vec<u8>, b_off: u8, count: u8) -> (r: bool)
    requires
        a_off + count <= a@.len(),
        b_off + count <= b@.len(),
    ensures
        r == (a@.subrange(a_off as int, a_off + count) == b@.subrange(b_off as int, b_off + count)),
{
    let mut i: u8 = 0;
    while i < count
        invariant
            i <= count,
            a_off + count <= a@.len(),
            b_off + count <= b@.len(),
            forall|j: int| 0 <= j < i ==> #[trigger] a@[a_off + j] == b@[b_off + j],
        decreases count - i,
    {
        if a[a_off as usize + i as usize] != b[b_off as usize + i as usize] {
            proof {
                let sa = a@.subrange(a_off as int, a_off + count);
                let sb = b@.subrange(b_off as int, b_off + count);
                assert(sa[i as int] != sb[i as int]);
            }
            return false;
        }
        i = i + 1;
    }
    proof {
        let sa = a@.subrange(a_off as int, a_off + count);
        let sb = b@.subrange(b_off as int, b_off + count);
        assert forall|j: int| 0 <= j < count implies sa[j] == sb[j] by {
            assert(a@[a_off + j] == b@[b_off + j]);
        }
        assert(sa =~= sb);
    }
    true
}

/// The debounce step touches only the logical matrix and the two debounce
/// fields.
pub open spec fn debounce_frame(pre: QmkKeyboard, post: QmkKeyboard) -> bool {
    post == (QmkKeyboard {
        current_matrix: post.current_matrix,
        debouncing: post.debouncing,
        debouncing_time: post.debouncing_time,
        ..pre
    })
}

/// The debounce state machine, exactly:
///
/// - any raw change arms the window and (re)stamps the time — a later
///   chatter toggle restarts the wait, so this is a trailing-edge filter;
/// - with the window armed and `DEBOUNCE` milliseconds elapsed since the
///   last raw change, a raw state that still differs from the committed
///   half is committed and reported, and the window disarms;
/// - otherwise nothing moves.
pub open spec fn spec_debounce_effect(
    pre: QmkKeyboard,
    post: QmkKeyboard,
    changed: bool,
    now: u32,
    cooked_changed: bool,
) -> bool {
    let this_off = pre.config.spec_this_hand_offset();
    let rows = pre.config.rows_per_hand as int;
    let raw = pre.raw_matrix@;
    if changed {
        &&& post.debouncing
        &&& post.debouncing_time == now
        &&& post.current_matrix@ == pre.current_matrix@
        &&& !cooked_changed
    } else if pre.debouncing && crate::timer::spec_elapsed32(now, pre.debouncing_time)
        >= DEBOUNCE {
        &&& !post.debouncing
        &&& post.debouncing_time == pre.debouncing_time
        &&& if pre.current_matrix@.subrange(this_off, this_off + rows) == raw {
            post.current_matrix@ == pre.current_matrix@ && !cooked_changed
        } else {
            &&& cooked_changed
            &&& post.current_matrix@.len() == pre.current_matrix@.len()
            &&& post.current_matrix@.subrange(this_off, this_off + rows) == raw
            &&& (forall|j: int|
                0 <= j < pre.current_matrix@.len() && !(this_off <= j < this_off + rows)
                    ==> post.current_matrix@[j] == pre.current_matrix@[j])
        }
    } else {
        &&& post.debouncing == pre.debouncing
        &&& post.debouncing_time == pre.debouncing_time
        &&& post.current_matrix@ == pre.current_matrix@
        &&& !cooked_changed
    }
}

/// A run of debounce steps: `states[i]` steps to `states[i + 1]` under
/// input `inputs[i]` (the raw-change flag and the millisecond clock),
/// reporting `outs[i]`.
pub open spec fn debounce_trace(
    states: Seq<QmkKeyboard>,
    inputs: Seq<(bool, u32)>,
    outs: Seq<bool>,
) -> bool {
    &&& states.len() == inputs.len() + 1
    &&& outs.len() == inputs.len()
    &&& forall|i: int|
        0 <= i < inputs.len() ==> debounce_frame(#[trigger] states[i], states[i + 1])
            && spec_debounce_effect(states[i], states[i + 1], inputs[i].0, inputs[i].1, outs[i])
}

/// While the window armed at `t0` has not yet elapsed, a stable run
/// changes nothing and reports nothing.
proof fn lemma_debounce_hold(
    states: Seq<QmkKeyboard>,
    inputs: Seq<(bool, u32)>,
    outs: Seq<bool>,
    t0: u32,
    k: int,
)
    requires
        debounce_trace(states, inputs, outs),
        states[0].debouncing,
        states[0].debouncing_time == t0,
        forall|i: int|
            0 <= i < inputs.len() ==> !(#[trigger] inputs[i]).0 && crate::timer::spec_elapsed32(
                inputs[i].1,
                t0,
            ) == i + 1,
        0 <= k <= inputs.len(),
        k < DEBOUNCE,
    ensures
        states[k].debouncing,
        states[k].debouncing_time == t0,
        states[k].current_matrix@ == states[0].current_matrix@,
        states[k].raw_matrix@ == states[0].raw_matrix@,
        states[k].config == states[0].config,
        forall|j: int| 0 <= j < k ==> !outs[j],
    decreases k,
{
    if k > 0 {
        lemma_debounce_hold(states, inputs, outs, t0, k - 1);
    }
}

/// Once the window is disarmed, a stable run changes nothing further.
proof fn lemma_debounce_quiet(
    states: Seq<QmkKeyboard>,
    inputs: Seq<(bool, u32)>,
    outs: Seq<bool>,
    from: int,
    k: int,
)
    requires
        debounce_trace(states, inputs, outs),
        0 <= from <= k <= inputs.len(),
        !states[from].debouncing,
        forall|i: int| from <= i < inputs.len() ==> !(#[trigger] inputs[i]).0,
    ensures
        !states[k].debouncing,
        states[k].current_matrix@ == states[from].current_matrix@,
        forall|j: int| from <= j < k ==> !outs[j],
    decreases k - from,
{
    if k > from {
        lemma_debounce_quiet(states, inputs, outs, from, k - 1);
    }
}

/// Debounce idempotence: after a raw matrix toggles once (arming the
/// window at `t0`) and then stays stable, the committed matrix changes
/// exactly once, `DEBOUNCE` milliseconds after the toggle — at the first
/// tick whose elapsed time reaches the window — never before and never
/// again, and it changes to exactly the raw state.
pub proof fn lemma_debounce_idempotence(
    states: Seq<QmkKeyboard>,
    inputs: Seq<(bool, u32)>,
    outs: Seq<bool>,
    t0: u32,
)
    requires
        debounce_trace(states, inputs, outs),
        states[0].debouncing,
        states[0].debouncing_time == t0,
        forall|i: int|
            0 <= i < inputs.len() ==> !(#[trigger] inputs[i]).0 && crate::timer::spec_elapsed32(
                inputs[i].1,
                t0,
            ) == i + 1,
        inputs.len() >= DEBOUNCE,
    ensures
        forall|j: int| 0 <= j < DEBOUNCE - 1 ==> !outs[j],
        ({
            let this_off = states[0].config.spec_this_hand_offset();
            let rows = states[0].config.rows_per_hand as int;
            let committed = states[DEBOUNCE as int];
            &&& outs[DEBOUNCE - 1] == (states[0].current_matrix@.subrange(
                this_off,
                this_off + rows,
            ) != states[0].raw_matrix@)
            &&& (states[0].current_matrix@.subrange(this_off, this_off + rows)
                != states[0].raw_matrix@ ==> committed.current_matrix@.subrange(
                this_off,
                this_off + rows,
            ) == states[0].raw_matrix@)
        }),
        forall|j: int| DEBOUNCE <= j < inputs.len() ==> !outs[j],
        states[inputs.len() as int].current_matrix@ == states[DEBOUNCE as int].current_matrix@,
{
    let d = DEBOUNCE as int;
    lemma_debounce_hold(states, inputs, outs, t0, d - 1);
    assert(debounce_frame(states[d - 1], states[d]) && spec_debounce_effect(
        states[d - 1],
        states[d],
        inputs[d - 1].0,
        inputs[d - 1].1,
        outs[d - 1],
    ));
    lemma_debounce_quiet(states, inputs, outs, d, inputs.len() as int);
}

/// Debounce chatter rejection: while the raw matrix keeps toggling, and
/// every stable tick still falls inside the window armed by the latest
/// toggle, the committed matrix does not change — not until `DEBOUNCE`
/// milliseconds elapse after the last toggle, which is index `m` here.
pub proof fn lemma_debounce_chatter(
    states: Seq<QmkKeyboard>,
    inputs: Seq<(bool, u32)>,
    outs: Seq<bool>,
    m: int,
)
    requires
        debounce_trace(states, inputs, outs),
        0 <= m < inputs.len(),
        inputs[m].0,
        forall|i: int|
            0 <= i <= m ==> ((#[trigger] inputs[i]).0 || (states[i].debouncing
                && crate::timer::spec_elapsed32(inputs[i].1, states[i].debouncing_time)
                < DEBOUNCE)),
        forall|i: int|
            m < i < inputs.len() ==> !(#[trigger] inputs[i]).0 && crate::timer::spec_elapsed32(
                inputs[i].1,
                inputs[m].1,
            ) < DEBOUNCE,
    ensures
        forall|j: int| 0 <= j < inputs.len() ==> !outs[j],
        states[inputs.len() as int].current_matrix@ == states[0].current_matrix@,
        states[inputs.len() as int].debouncing,
        states[inputs.len() as int].debouncing_time == inputs[m].1,
{
    lemma_chatter_prefix(states, inputs, outs, m, m + 1);
    lemma_chatter_tail(states, inputs, outs, m, inputs.len() as int);
}

/// Through the chattering prefix nothing commits.
proof fn lemma_chatter_prefix(
    states: Seq<QmkKeyboard>,
    inputs: Seq<(bool, u32)>,
    outs: Seq<bool>,
    m: int,
    k: int,
)
    requires
        debounce_trace(states, inputs, outs),
        0 <= m < inputs.len(),
        forall|i: int|
            0 <= i <= m ==> ((#[trigger] inputs[i]).0 || (states[i].debouncing
                && crate::timer::spec_elapsed32(inputs[i].1, states[i].debouncing_time)
                < DEBOUNCE)),
        0 <= k <= m + 1,
    ensures
        states[k].current_matrix@ == states[0].current_matrix@,
        forall|j: int| 0 <= j < k ==> !outs[j],
    decreases k,
{
    if k > 0 {
        lemma_chatter_prefix(states, inputs, outs, m, k - 1);
    }
}

/// After the last toggle the window is armed at its time; while that
/// window has not elapsed nothing commits.
proof fn lemma_chatter_tail(
    states: Seq<QmkKeyboard>,
    inputs: Seq<(bool, u32)>,
    outs: Seq<bool>,
    m: int,
    k: int,
)
    requires
        debounce_trace(states, inputs, outs),
        0 <= m < inputs.len(),
        inputs[m].0,
        forall|i: int|
            m < i < inputs.len() ==> !(#[trigger] inputs[i]).0 && crate::timer::spec_elapsed32(
                inputs[i].1,
                inputs[m].1,
            ) < DEBOUNCE,
        m + 1 <= k <= inputs.len(),
    ensures
        states[k].debouncing,
        states[k].debouncing_time == inputs[m].1,
        states[k].current_matrix@ == states[m + 1].current_matrix@,
        forall|j: int| m + 1 <= j < k ==> !outs[j],
    decreases k - m,
{
    if k > m + 1 {
        lemma_chatter_tail(states, inputs, outs, m, k - 1);
    } else {
        // The toggle at `m` arms the window at its time.
        assert(spec_debounce_effect(
            states[m],
            states[m + 1],
            inputs[m].0,
            inputs[m].1,
            outs[m],
        ));
    }
}

impl QmkKeyboard {
    /// Settle-time debounce over this half's rows.
    ///
    /// `changed` says whether the just-scanned raw matrix differs from the
    /// previous raw state; `now` is the millisecond clock. Returns whether
    /// the committed (cooked) half changed.
    pub fn debounce(&mut self, changed: bool, now: u32) -> (cooked_changed: bool)
        requires
            old(self).wf(),
        ensures
            final(self).wf(),
            final(self).config == old(self).config,
            debounce_frame(*old(self), *final(self)),
            spec_debounce_effect(*old(self), *final(self), changed, now, cooked_changed),
    {
        let this_off = self.config.this_hand_offset();
        let rows = self.config.rows_per_hand;
        let mut cooked_changed = false;

        if changed {
            self.debouncing = true;
            self.debouncing_time = now;
        } else if self.debouncing && now.wrapping_sub(self.debouncing_time) >= DEBOUNCE {
            if !ranges_equal(&self.current_matrix, this_off, &self.raw_matrix, 0, rows) {
                crate::shared_memory::write_rows(&mut self.current_matrix, this_off,
                    &self.raw_matrix);
                proof {
                    assert(self.current_matrix@.subrange(
                        this_off as int,
                        this_off + rows,
                    ) =~= self.raw_matrix@);
                }
                cooked_changed = true;
            }
            self.debouncing = false;
        }
        proof {
            assert(old(self).raw_matrix@.subrange(0, old(self).config.rows_per_hand as int)
                =~= old(self).raw_matrix@);
        }
        cooked_changed
    }

    /// One full scan of this half: builds the raw matrix from the sampled
    /// column levels of every row (an unwired row scans as all-released),
    /// then debounces. Returns whether the committed half changed.
    pub fn matrix_scan(&mut self, samples: &Vec<Vec<bool>>, now: u32) -> (cooked_changed: bool)
        requires
            old(self).wf(),
            samples@.len() == old(self).config.rows_per_hand,
            forall|r: int|
                0 <= r < samples@.len() ==> (#[trigger] samples@[r])@.len() == old(
                    self,
                ).config.matrix_columns,
        ensures
            final(self).wf(),
            final(self).config == old(self).config,
            spec_scan_effect(*old(self), *final(self), samples@, now, cooked_changed),
    {
        let rows = self.config.rows_per_hand;
        let mut new_matrix: Vec<u8> = Vec::new();
        let mut row: u8 = 0;
        while row < rows
            invariant
                self.wf(),
                self == old(self),
                row <= rows,
                rows == self.config.rows_per_hand,
                samples@.len() == rows,
                forall|r: int|
                    0 <= r < samples@.len() ==> (#[trigger] samples@[r])@.len()
                        == self.config.matrix_columns,
                new_matrix@.len() == row,
                forall|r: int|
                    0 <= r < row ==> new_matrix@[r] == spec_scanned_matrix(
                        self.config,
                        samples@,
                    )[r],
            decreases rows - row,
        {
            let pin = self.config.row_pins[row as usize];
            if pin.is_wired() {
                let value = self.matrix_read_cols_on_row(&samples[row as usize]);
                new_matrix.push(value);
            } else {
                // An unwired row is never selected: it scans as released.
                new_matrix.push(0);
            }
            row = row + 1;
        }
        proof {
            assert(new_matrix@ =~= spec_scanned_matrix(self.config, samples@));
        }

        let changed = !ranges_equal(&new_matrix, 0, &self.raw_matrix, 0, rows);
        proof {
            assert(new_matrix@.subrange(0, rows as int) =~= new_matrix@);
            assert(self.raw_matrix@.subrange(0, rows as int) =~= self.raw_matrix@);
        }
        if changed {
            self.raw_matrix = new_matrix;
        }
        self.debounce(changed, now)
    }
}

/// Exactly one cell `(r, c)` differs between two logical matrices: every
/// other row is identical, and within row `r` the two values differ in
/// exactly bit `c`.
pub open spec fn single_key_diff(
    prev: Seq<u8>,
    cur: Seq<u8>,
    r: int,
    c: int,
    rows: int,
    cols: int,
) -> bool {
    &&& 0 <= r < rows
    &&& 0 <= c < cols
    &&& (forall|r2: int| 0 <= r2 < rows && r2 != r ==> prev[r2] == cur[r2])
    &&& (prev[r] ^ cur[r]) == (1u8 << (c as u8))
}

/// Two bytes whose XOR is a single bit mask agree on every other bit and
/// disagree on that one.
proof fn lemma_single_bit_diff(x: u8, y: u8, k: u8, j: u8)
    by (bit_vector)
    requires
        x ^ y == 1u8 << k,
        k < 8,
        j < 8,
    ensures
        j != k ==> (x & (1u8 << j)) == (y & (1u8 << j)),
        (x & (1u8 << k)) != (y & (1u8 << k)),
{
}

/// What one dispatched cell does: a press when the current bit is set, a
/// release when it is clear.
pub open spec fn dispatched_effect(
    pre: QmkKeyboard,
    post: QmkKeyboard,
    cur: Seq<u8>,
    r: int,
    c: int,
) -> bool {
    if cur[r] & (1u8 << (c as u8)) != 0 {
        crate::spec_press_effect(pre, post, pre.layer as int, c, r)
    } else {
        crate::spec_release_effect(pre, post, pre.layer as int, c, r)
    }
}

/// The dispatch pass touches only the previous matrix, the layer, and the
/// HID state.
pub open spec fn key_task_frame(pre: QmkKeyboard, post: QmkKeyboard) -> bool {
    post == (QmkKeyboard {
        previous_matrix: post.previous_matrix,
        layer: post.layer,
        hid: post.hid,
        ..pre
    })
}

/// One cell of the dispatch walk: a differing bit fires a press (bit now
/// set) or release (bit now clear) on the state reached so far; an equal
/// bit changes nothing. Cell `n` is `(row, column) = (n / cols, n % cols)`.
pub open spec fn spec_dispatch_cell(
    km: crate::keymap::Keymap,
    layer_count: u8,
    rows_per_hand: int,
    cols: int,
    prev: Seq<u8>,
    cur: Seq<u8>,
    st: crate::DispatchState,
    n: int,
) -> crate::DispatchState {
    let row = n / cols;
    let column = n % cols;
    let mask = 1u8 << (column as u8);
    if (prev[row] & mask) != (cur[row] & mask) {
        if cur[row] & mask != 0 {
            crate::spec_press_step(km, layer_count, rows_per_hand, cols, st, column, row)
        } else {
            crate::spec_release_step(km, layer_count, rows_per_hand, cols, st, column, row)
        }
    } else {
        st
    }
}

/// The dispatch walk over the first `n` cells, in row-major order.
pub open spec fn spec_dispatch_upto(
    km: crate::keymap::Keymap,
    layer_count: u8,
    rows_per_hand: int,
    cols: int,
    prev: Seq<u8>,
    cur: Seq<u8>,
    st0: crate::DispatchState,
    n: int,
) -> crate::DispatchState
    decreases n,
{
    if n <= 0 {
        st0
    } else {
        spec_dispatch_cell(
            km,
            layer_count,
            rows_per_hand,
            cols,
            prev,
            cur,
            spec_dispatch_upto(km, layer_count, rows_per_hand, cols, prev, cur, st0, n - 1),
            n - 1,
        )
    }
}

/// A row whose bytes agree contributes nothing to the dispatch walk.
proof fn lemma_dispatch_skip_row(
    km: crate::keymap::Keymap,
    layer_count: u8,
    rows_per_hand: int,
    cols: int,
    prev: Seq<u8>,
    cur: Seq<u8>,
    st0: crate::DispatchState,
    row: int,
    k: int,
)
    requires
        cols >= 1,
        0 <= row,
        0 <= k <= cols,
        prev[row] == cur[row],
    ensures
        spec_dispatch_upto(km, layer_count, rows_per_hand, cols, prev, cur, st0, row * cols + k)
            == spec_dispatch_upto(km, layer_count, rows_per_hand, cols, prev, cur, st0, row
            * cols),
    decreases k,
{
    if k > 0 {
        lemma_dispatch_skip_row(km, layer_count, rows_per_hand, cols, prev, cur, st0, row, k - 1);
        let n = row * cols + (k - 1);
        lemma_fundamental_div_mod_converse_div(n, cols, row, k - 1);
        lemma_fundamental_div_mod_converse_mod(n, cols, row, k - 1);
    }
}

/// What one dispatch pass does: an unchanged tick stands still; a changed
/// tick dispatches every differing cell and catches the previous matrix
/// up; a tick with exactly one changed cell amounts to that one press or
/// release.
pub open spec fn spec_key_task_effect(
    pre: QmkKeyboard,
    post: QmkKeyboard,
    our_matrix_changed: bool,
    changed: bool,
) -> bool {
    let other_off = pre.config.spec_other_hand_offset();
    let rows = pre.config.rows_per_hand as int;
    &&& changed == (our_matrix_changed || pre.previous_matrix@.subrange(
        other_off,
        other_off + rows,
    ) != pre.current_matrix@.subrange(other_off, other_off + rows))
    &&& (!changed ==> post == pre)
    &&& (changed ==> key_task_frame(pre, post) && post.previous_matrix@ == pre.current_matrix@)
    &&& (changed ==> crate::usb::keycode_op_frame(pre.hid, post.hid))
    &&& (changed ==> crate::spec_dispatch_state_of(post) == spec_dispatch_upto(
        pre.keymap@,
        pre.config.layer_count,
        pre.config.rows_per_hand as int,
        pre.config.matrix_columns as int,
        pre.previous_matrix@,
        pre.current_matrix@,
        crate::spec_dispatch_state_of(pre),
        pre.config.spec_matrix_rows() * (pre.config.matrix_columns as int),
    ))
    &&& (changed ==> forall|r: int, c: int|
        #[trigger] single_key_diff(
            pre.previous_matrix@,
            pre.current_matrix@,
            r,
            c,
            pre.config.spec_matrix_rows(),
            pre.config.matrix_columns as int,
        ) ==> dispatched_effect(
            pre,
            (QmkKeyboard { previous_matrix: pre.previous_matrix, ..post }),
            pre.current_matrix@,
            r,
            c,
        ))
}

/// What one whole matrix tick does: a scan-and-debounce pass, then the
/// serial exchange, then the dispatch pass, chained through their exact
/// effects.
pub open spec fn spec_matrix_task_effect(
    pre: QmkKeyboard,
    post: QmkKeyboard,
    samples: Seq<Vec<bool>>,
    now: u32,
    response: Seq<bool>,
    changed: bool,
) -> bool {
    exists|scanned: QmkKeyboard, synced: QmkKeyboard, our_changed: bool, sent: Option<Vec<bool>>|
        {
            &&& #[trigger] spec_scan_effect(pre, scanned, samples, now, our_changed)
            &&& #[trigger] crate::serial::spec_serial_task_effect(scanned, synced, response, sent)
            &&& spec_key_task_effect(synced, post, our_changed, changed)
        }
}

impl QmkKeyboard {
    /// Walks the matrix diff and dispatches every changed cell.
    ///
    /// A tick counts as changed when this half's committed state changed
    /// (`our_matrix_changed`) or the other half's rows moved since the
    /// previous tick. On a changed tick, every cell whose bit differs
    /// between the previous and current matrix fires a press (bit now set)
    /// or release (bit now clear), and the previous matrix catches up.
    /// When exactly one cell changed, the whole pass amounts to that one
    /// dispatch, as the last clause states.
    pub fn key_task(&mut self, our_matrix_changed: bool) -> (changed: bool)
        requires
            old(self).wf(),
        ensures
            final(self).wf(),
            final(self).config == old(self).config,
            spec_key_task_effect(*old(self), *final(self), our_matrix_changed, changed),
    {
        let rows = self.config.rows_per_hand;
        let matrix_rows = self.config.matrix_rows();
        let cols = self.config.matrix_columns;
        let other_off = self.config.other_hand_offset();

        let changed = our_matrix_changed || !ranges_equal(
            &self.previous_matrix,
            other_off,
            &self.current_matrix,
            other_off,
            rows,
        );
        if !changed {
            return false;
        }

        let ghost prev0 = self.previous_matrix@;
        let ghost cur0 = self.current_matrix@;
        let ghost km = self.keymap@;
        let ghost lc = self.config.layer_count;
        let ghost st0 = crate::spec_dispatch_state_of(*self);
        let mut row: u8 = 0;
        while row < matrix_rows
            invariant
                self.wf(),
                self.config == old(self).config,
                rows == self.config.rows_per_hand,
                cols == self.config.matrix_columns,
                matrix_rows == self.config.spec_matrix_rows(),
                row <= matrix_rows,
                key_task_frame(*old(self), *self),
                self.previous_matrix@ == prev0,
                self.current_matrix@ == cur0,
                prev0 == old(self).previous_matrix@,
                cur0 == old(self).current_matrix@,
                km == old(self).keymap@,
                lc == old(self).config.layer_count,
                st0 == crate::spec_dispatch_state_of(*old(self)),
                crate::usb::keycode_op_frame(old(self).hid, self.hid),
                crate::spec_dispatch_state_of(*self) == spec_dispatch_upto(
                    km,
                    lc,
                    rows as int,
                    cols as int,
                    prev0,
                    cur0,
                    st0,
                    (row as int) * (cols as int),
                ),
                forall|r: int, c: int|
                    #[trigger] single_key_diff(
                        prev0,
                        cur0,
                        r,
                        c,
                        matrix_rows as int,
                        cols as int,
                    ) ==> if r >= row {
                        *self == *old(self)
                    } else {
                        dispatched_effect(*old(self), *self, cur0, r, c)
                    },
            decreases matrix_rows - row,
        {
            if self.previous_matrix[row as usize] != self.current_matrix[row as usize] {
                let mut column: u8 = 0;
                while column < cols
                    invariant
                        self.wf(),
                        self.config == old(self).config,
                        rows == self.config.rows_per_hand,
                        cols == self.config.matrix_columns,
                        matrix_rows == self.config.spec_matrix_rows(),
                        row < matrix_rows,
                        column <= cols,
                        key_task_frame(*old(self), *self),
                        self.previous_matrix@ == prev0,
                        self.current_matrix@ == cur0,
                        prev0 == old(self).previous_matrix@,
                        cur0 == old(self).current_matrix@,
                        km == old(self).keymap@,
                        lc == old(self).config.layer_count,
                        st0 == crate::spec_dispatch_state_of(*old(self)),
                        prev0[row as int] != cur0[row as int],
                        crate::usb::keycode_op_frame(old(self).hid, self.hid),
                        crate::spec_dispatch_state_of(*self) == spec_dispatch_upto(
                            km,
                            lc,
                            rows as int,
                            cols as int,
                            prev0,
                            cur0,
                            st0,
                            (row as int) * (cols as int) + column,
                        ),
                        forall|r: int, c: int|
                            #[trigger] single_key_diff(
                                prev0,
                                cur0,
                                r,
                                c,
                                matrix_rows as int,
                                cols as int,
                            ) ==> if r > row || (r == row && c >= column) {
                                *self == *old(self)
                            } else {
                                dispatched_effect(*old(self), *self, cur0, r, c)
                            },
                    decreases cols - column,
                {
                    let ghost before = *self;
                    let mask: u8 = 1u8 << column;
                    let current_press = self.current_matrix[row as usize] & mask;
                    if self.previous_matrix[row as usize] & mask != current_press {
                        if current_press != 0 {
                            self.key_pressed(column, row);
                        } else {
                            self.key_released(column, row);
                        }
                    }
                    proof {
                        // The walk takes exactly this cell's step.
                        let n = (row as int) * (cols as int) + column;
                        lemma_fundamental_div_mod_converse_div(
                            n,
                            cols as int,
                            row as int,
                            column as int,
                        );
                        lemma_fundamental_div_mod_converse_mod(
                            n,
                            cols as int,
                            row as int,
                            column as int,
                        );
                        if prev0[row as int] & mask != cur0[row as int] & mask {
                            if cur0[row as int] & mask != 0 {
                                crate::lemma_press_functional(
                                    before,
                                    *self,
                                    column as int,
                                    row as int,
                                );
                            } else {
                                crate::lemma_release_functional(
                                    before,
                                    *self,
                                    column as int,
                                    row as int,
                                );
                            }
                        }
                        assert(crate::spec_dispatch_state_of(*self) == spec_dispatch_upto(
                            km,
                            lc,
                            rows as int,
                            cols as int,
                            prev0,
                            cur0,
                            st0,
                            n + 1,
                        ));
                        assert forall|r: int, c: int|
                            #[trigger] single_key_diff(
                                prev0,
                                cur0,
                                r,
                                c,
                                matrix_rows as int,
                                cols as int,
                            ) implies (if r > row || (r == row && c >= column + 1) {
                            *self == *old(self)
                        } else {
                            dispatched_effect(*old(self), *self, cur0, r, c)
                        }) by {
                            if r != row as int {
                                // Every other row is identical, but this
                                // row's bytes differ: contradiction.
                                assert(prev0[row as int] == cur0[row as int]);
                                assert(false);
                            } else {
                                lemma_single_bit_diff(
                                    prev0[r],
                                    cur0[r],
                                    c as u8,
                                    column,
                                );
                                if c == column as int {
                                    // The one differing bit: the dispatch
                                    // fired from the untouched state.
                                    assert(before == *old(self));
                                } else {
                                    // Equal bits at this column: nothing
                                    // fired, the state carried over.
                                    assert(*self == before);
                                }
                            }
                        }
                    }
                    column = column + 1;
                }
                proof {
                    assert((row as int + 1) * (cols as int) == (row as int) * (cols as int)
                        + cols as int) by (nonlinear_arith);
                }
            } else {
                proof {
                    lemma_dispatch_skip_row(
                        km,
                        lc,
                        rows as int,
                        cols as int,
                        prev0,
                        cur0,
                        st0,
                        row as int,
                        cols as int,
                    );
                    assert((row as int + 1) * (cols as int) == (row as int) * (cols as int)
                        + cols as int) by (nonlinear_arith);
                    assert forall|r: int, c: int|
                        single_key_diff(
                            prev0,
                            cur0,
                            r,
                            c,
                            matrix_rows as int,
                            cols as int,
                        ) && r == row implies false by {
                        assert(prev0[r] == cur0[r]);
                        let x = cur0[r];
                        let k = c as u8;
                        assert((x ^ x) != (1u8 << k)) by (bit_vector)
                            requires
                                k < 8,
                        ;
                    }
                }
            }
            row = row + 1;
        }

        // The dispatched state becomes the reference for the next tick.
        let snapshot = crate::shared_memory::copy_rows(&self.current_matrix, 0, matrix_rows);
        proof {
            assert(snapshot@ =~= cur0);
        }
        self.previous_matrix = snapshot;
        true
    }

    /// One full matrix tick: scan and debounce this half, exchange rows
    /// with the other half over the serial link, and dispatch the merged
    /// diff. Returns whether the logical matrix changed, which gates
    /// further work such as display refreshes.
    ///
    /// Each stage carries its own exact contract: [`Self::matrix_scan`],
    /// [`Self::serial_task`], and [`Self::key_task`].
    pub fn matrix_task(&mut self, samples: &Vec<Vec<bool>>, now: u32, response: &Vec<bool>) -> (changed:
        bool)
        requires
            old(self).wf(),
            samples@.len() == old(self).config.rows_per_hand,
            forall|r: int|
                0 <= r < samples@.len() ==> (#[trigger] samples@[r])@.len() == old(
                    self,
                ).config.matrix_columns,
            response@.len() + 22 + 18 * (old(self).config.rows_per_hand as int) <= usize::MAX,
        ensures
            final(self).wf(),
            final(self).config == old(self).config,
            spec_matrix_task_effect(*old(self), *final(self), samples@, now, response@, changed),
            changed ==> final(self).previous_matrix@ == final(self).current_matrix@,
            !changed ==> final(self).previous_matrix@ == old(self).previous_matrix@
                && final(self).layer == old(self).layer && final(self).hid == old(self).hid,
    {
        let our_matrix_changed = self.matrix_scan(samples, now);
        let ghost scanned = *self;
        let sent = self.serial_task(response);
        let ghost synced = *self;
        let changed = self.key_task(our_matrix_changed);
        proof {
            assert(spec_scan_effect(*old(self), scanned, samples@, now, our_matrix_changed));
            assert(crate::serial::spec_serial_task_effect(scanned, synced, response@, sent));
            assert(spec_key_task_effect(synced, *self, our_matrix_changed, changed));
        }
        changed
    }
}

} // verus!
