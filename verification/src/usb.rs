//! HID report state and the decisions around sending reports.
//!
//! The USB stack itself (endpoints, descriptors, enumeration) is an
//! external collaborator; this module owns the report contents and the
//! idle bookkeeping, and decides per tick whether a report is due. The
//! shell hands the returned report to the hardware endpoint.
use vstd::prelude::*;

verus! {

/// Number of simultaneous keycodes a keyboard report carries.
pub const MAX_KEYS: u8 = 6;

/// Packs a version triple into the binary-coded-decimal word the USB
/// descriptor carries: the major number in the high byte, minor and
/// revision in one nibble each.
pub fn version_bcd(major: u16, minor: u16, revision: u16) -> (r: u16)
    ensures
        r / 256 == major % 256,
        (r / 16) % 16 == minor % 16,
        r % 16 == revision % 16,
{
    let r = ((major & 0xFF) << 8u16) | ((minor & 0x0F) << 4u16) | (revision & 0x0F);
    proof {
        let v = r;
        assert(v == ((major & 0xFF) << 8u16) | ((minor & 0x0F) << 4u16) | (revision & 0x0F) ==> (v
            / 256 == major % 256 && (v / 16) % 16 == minor % 16 && v % 16 == revision % 16))
            by (bit_vector);
    }
    r
}

/// The keyboard HID report: modifier bits and up to six keycodes.
#[derive(Clone, Debug)]
pub struct UsbKeyboardReportData {
    pub modifier: u8,
    pub reserved: u8,
    pub key_code: Vec<u8>,
}

impl UsbKeyboardReportData {
    /// The keycode array always has exactly [`MAX_KEYS`] slots.
    pub open spec fn wf(&self) -> bool {
        self.key_code@.len() == MAX_KEYS
    }

    /// An empty report.
    pub fn new() -> (r: UsbKeyboardReportData)
        ensures
            r.wf(),
            r.modifier == 0,
            r.reserved == 0,
            forall|i: int| 0 <= i < MAX_KEYS ==> r.key_code@[i] == 0u8,
    {
        UsbKeyboardReportData {
            modifier: 0,
            reserved: 0,
            key_code: crate::shared_memory::zero_rows(MAX_KEYS),
        }
    }

    /// A field-for-field copy of the report.
    pub fn duplicate(&self) -> (r: UsbKeyboardReportData)
        ensures
            r.modifier == self.modifier,
            r.reserved == self.reserved,
            r.key_code@ == self.key_code@,
    {
        let mut codes: Vec<u8> = Vec::new();
        let mut i: usize = 0;
        while i < self.key_code.len()
            invariant
                i <= self.key_code@.len(),
                codes@ == self.key_code@.subrange(0, i as int),
            decreases self.key_code@.len() - i,
        {
            codes.push(self.key_code[i]);
            i = i + 1;
        }
        proof {
            assert(codes@ == self.key_code@);
        }
        UsbKeyboardReportData { modifier: self.modifier, reserved: self.reserved, key_code: codes }
    }
}

/// The mouse HID report.
#[derive(Clone, Copy, PartialEq, Eq, Structural, Debug)]
pub struct UsbMouseReportData {
    pub button: u8,
    pub x: i8,
    pub y: i8,
    pub v: i8,
    pub h: i8,
}

impl UsbMouseReportData {
    /// A motionless report.
    pub fn new() -> (r: UsbMouseReportData)
        ensures
            r == (UsbMouseReportData { button: 0, x: 0, y: 0, v: 0, h: 0 }),
    {
        UsbMouseReportData { button: 0, x: 0, y: 0, v: 0, h: 0 }
    }
}

/// Some slot holds this code.
pub open spec fn has_code(s: Seq<u8>, code: u8) -> bool {
    exists|i: int| 0 <= i < s.len() && s[i] == code
}

/// What adding a keycode does to the slot array and the dirty flag: a code
/// already present, or a full array, changes nothing; otherwise the code
/// lands in the last free slot and the report is marked dirty.
pub open spec fn add_code_effect(
    s_old: Seq<u8>,
    code: u8,
    upd_old: bool,
    s_new: Seq<u8>,
    upd_new: bool,
) -> bool {
    if has_code(s_old, code) || !has_code(s_old, 0) {
        s_new == s_old && upd_new == upd_old
    } else {
        exists|k: int|
            {
                &&& 0 <= k < s_old.len()
                &&& s_old[k] == 0
                &&& (forall|j: int| k < j < s_old.len() ==> s_old[j] != 0)
                &&& s_new == s_old.update(k, code)
                &&& upd_new
            }
    }
}

/// What removing a keycode does: the first slot holding it is cleared and
/// the report marked dirty; an absent code changes nothing.
pub open spec fn remove_code_effect(
    s_old: Seq<u8>,
    code: u8,
    upd_old: bool,
    s_new: Seq<u8>,
    upd_new: bool,
) -> bool {
    if !has_code(s_old, code) {
        s_new == s_old && upd_new == upd_old
    } else {
        exists|k: int|
            {
                &&& 0 <= k < s_old.len()
                &&& s_old[k] == code
                &&& (forall|j: int| 0 <= j < k ==> s_old[j] != code)
                &&& s_new == s_old.update(k, 0)
                &&& upd_new
            }
    }
}

/// The last slot holding zero, or -1 when the array is full.
pub open spec fn spec_last_zero(s: Seq<u8>) -> int
    decreases s.len(),
{
    if s.len() == 0 {
        -1
    } else if s.last() == 0 {
        s.len() - 1
    } else {
        spec_last_zero(s.drop_last())
    }
}

/// The first slot holding `v`, or -1 when none does.
pub open spec fn spec_first_index(s: Seq<u8>, v: u8) -> int
    decreases s.len(),
{
    if s.len() == 0 {
        -1
    } else if s[0] == v {
        0
    } else {
        let r = spec_first_index(s.subrange(1, s.len() as int), v);
        if r == -1 {
            -1
        } else {
            r + 1
        }
    }
}

/// A zero slot with no zero after it is the last zero.
pub proof fn lemma_last_zero_unique(s: Seq<u8>, k: int)
    requires
        0 <= k < s.len(),
        s[k] == 0,
        forall|j: int| k < j < s.len() ==> s[j] != 0,
    ensures
        spec_last_zero(s) == k,
    decreases s.len(),
{
    if k < s.len() - 1 {
        lemma_last_zero_unique(s.drop_last(), k);
    }
}

/// A slot holding `v` with no earlier one is the first index of `v`.
pub proof fn lemma_first_index_unique(s: Seq<u8>, v: u8, k: int)
    requires
        0 <= k < s.len(),
        s[k] == v,
        forall|j: int| 0 <= j < k ==> s[j] != v,
    ensures
        spec_first_index(s, v) == k,
    decreases k,
{
    if k > 0 {
        lemma_first_index_unique(s.subrange(1, s.len() as int), v, k - 1);
    }
}

/// The slot array after adding a keycode.
pub open spec fn spec_add_code(s: Seq<u8>, code: u8) -> Seq<u8> {
    if has_code(s, code) || !has_code(s, 0) {
        s
    } else {
        s.update(spec_last_zero(s), code)
    }
}

/// The dirty flag after adding a keycode.
pub open spec fn spec_add_marks(s: Seq<u8>, code: u8, upd: bool) -> bool {
    if has_code(s, code) || !has_code(s, 0) {
        upd
    } else {
        true
    }
}

/// The slot array after removing a keycode.
pub open spec fn spec_remove_code(s: Seq<u8>, code: u8) -> Seq<u8> {
    if !has_code(s, code) {
        s
    } else {
        s.update(spec_first_index(s, code), 0)
    }
}

/// The dirty flag after removing a keycode.
pub open spec fn spec_remove_marks(s: Seq<u8>, code: u8, upd: bool) -> bool {
    if !has_code(s, code) {
        upd
    } else {
        true
    }
}

/// The add-code relation determines the outcome: its witness slot is the
/// last free one.
pub proof fn lemma_add_code_functional(
    s_old: Seq<u8>,
    code: u8,
    upd_old: bool,
    s_new: Seq<u8>,
    upd_new: bool,
)
    requires
        add_code_effect(s_old, code, upd_old, s_new, upd_new),
    ensures
        s_new == spec_add_code(s_old, code),
        upd_new == spec_add_marks(s_old, code, upd_old),
{
    if !(has_code(s_old, code) || !has_code(s_old, 0)) {
        let k = choose|k: int|
            0 <= k < s_old.len() && #[trigger] s_old[k] == 0 && (forall|j: int|
                k < j < s_old.len() ==> s_old[j] != 0) && s_new == s_old.update(k, code)
                && upd_new;
        lemma_last_zero_unique(s_old, k);
    }
}

/// The remove-code relation determines the outcome: its witness slot is
/// the first occurrence.
pub proof fn lemma_remove_code_functional(
    s_old: Seq<u8>,
    code: u8,
    upd_old: bool,
    s_new: Seq<u8>,
    upd_new: bool,
)
    requires
        remove_code_effect(s_old, code, upd_old, s_new, upd_new),
    ensures
        s_new == spec_remove_code(s_old, code),
        upd_new == spec_remove_marks(s_old, code, upd_old),
{
    if has_code(s_old, code) {
        let k = choose|k: int|
            0 <= k < s_old.len() && #[trigger] s_old[k] == code && (forall|j: int|
                0 <= j < k ==> s_old[j] != code) && s_new == s_old.update(k, 0) && upd_new;
        lemma_first_index_unique(s_old, code, k);
    }
}

/// The parts of the HID state that the keycode operations leave alone.
pub open spec fn keycode_op_frame(pre: HidState, post: HidState) -> bool {
    &&& post == (HidState {
        keyboard_report: post.keyboard_report,
        keyboard_updated: post.keyboard_updated,
        ..pre
    })
    &&& post.keyboard_report == (UsbKeyboardReportData {
        key_code: post.keyboard_report.key_code,
        ..pre.keyboard_report
    })
}

/// The idle countdown after one report decision: an expired period
/// restarts, whether or not the endpoint could take a report.
pub open spec fn spec_idle_after(pre: HidState) -> u16 {
    if pre.idle_count != 0 && pre.idle_ms_remaining == 0 {
        pre.idle_count
    } else {
        pre.idle_ms_remaining
    }
}

/// The state after the keyboard report decision.
pub open spec fn spec_keyboard_send_post(pre: HidState, configured: bool, ready: bool) -> HidState {
    if !configured {
        pre
    } else {
        let due = pre.idle_count != 0 && pre.idle_ms_remaining == 0 || pre.keyboard_updated;
        HidState {
            idle_ms_remaining: spec_idle_after(pre),
            keyboard_updated: if ready && due {
                false
            } else {
                pre.keyboard_updated
            },
            ..pre
        }
    }
}

/// The state after the mouse report decision. Sending clears the keyboard
/// dirty flag — an oddity the reporter has always had and that its callers
/// rely on staying put.
pub open spec fn spec_mouse_send_post(pre: HidState, configured: bool, ready: bool) -> HidState {
    if !configured {
        pre
    } else {
        let moving = pre.mouse_report.x != 0 || pre.mouse_report.y != 0 || pre.mouse_report.v != 0
            || pre.mouse_report.h != 0;
        let due = pre.idle_count != 0 && pre.idle_ms_remaining == 0 || moving
            || pre.mouse_updated;
        HidState {
            idle_ms_remaining: spec_idle_after(pre),
            keyboard_updated: if ready && due {
                false
            } else {
                pre.keyboard_updated
            },
            ..pre
        }
    }
}

/// What deciding the keyboard report does: an unconfigured device stands
/// still; otherwise an expired idle period restarts (whether or not the
/// endpoint can take a report), and the report goes out — clearing the
/// dirty flag — exactly when it is due and the endpoint is ready.
pub open spec fn spec_send_keyboard_effect(
    pre: HidState,
    post: HidState,
    configured: bool,
    ready: bool,
    r: Option<UsbKeyboardReportData>,
) -> bool {
    if !configured {
        post == pre && r is None
    } else {
        let due = pre.idle_count != 0 && pre.idle_ms_remaining == 0 || pre.keyboard_updated;
        let sent = ready && due;
        &&& post == spec_keyboard_send_post(pre, configured, ready)
        &&& if sent {
            &&& r is Some
            &&& r->0.modifier == pre.keyboard_report.modifier
            &&& r->0.reserved == pre.keyboard_report.reserved
            &&& r->0.key_code@ == pre.keyboard_report.key_code@
        } else {
            r is None
        }
    }
}

/// What deciding the mouse report does: due while any motion component is
/// pending, the report changed, or the idle period expired; sending clears
/// the keyboard dirty flag — an oddity the reporter has always had and
/// that its callers rely on staying put.
pub open spec fn spec_send_mouse_effect(
    pre: HidState,
    post: HidState,
    configured: bool,
    ready: bool,
    r: Option<UsbMouseReportData>,
) -> bool {
    if !configured {
        post == pre && r is None
    } else {
        let moving = pre.mouse_report.x != 0 || pre.mouse_report.y != 0 || pre.mouse_report.v != 0
            || pre.mouse_report.h != 0;
        let due = pre.idle_count != 0 && pre.idle_ms_remaining == 0 || moving
            || pre.mouse_updated;
        let sent = ready && due;
        &&& post == spec_mouse_send_post(pre, configured, ready)
        &&& r == if sent {
            Some(pre.mouse_report)
        } else {
            None::<UsbMouseReportData>
        }
    }
}

/// What one HID tick does: the keyboard report decision, then the mouse
/// report decision on the resulting state, in that order.
pub open spec fn spec_hid_task_effect(
    pre: HidState,
    post: HidState,
    configured: bool,
    kb_ready: bool,
    mouse_ready: bool,
    kb_r: Option<UsbKeyboardReportData>,
    mouse_r: Option<UsbMouseReportData>,
) -> bool {
    let mid = spec_keyboard_send_post(pre, configured, kb_ready);
    &&& spec_send_keyboard_effect(pre, mid, configured, kb_ready, kb_r)
    &&& spec_send_mouse_effect(mid, post, configured, mouse_ready, mouse_r)
}

/// The HID reporting state: the pending reports, their dirty flags, and
/// the host-controlled idle bookkeeping.
pub struct HidState {
    /// Report mode the host asked for: true for normal HID reporting,
    /// false for the boot protocol.
    pub using_report_protocol: bool,
    /// Idle period set by the host, in its scaled representation.
    pub idle_count: u16,
    /// Milliseconds remaining in the current idle period.
    pub idle_ms_remaining: u16,
    pub keyboard_report: UsbKeyboardReportData,
    pub mouse_report: UsbMouseReportData,
    pub keyboard_updated: bool,
    pub mouse_updated: bool,
}

impl HidState {
    /// The reports stay well-formed.
    pub open spec fn wf(&self) -> bool {
        self.keyboard_report.wf()
    }

    /// The reporting state right after enumeration.
    pub fn new() -> (r: HidState)
        ensures
            r.wf(),
            r.using_report_protocol,
            r.idle_count == 0,
            r.idle_ms_remaining == 0,
            !r.keyboard_updated,
            !r.mouse_updated,
            forall|i: int| 0 <= i < MAX_KEYS ==> r.keyboard_report.key_code@[i] == 0u8,
    {
        HidState {
            using_report_protocol: true,
            idle_count: 0,
            idle_ms_remaining: 0,
            keyboard_report: UsbKeyboardReportData::new(),
            mouse_report: UsbMouseReportData::new(),
            keyboard_updated: false,
            mouse_updated: false,
        }
    }

    /// One USB start-of-frame: a millisecond of the idle period elapses.
    pub fn start_of_frame(&mut self)
        ensures
            *final(self) == (HidState {
                idle_ms_remaining: if old(self).idle_ms_remaining >= 1 {
                    (old(self).idle_ms_remaining - 1) as u16
                } else {
                    0u16
                },
                ..*old(self)
            }),
    {
        self.idle_ms_remaining = self.idle_ms_remaining.saturating_sub(1);
    }

    /// Adds a keycode to the keyboard report.
    ///
    /// A code already present stays put; otherwise the code lands in the
    /// last free slot, if one exists, and the report is marked dirty.
    pub fn add_code(&mut self, code: u8)
        requires
            old(self).wf(),
        ensures
            final(self).wf(),
            keycode_op_frame(*old(self), *final(self)),
            add_code_effect(
                old(self).keyboard_report.key_code@,
                code,
                old(self).keyboard_updated,
                final(self).keyboard_report.key_code@,
                final(self).keyboard_updated,
            ),
    {
        let ghost s = self.keyboard_report.key_code@;
        let mut empty: u8 = MAX_KEYS;
        let mut i: u8 = 0;
        while i < MAX_KEYS
            invariant
                self == old(self),
                s == self.keyboard_report.key_code@,
                self.wf(),
                i <= MAX_KEYS,
                forall|j: int| 0 <= j < i ==> s[j] != code,
                empty == MAX_KEYS || (empty < i && s[empty as int] == 0 && (forall|j: int|
                    empty < j < i ==> s[j] != 0)),
                empty == MAX_KEYS ==> forall|j: int| 0 <= j < i ==> s[j] != 0,
            decreases MAX_KEYS - i,
        {
            if self.keyboard_report.key_code[i as usize] == code {
                return ;
            } else if self.keyboard_report.key_code[i as usize] == 0 {
                empty = i;
            }
            i = i + 1;
        }
        if empty != MAX_KEYS {
            self.keyboard_report.key_code.set(empty as usize, code);
            self.keyboard_updated = true;
        }
    }

    /// Removes a keycode from the keyboard report: the first slot holding
    /// it is cleared and the report marked dirty; an absent code is a
    /// no-op.
    pub fn remove_code(&mut self, code: u8)
        requires
            old(self).wf(),
        ensures
            final(self).wf(),
            keycode_op_frame(*old(self), *final(self)),
            remove_code_effect(
                old(self).keyboard_report.key_code@,
                code,
                old(self).keyboard_updated,
                final(self).keyboard_report.key_code@,
                final(self).keyboard_updated,
            ),
    {
        let ghost s = self.keyboard_report.key_code@;
        let mut i: u8 = 0;
        while i < MAX_KEYS
            invariant
                self == old(self),
                s == self.keyboard_report.key_code@,
                self.wf(),
                i <= MAX_KEYS,
                forall|j: int| 0 <= j < i ==> s[j] != code,
            decreases MAX_KEYS - i,
        {
            if self.keyboard_report.key_code[i as usize] == code {
                self.keyboard_report.key_code.set(i as usize, 0);
                self.keyboard_updated = true;
                return ;
            }
            i = i + 1;
        }
    }

    /// Toggles a keycode: a present code is cleared from its first slot,
    /// an absent one lands in the last free slot, if any.
    pub fn toggle_code(&mut self, code: u8)
        requires
            old(self).wf(),
        ensures
            final(self).wf(),
            keycode_op_frame(*old(self), *final(self)),
            has_code(old(self).keyboard_report.key_code@, code) ==> remove_code_effect(
                old(self).keyboard_report.key_code@,
                code,
                old(self).keyboard_updated,
                final(self).keyboard_report.key_code@,
                final(self).keyboard_updated,
            ),
            !has_code(old(self).keyboard_report.key_code@, code) ==> add_code_effect(
                old(self).keyboard_report.key_code@,
                code,
                old(self).keyboard_updated,
                final(self).keyboard_report.key_code@,
                final(self).keyboard_updated,
            ),
    {
        let ghost s = self.keyboard_report.key_code@;
        let mut empty: u8 = MAX_KEYS;
        let mut i: u8 = 0;
        while i < MAX_KEYS
            invariant
                self == old(self),
                s == self.keyboard_report.key_code@,
                self.wf(),
                i <= MAX_KEYS,
                forall|j: int| 0 <= j < i ==> s[j] != code,
                empty == MAX_KEYS || (empty < i && s[empty as int] == 0 && (forall|j: int|
                    empty < j < i ==> s[j] != 0)),
                empty == MAX_KEYS ==> forall|j: int| 0 <= j < i ==> s[j] != 0,
            decreases MAX_KEYS - i,
        {
            if self.keyboard_report.key_code[i as usize] == code {
                self.keyboard_report.key_code.set(i as usize, 0);
                self.keyboard_updated = true;
                return ;
            } else if self.keyboard_report.key_code[i as usize] == 0 {
                empty = i;
            }
            i = i + 1;
        }
        if empty != MAX_KEYS {
            self.keyboard_report.key_code.set(empty as usize, code);
            self.keyboard_updated = true;
        }
    }

    /// Whether a report is due: either the idle period just expired (and
    /// restarts), or the report changed since it was last sent.
    fn report_due(&mut self, updated: bool) -> (due: bool)
        ensures
            due == (old(self).idle_count != 0 && old(self).idle_ms_remaining == 0 || updated),
            *final(self) == (HidState {
                idle_ms_remaining: if old(self).idle_count != 0 && old(self).idle_ms_remaining
                    == 0 {
                    old(self).idle_count
                } else {
                    old(self).idle_ms_remaining
                },
                ..*old(self)
            }),
    {
        if self.idle_count != 0 && self.idle_ms_remaining == 0 {
            self.idle_ms_remaining = self.idle_count;
            true
        } else {
            updated
        }
    }

    /// Decides whether to hand the keyboard report to the endpoint this
    /// tick; returns the report to send, if one is due and the endpoint
    /// can take it.
    pub fn send_next_keyboard_report(
        &mut self,
        device_configured: bool,
        endpoint_ready: bool,
    ) -> (r: Option<UsbKeyboardReportData>)
        requires
            old(self).wf(),
        ensures
            final(self).wf(),
            spec_send_keyboard_effect(
                *old(self),
                *final(self),
                device_configured,
                endpoint_ready,
                r,
            ),
    {
        if !device_configured {
            return None;
        }
        let due = self.report_due(self.keyboard_updated);
        if endpoint_ready && due {
            self.keyboard_updated = false;
            Some(self.keyboard_report.duplicate())
        } else {
            None
        }
    }

    /// Decides whether to hand the mouse report to the endpoint this tick.
    ///
    /// A mouse report is due while any motion component is pending, the
    /// report changed, or the idle period expired. Sending it clears the
    /// keyboard dirty flag, an oddity the HID reporter has always had and
    /// that its callers rely on staying put.
    pub fn send_next_mouse_report(
        &mut self,
        device_configured: bool,
        endpoint_ready: bool,
    ) -> (r: Option<UsbMouseReportData>)
        requires
            old(self).wf(),
        ensures
            final(self).wf(),
            spec_send_mouse_effect(*old(self), *final(self), device_configured, endpoint_ready, r),
    {
        if !device_configured {
            return None;
        }
        let moving = self.mouse_report.x != 0 || self.mouse_report.y != 0 || self.mouse_report.v
            != 0 || self.mouse_report.h != 0;
        let due = self.report_due(moving || self.mouse_updated);
        if endpoint_ready && due {
            self.keyboard_updated = false;
            Some(self.mouse_report)
        } else {
            None
        }
    }

    /// One HID tick: decides both reports.
    pub fn hid_task(&mut self, device_configured: bool, kb_endpoint_ready: bool,
        mouse_endpoint_ready: bool) -> (r: (
        Option<UsbKeyboardReportData>,
        Option<UsbMouseReportData>,
    ))
        requires
            old(self).wf(),
        ensures
            final(self).wf(),
            spec_hid_task_effect(
                *old(self),
                *final(self),
                device_configured,
                kb_endpoint_ready,
                mouse_endpoint_ready,
                r.0,
                r.1,
            ),
            final(self).keyboard_report.key_code@ == old(self).keyboard_report.key_code@,
            r.0 is Some ==> r.0->0.key_code@ == old(self).keyboard_report.key_code@,
            !device_configured ==> *final(self) == *old(self) && r.0 is None && r.1 is None,
    {
        let kb = self.send_next_keyboard_report(device_configured, kb_endpoint_ready);
        let ghost mid = *self;
        let mouse = self.send_next_mouse_report(device_configured, mouse_endpoint_ready);
        proof {
            assert(spec_send_keyboard_effect(
                *old(self),
                mid,
                device_configured,
                kb_endpoint_ready,
                kb,
            ));
        }
        (kb, mouse)
    }
}

} // verus!
