//! Power-on configuration steps.
use vstd::prelude::*;

use crate::pins::{Register, RegisterFile, WDCE, WDE, WDTCSR};

verus! {

/// Disables the watchdog timer: the timed change-enable sequence followed
/// by clearing the control register.
///
/// Runs inside an atomic section in the firmware: the change-enable window
/// is only a few cycles wide, so no interrupt may run between the writes.
pub fn disable_watchdog(regs: &mut RegisterFile)
    requires
        old(regs).wf(),
    ensures
        final(regs).wf(),
        final(regs)@ == old(regs)@.update(WDTCSR as int, 0u8),
{
    Register(WDTCSR).write(regs, WDCE | WDE);
    Register(WDTCSR).write(regs, 0);
    proof {
        assert(regs@ =~= old(regs)@.update(WDTCSR as int, 0u8));
    }
}

} // verus!
