//! Key behaviors: the closed set of things a keymap cell can do.
//!
//! Key behavior is a small closed set of handler kinds; each kind is a
//! plain struct and a keymap cell is the sum of them
//! ([`crate::keymap::KeyAction`]).
use vstd::prelude::*;

verus! {

/// A basic key with a predefined USB keycode: pressing it adds the code to
/// the HID report, releasing it removes the code.
#[derive(Clone, Copy, PartialEq, Eq, Structural, Debug)]
pub struct Key(pub u8);

/// A key that does nothing.
#[derive(Clone, Copy, PartialEq, Eq, Structural, Debug)]
pub struct NoOpKey;

/// A key that moves the current layer up (toward layer 0) by an amount.
#[derive(Clone, Copy, PartialEq, Eq, Structural, Debug)]
pub struct LayerUp(pub u8);

/// A key that moves the current layer down (toward higher indices) by an
/// amount.
#[derive(Clone, Copy, PartialEq, Eq, Structural, Debug)]
pub struct LayerDown(pub u8);

/// A key that transparently re-resolves the same coordinate one layer up
/// instead of acting itself.
#[derive(Clone, Copy, PartialEq, Eq, Structural, Debug)]
pub struct TransparentUp;

} // verus!
