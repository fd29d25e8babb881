//! The events produced by the key decoder.
use vstd::prelude::*;

verus! {

/// Keys that the decoder reports.
#[derive(Clone, Copy, Debug, PartialEq, Eq, Structural)]
pub enum Keypress {
    KeyCharacter(char),
    KeyBackspace,
    KeyReturn,
    KeyTab,
    KeyCtrl(char),
    KeyF(isize),
    KeyUp,
    KeyDown,
    KeyLeft,
    KeyRight,
    KeyHome,
    KeyEnd,
    KeyInsert,
    KeyDelete,
    KeyEscape,
}

} // verus!
