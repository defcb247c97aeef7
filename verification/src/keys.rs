//! The keys that the application tells apart.

use vstd::prelude::*;

verus! {

/// A key as the terminal reports it, as far as the application tells keys
/// apart.
#[derive(Clone, Copy, Debug, PartialEq, Eq)]
pub enum Key {
    Char(char),
    Esc,
    Left,
    Up,
    Down,
    Other,
}

} // verus!
