//! Messages passed to the terminal view.
use vstd::prelude::*;

verus! {

/// A change to the terminal view: append text, or clear it.
#[derive(Debug, Clone, PartialEq, Eq)]
pub enum TerminalMsg {
    Append(String),
    Clear,
}

} // verus!
