//! The terminal sink's verified half: its one piece of state, whether a
//! frame has been written yet (the second frame onward repositions the
//! cursor first). Measuring the terminal and printing color codes is the
//! shell's business.

use vstd::prelude::*;

verus! {

/// The terminal sink's state.
pub struct ConsoleScreen {
    pub written: bool,
}

impl ConsoleScreen {
    /// A terminal sink that has not written a frame yet.
    pub fn new() -> (r: ConsoleScreen)
        ensures
            !r.written,
    {
        ConsoleScreen { written: false }
    }
}

} // verus!
