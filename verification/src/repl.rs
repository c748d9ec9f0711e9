//! The read-eval-print loop's verdict after each entry: carry on reading,
//! or leave the shell. The loop itself, being terminal I/O, lives with the
//! shell front end.

use vstd::prelude::*;

verus! {

/// What the loop does after processing one entry.
pub enum REPLState {
    Continue,
    Quit,
}

} // verus!
