//! What travels on the outbound queue.
use vstd::prelude::*;

verus! {

/// One item of a generation's output: a piece of text, or the marker that
/// ends the generation. The marker is a variant of its own, so no text the
/// engine produces can be mistaken for it.
pub enum Outbound {
    Fragment(String),
    Terminal,
}

} // verus!
