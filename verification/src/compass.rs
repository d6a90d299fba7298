//! Compasses give the server a heading to combine with the cameras' view.
use vstd::prelude::*;

verus! {

/// The compass of a server that has none. A service built with it never
/// asks it for a value.
#[derive(Debug, Clone, Copy)]
pub struct NoCompass;

} // verus!
