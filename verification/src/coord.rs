//! Geographic coordinates: the error raised for values out of range.
use vstd::prelude::*;

verus! {

/// Error raised when a geographic coordinate lies outside its valid range.
#[derive(Debug)]
pub struct CoordError {
    pub msg: String,
}

} // verus!
