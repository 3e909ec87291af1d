//! Seals the sample trait against outside implementations.

use crate::samp::{Samp16, Samp24};
use vstd::prelude::*;

verus! {

/// Marker that only the encodings of this crate carry.
pub trait Sealed {

}

impl Sealed for Samp16 {

}

impl Sealed for Samp24 {

}

} // verus!
