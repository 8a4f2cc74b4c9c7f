//! What keeps the dependency traits closed to other crates.

use vstd::prelude::*;

verus! {

/// Only types of this crate implement `Sealed`, so only they can be
/// dependencies.
pub trait Sealed {

}

/// Only this crate can make a `SealToken`, so only it can call the methods
/// that take one.
#[derive(Clone, Copy)]
pub struct SealToken;

} // verus!
