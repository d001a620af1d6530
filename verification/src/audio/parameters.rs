//! Lock-free `f32` parameters shared between the user interface and the
//! audio thread, stored as their bit patterns in an atomic word.

use std::sync::atomic::{AtomicU32, Ordering};
use std::sync::Arc;
use vstd::prelude::*;

verus! {

/// Bit pattern of the `f32` 1.0.
pub const UNIT_BITS: u32 = 0x3F80_0000;

/// A shared `f32` parameter; clones share the same cell.
#[derive(Clone)]
pub struct AtomicF32 {
    inner: Arc<AtomicU32>,
}

impl AtomicF32 {
    /// A new cell holding the `f32` whose bit pattern is `bits`.
    pub fn from_bits(bits: u32) -> (r: Self) {
        Self { inner: Arc::new(AtomicU32::new(bits)) }
    }

    /// Stores the `f32` whose bit pattern is `bits` (from the UI thread).
    pub fn set_bits(&self, bits: u32) {
        self.inner.store(bits, Ordering::Relaxed);
    }

    /// The bit pattern stored last by any thread (from the audio thread);
    /// another thread may store at any time, so nothing is stated of it.
    pub fn get_bits(&self) -> (r: u32) {
        self.inner.load(Ordering::Relaxed)
    }
}

impl Default for AtomicF32 {
    /// Zero.
    fn default() -> (r: Self) {
        Self::from_bits(0)
    }
}

} // verus!
