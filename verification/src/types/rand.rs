//! Filling values with random bytes.

use vstd::prelude::*;

verus! {

/// `dryoc::rng::copy_randombytes`: overwrites every byte of `dest` with bytes
/// from the operating system's random number generator; the length stays.
/// dryoc panics when the generator fails. What the bytes are is chance.
#[verifier::external_body]
pub(crate) fn fill_random(dest: &mut [u8])
    ensures
        final(dest)@.len() == old(dest)@.len(),
{
    dryoc::rng::copy_randombytes(dest)
}

/// Values whose bytes can be replaced by random ones.
pub trait Randomized {
    /// How many bytes a value is made of.
    spec fn byte_count(&self) -> nat;

    /// Replaces the value's bytes with random bytes; only the number of bytes
    /// is kept.
    fn randomize(&mut self)
        ensures
            final(self).byte_count() == old(self).byte_count(),
    ;
}

impl Randomized for [u8] {
    open spec fn byte_count(&self) -> nat {
        self@.len()
    }

    fn randomize(&mut self) {
        fill_random(self);
    }
}

/// Replaces every value of the run with one made of random bytes.
fn randomize_values<T: Randomized + Copy>(values: &mut [T])
    ensures
        final(values)@.len() == old(values)@.len(),
{
    let n = values.len();
    let mut i: usize = 0;
    while i < n
        invariant
            n == values@.len(),
            i <= n,
        decreases n - i,
    {
        let mut v = values[i];
        v.randomize();
        values[i] = v;
        i = i + 1;
    }
}

impl Randomized for [u16] {
    open spec fn byte_count(&self) -> nat {
        self@.len() * 2
    }

    fn randomize(&mut self) {
        randomize_values(self);
    }
}

impl Randomized for [u32] {
    open spec fn byte_count(&self) -> nat {
        self@.len() * 4
    }

    fn randomize(&mut self) {
        randomize_values(self);
    }
}

impl Randomized for [u64] {
    open spec fn byte_count(&self) -> nat {
        self@.len() * 8
    }

    fn randomize(&mut self) {
        randomize_values(self);
    }
}

impl Randomized for u8 {
    open spec fn byte_count(&self) -> nat {
        1
    }

    fn randomize(&mut self) {
        let mut buf: Vec<u8> = vec![0u8; 1];
        fill_random(buf.as_mut_slice());
        *self = buf[0];
    }
}

impl Randomized for u16 {
    open spec fn byte_count(&self) -> nat {
        2
    }

    fn randomize(&mut self) {
        let mut buf: Vec<u8> = vec![0u8; 2];
        fill_random(buf.as_mut_slice());
        *self = vstd::bytes::u16_from_le_bytes(buf.as_slice());
    }
}

impl Randomized for u32 {
    open spec fn byte_count(&self) -> nat {
        4
    }

    fn randomize(&mut self) {
        let mut buf: Vec<u8> = vec![0u8; 4];
        fill_random(buf.as_mut_slice());
        *self = vstd::bytes::u32_from_le_bytes(buf.as_slice());
    }
}

impl Randomized for u64 {
    open spec fn byte_count(&self) -> nat {
        8
    }

    fn randomize(&mut self) {
        let mut buf: Vec<u8> = vec![0u8; 8];
        fill_random(buf.as_mut_slice());
        *self = vstd::bytes::u64_from_le_bytes(buf.as_slice());
    }
}

} // verus!
