//! Comparison in constant time.

use vstd::prelude::*;
use subtle::ConstantTimeEq;
use crate::types::{bytes_of, encode, lemma_bytes_determine_value, lemma_bytes_of_injective, Bytes};

verus! {

/// `<[u8] as subtle::ConstantTimeEq>::ct_eq`, turned into a `bool` by
/// subtle's `From<Choice> for bool`: true exactly when both slices have the
/// same length and the same bytes. subtle returns early on a length
/// mismatch and otherwise compares every byte without branching on them.
#[verifier::external_body]
pub(crate) fn ct_eq_bytes(lhs: &[u8], rhs: &[u8]) -> (r: bool)
    ensures
        r == (lhs@ == rhs@),
{
    lhs.ct_eq(rhs).into()
}

/// Values compared byte by byte in constant time.
pub trait ConstEq {
    /// The bytes a value is compared by.
    spec fn const_eq_bytes(&self) -> Seq<u8>;

    /// Whether the two values have the same bytes.
    fn const_eq(&self, rhs: &Self) -> (r: bool)
        ensures
            r == (self.const_eq_bytes() == rhs.const_eq_bytes()),
    ;

    /// Values with the same bytes are the same value, so `const_eq` is true
    /// exactly for equal values.
    proof fn lemma_const_eq_bytes_injective(a: &Self, b: &Self)
        ensures
            (a.const_eq_bytes() == b.const_eq_bytes()) == (a == b),
    ;
}

impl ConstEq for [u8] {
    open spec fn const_eq_bytes(&self) -> Seq<u8> {
        self@
    }

    fn const_eq(&self, rhs: &Self) -> (r: bool)
        ensures
            r == (self@ == rhs@),
    {
        ct_eq_bytes(self, rhs)
    }

    proof fn lemma_const_eq_bytes_injective(a: &Self, b: &Self) {
        broadcast use vstd::slice::axiom_slice_ext_equal;

        if a@ == b@ {
            assert(a =~= b);
        }
    }
}

/// Whether two runs of values have the same bytes, compared in constant
/// time.
fn const_eq_values<T: Bytes>(lhs: &[T], rhs: &[T]) -> (r: bool)
    ensures
        r == (bytes_of(lhs@) == bytes_of(rhs@)),
        r == (lhs@ == rhs@),
{
    let a = encode(lhs);
    let b = encode(rhs);
    let r = ct_eq_bytes(a.as_slice(), b.as_slice());
    proof {
        lemma_bytes_of_injective(lhs@, rhs@);
    }
    r
}

impl ConstEq for [u16] {
    open spec fn const_eq_bytes(&self) -> Seq<u8> {
        bytes_of(self@)
    }

    fn const_eq(&self, rhs: &Self) -> (r: bool)
        ensures
            r == (self@ == rhs@),
    {
        const_eq_values(self, rhs)
    }

    proof fn lemma_const_eq_bytes_injective(a: &Self, b: &Self) {
        broadcast use vstd::slice::axiom_slice_ext_equal;

        lemma_bytes_of_injective(a@, b@);
        if a@ == b@ {
            assert(a =~= b);
        }
    }
}

impl ConstEq for [u32] {
    open spec fn const_eq_bytes(&self) -> Seq<u8> {
        bytes_of(self@)
    }

    fn const_eq(&self, rhs: &Self) -> (r: bool)
        ensures
            r == (self@ == rhs@),
    {
        const_eq_values(self, rhs)
    }

    proof fn lemma_const_eq_bytes_injective(a: &Self, b: &Self) {
        broadcast use vstd::slice::axiom_slice_ext_equal;

        lemma_bytes_of_injective(a@, b@);
        if a@ == b@ {
            assert(a =~= b);
        }
    }
}

impl ConstEq for [u64] {
    open spec fn const_eq_bytes(&self) -> Seq<u8> {
        bytes_of(self@)
    }

    fn const_eq(&self, rhs: &Self) -> (r: bool)
        ensures
            r == (self@ == rhs@),
    {
        const_eq_values(self, rhs)
    }

    proof fn lemma_const_eq_bytes_injective(a: &Self, b: &Self) {
        broadcast use vstd::slice::axiom_slice_ext_equal;

        lemma_bytes_of_injective(a@, b@);
        if a@ == b@ {
            assert(a =~= b);
        }
    }
}

/// Whether two values have the same bytes, compared in constant time.
fn const_eq_value<T: Bytes>(lhs: &T, rhs: &T) -> (r: bool)
    ensures
        r == (lhs.to_byte_seq() == rhs.to_byte_seq()),
        r == (*lhs == *rhs),
{
    let a = lhs.to_bytes();
    let b = rhs.to_bytes();
    let r = ct_eq_bytes(a.as_slice(), b.as_slice());
    proof {
        lemma_bytes_determine_value(*lhs, *rhs);
    }
    r
}

impl ConstEq for u8 {
    open spec fn const_eq_bytes(&self) -> Seq<u8> {
        self.to_byte_seq()
    }

    fn const_eq(&self, rhs: &Self) -> (r: bool)
        ensures
            r == (*self == *rhs),
    {
        const_eq_value(self, rhs)
    }

    proof fn lemma_const_eq_bytes_injective(a: &Self, b: &Self) {
        lemma_bytes_determine_value(*a, *b);
    }
}

impl ConstEq for u16 {
    open spec fn const_eq_bytes(&self) -> Seq<u8> {
        self.to_byte_seq()
    }

    fn const_eq(&self, rhs: &Self) -> (r: bool)
        ensures
            r == (*self == *rhs),
    {
        const_eq_value(self, rhs)
    }

    proof fn lemma_const_eq_bytes_injective(a: &Self, b: &Self) {
        lemma_bytes_determine_value(*a, *b);
    }
}

impl ConstEq for u32 {
    open spec fn const_eq_bytes(&self) -> Seq<u8> {
        self.to_byte_seq()
    }

    fn const_eq(&self, rhs: &Self) -> (r: bool)
        ensures
            r == (*self == *rhs),
    {
        const_eq_value(self, rhs)
    }

    proof fn lemma_const_eq_bytes_injective(a: &Self, b: &Self) {
        lemma_bytes_determine_value(*a, *b);
    }
}

impl ConstEq for u64 {
    open spec fn const_eq_bytes(&self) -> Seq<u8> {
        self.to_byte_seq()
    }

    fn const_eq(&self, rhs: &Self) -> (r: bool)
        ensures
            r == (*self == *rhs),
    {
        const_eq_value(self, rhs)
    }

    proof fn lemma_const_eq_bytes_injective(a: &Self, b: &Self) {
        lemma_bytes_determine_value(*a, *b);
    }
}

} // verus!
