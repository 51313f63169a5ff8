//! Plain values that can live in guarded memory.

pub mod const_eq;
pub mod rand;

use vstd::prelude::*;
use zeroize::Zeroize;

verus! {

use vstd::layout::size_of;

/// A plain value type made of bytes only: every byte pattern of its size is
/// one value, so it can be stored in and read back from raw memory.
pub trait Bytes: Sized + Copy {
    /// The value that the given bytes (in memory order) stand for.
    spec fn from_byte_seq(bytes: Seq<u8>) -> Self;

    /// A value takes at least one byte, and no more than fit in `isize`.
    proof fn lemma_size_bounds()
        ensures
            0 < size_of::<Self>() <= isize::MAX,
    ;

    /// The number of bytes one value takes.
    fn size() -> (n: usize)
        ensures
            n as nat == size_of::<Self>(),
    {
        core::mem::size_of::<Self>()
    }

    /// The bytes of a value, in memory order.
    spec fn to_byte_seq(self) -> Seq<u8>;

    /// A value's bytes are as many as its size.
    proof fn lemma_to_byte_seq_len(v: Self)
        ensures
            v.to_byte_seq().len() == size_of::<Self>(),
    ;

    /// Reading a value back from its bytes gives the value.
    proof fn lemma_round_trip(v: Self)
        ensures
            Self::from_byte_seq(v.to_byte_seq()) == v,
    ;

    /// Writes a value out as its bytes.
    fn to_bytes(&self) -> (bytes: Vec<u8>)
        ensures
            bytes@ == self.to_byte_seq(),
            bytes@.len() == size_of::<Self>(),
    ;

    /// Reads a value back from its bytes.
    fn from_bytes(bytes: &[u8]) -> (v: Self)
        requires
            bytes@.len() == size_of::<Self>(),
        ensures
            v == Self::from_byte_seq(bytes@),
    ;
}

impl Bytes for u8 {
    open spec fn from_byte_seq(bytes: Seq<u8>) -> u8 {
        bytes[0]
    }

    open spec fn to_byte_seq(self) -> Seq<u8> {
        seq![self]
    }

    proof fn lemma_round_trip(v: u8) {
    }

    proof fn lemma_to_byte_seq_len(v: u8) {
        broadcast use vstd::layout::layout_of_primitives;

    }

    fn to_bytes(&self) -> (bytes: Vec<u8>) {
        proof {
            broadcast use vstd::layout::layout_of_primitives;
        }
        let bytes: Vec<u8> = vec![*self];
        assert(bytes@ =~= seq![*self]);
        bytes
    }

    proof fn lemma_size_bounds() {
        broadcast use vstd::layout::layout_of_primitives;
    }

    fn from_bytes(bytes: &[u8]) -> (v: u8) {
        proof {
            broadcast use vstd::layout::layout_of_primitives;
        }
        bytes[0]
    }
}

impl Bytes for u16 {
    open spec fn from_byte_seq(bytes: Seq<u8>) -> u16 {
        vstd::bytes::spec_u16_from_le_bytes(bytes)
    }

    open spec fn to_byte_seq(self) -> Seq<u8> {
        vstd::bytes::spec_u16_to_le_bytes(self)
    }

    proof fn lemma_round_trip(v: u16) {
        vstd::bytes::lemma_auto_spec_u16_to_from_le_bytes();
        assert(vstd::bytes::spec_u16_to_le_bytes(v).len() == 2);
    }

    proof fn lemma_to_byte_seq_len(v: u16) {
        broadcast use vstd::layout::layout_of_primitives;

        vstd::bytes::lemma_auto_spec_u16_to_from_le_bytes();
    }

    fn to_bytes(&self) -> (bytes: Vec<u8>) {
        proof {
            broadcast use vstd::layout::layout_of_primitives;
        }
        vstd::bytes::u16_to_le_bytes(*self)
    }

    proof fn lemma_size_bounds() {
        broadcast use vstd::layout::layout_of_primitives;
    }

    fn from_bytes(bytes: &[u8]) -> (v: u16) {
        proof {
            broadcast use vstd::layout::layout_of_primitives;
        }
        vstd::bytes::u16_from_le_bytes(bytes)
    }
}

impl Bytes for u32 {
    open spec fn from_byte_seq(bytes: Seq<u8>) -> u32 {
        vstd::bytes::spec_u32_from_le_bytes(bytes)
    }

    open spec fn to_byte_seq(self) -> Seq<u8> {
        vstd::bytes::spec_u32_to_le_bytes(self)
    }

    proof fn lemma_round_trip(v: u32) {
        vstd::bytes::lemma_auto_spec_u32_to_from_le_bytes();
        assert(vstd::bytes::spec_u32_to_le_bytes(v).len() == 4);
    }

    proof fn lemma_to_byte_seq_len(v: u32) {
        broadcast use vstd::layout::layout_of_primitives;

        vstd::bytes::lemma_auto_spec_u32_to_from_le_bytes();
    }

    fn to_bytes(&self) -> (bytes: Vec<u8>) {
        proof {
            broadcast use vstd::layout::layout_of_primitives;
        }
        vstd::bytes::u32_to_le_bytes(*self)
    }

    proof fn lemma_size_bounds() {
        broadcast use vstd::layout::layout_of_primitives;
    }

    fn from_bytes(bytes: &[u8]) -> (v: u32) {
        proof {
            broadcast use vstd::layout::layout_of_primitives;
        }
        vstd::bytes::u32_from_le_bytes(bytes)
    }
}

impl Bytes for u64 {
    open spec fn from_byte_seq(bytes: Seq<u8>) -> u64 {
        vstd::bytes::spec_u64_from_le_bytes(bytes)
    }

    open spec fn to_byte_seq(self) -> Seq<u8> {
        vstd::bytes::spec_u64_to_le_bytes(self)
    }

    proof fn lemma_round_trip(v: u64) {
        vstd::bytes::lemma_auto_spec_u64_to_from_le_bytes();
        assert(vstd::bytes::spec_u64_to_le_bytes(v).len() == 8);
    }

    proof fn lemma_to_byte_seq_len(v: u64) {
        broadcast use vstd::layout::layout_of_primitives;

        vstd::bytes::lemma_auto_spec_u64_to_from_le_bytes();
    }

    fn to_bytes(&self) -> (bytes: Vec<u8>) {
        proof {
            broadcast use vstd::layout::layout_of_primitives;
        }
        vstd::bytes::u64_to_le_bytes(*self)
    }

    proof fn lemma_size_bounds() {
        broadcast use vstd::layout::layout_of_primitives;
    }

    fn from_bytes(bytes: &[u8]) -> (v: u64) {
        proof {
            broadcast use vstd::layout::layout_of_primitives;
        }
        vstd::bytes::u64_from_le_bytes(bytes)
    }
}

/// The value whose bytes are all zero.
pub open spec fn zero_value<T: Bytes>() -> T {
    T::from_byte_seq(Seq::new(size_of::<T>(), |i: int| 0u8))
}

/// The value whose bytes are all zero.
pub fn zero_value_of<T: Bytes>() -> (v: T)
    ensures
        v == zero_value::<T>(),
{
    proof {
        T::lemma_size_bounds();
    }
    let zeros: Vec<u8> = vec![0u8; T::size()];
    assert(zeros@ =~= Seq::new(size_of::<T>(), |i: int| 0u8));
    T::from_bytes(zeros.as_slice())
}

/// The bytes of a run of values, one after another.
pub open spec fn bytes_of<T: Bytes>(values: Seq<T>) -> Seq<u8>
    decreases values.len(),
{
    if values.len() == 0 {
        Seq::empty()
    } else {
        bytes_of(values.drop_last()) + values.last().to_byte_seq()
    }
}

/// Two values have the same bytes exactly when they are the same value.
pub proof fn lemma_bytes_determine_value<T: Bytes>(x: T, y: T)
    ensures
        (x.to_byte_seq() == y.to_byte_seq()) == (x == y),
{
    T::lemma_round_trip(x);
    T::lemma_round_trip(y);
}

/// The `i`-th value of a run sits, as its bytes, at `i * size` in the run's
/// bytes.
pub proof fn lemma_bytes_of_value<T: Bytes>(values: Seq<T>, i: int)
    requires
        0 <= i < values.len(),
    ensures
        i * size_of::<T>() + size_of::<T>() <= bytes_of(values).len(),
        bytes_of(values).subrange(i * size_of::<T>(), i * size_of::<T>() + size_of::<T>())
            == values[i].to_byte_seq(),
    decreases values.len(),
{
    let k = size_of::<T>() as int;
    let n = values.len() as int;
    lemma_bytes_of_len(values);
    lemma_bytes_of_len(values.drop_last());
    T::lemma_to_byte_seq_len(values.last());
    T::lemma_to_byte_seq_len(values[i]);
    vstd::arithmetic::mul::lemma_mul_is_distributive_add_other_way(k, n - 1, 1);
    if i == n - 1 {
        assert(bytes_of(values).subrange(i * k, i * k + k) =~= values.last().to_byte_seq());
    } else {
        lemma_bytes_of_value(values.drop_last(), i);
        vstd::arithmetic::mul::lemma_mul_inequality(i + 1, n - 1, k);
        vstd::arithmetic::mul::lemma_mul_is_distributive_add_other_way(k, i, 1);
        assert(bytes_of(values).subrange(i * k, i * k + k) =~= bytes_of(values.drop_last()).subrange(
            i * k,
            i * k + k,
        ));
    }
}

/// Runs of values have the same bytes exactly when they hold the same values.
pub proof fn lemma_bytes_of_injective<T: Bytes>(a: Seq<T>, b: Seq<T>)
    ensures
        (bytes_of(a) == bytes_of(b)) == (a == b),
{
    if bytes_of(a) == bytes_of(b) {
        T::lemma_size_bounds();
        lemma_bytes_of_len(a);
        lemma_bytes_of_len(b);
        if a.len() != b.len() {
            if a.len() < b.len() {
                vstd::arithmetic::mul::lemma_mul_strict_inequality(
                    a.len() as int,
                    b.len() as int,
                    size_of::<T>() as int,
                );
            } else {
                vstd::arithmetic::mul::lemma_mul_strict_inequality(
                    b.len() as int,
                    a.len() as int,
                    size_of::<T>() as int,
                );
            }
        }
        assert forall|i: int| 0 <= i < a.len() implies a[i] == b[i] by {
            lemma_bytes_of_value(a, i);
            lemma_bytes_of_value(b, i);
            lemma_bytes_determine_value(a[i], b[i]);
        }
        assert(a =~= b);
    }
}

/// A run of values takes as many bytes as its length times their size.
pub proof fn lemma_bytes_of_len<T: Bytes>(values: Seq<T>)
    ensures
        bytes_of(values).len() == values.len() * size_of::<T>(),
    decreases values.len(),
{
    if values.len() > 0 {
        lemma_bytes_of_len(values.drop_last());
        T::lemma_to_byte_seq_len(values.last());
        vstd::arithmetic::mul::lemma_mul_is_distributive_add_other_way(
            size_of::<T>() as int,
            (values.len() - 1) as int,
            1,
        );
    }
}

/// Writes a run of values out as their bytes, one after another.
pub fn encode<T: Bytes>(values: &[T]) -> (bytes: Vec<u8>)
    ensures
        bytes@ == bytes_of(values@),
{
    let mut bytes: Vec<u8> = Vec::new();
    let mut i: usize = 0;
    while i < values.len()
        invariant
            i <= values@.len(),
            bytes@ == bytes_of(values@.take(i as int)),
        decreases values@.len() - i,
    {
        let mut next = values[i].to_bytes();
        bytes.append(&mut next);
        assert(values@.take(i + 1).drop_last() =~= values@.take(i as int));
        i = i + 1;
    }
    assert(values@.take(values@.len() as int) =~= values@);
    bytes
}

/// `<[u8] as zeroize::Zeroize>::zeroize`: sets every byte to zero with
/// volatile writes, so the wipe is not optimised away; the length stays.
#[verifier::external_body]
pub(crate) fn wipe(bytes: &mut [u8])
    ensures
        final(bytes)@ == Seq::new(old(bytes)@.len(), |i: int| 0u8),
{
    bytes.zeroize()
}

} // verus!
