//! `Boxed`: a run of plain values kept in guarded pages that are readable
//! only while borrowed. Borrows are counted; the last release seals the pages
//! again.

use vstd::prelude::*;
use core::marker::PhantomData;
use crate::pages::{Pages, Prot};
use crate::types::{bytes_of, encode, lemma_bytes_of_len, lemma_bytes_of_value, wipe, zero_value, zero_value_of, Bytes};
use crate::types::const_eq::ConstEq;
use crate::types::rand::Randomized;
use crate::utils::{decimal, push_decimal};
use vstd::string::StringExecFns;

verus! {

use vstd::layout::size_of;

/// The most borrows that may be outstanding at once.
pub const MAX_REFS: u8 = 255;

/// A protected piece of memory holding `len` values of `T`.
pub struct Boxed<T: Bytes> {
    /// The guarded pages; their protection is the box's protection level.
    pages: Pages,
    /// The number of values of `T` held.
    len: usize,
    /// The number of outstanding borrows.
    refs: u8,
    marker: PhantomData<T>,
}

impl<T: Bytes> Boxed<T> {
    /// The number of values held.
    pub closed spec fn spec_len(&self) -> nat {
        self.len as nat
    }

    /// The number of outstanding borrows.
    pub closed spec fn spec_refs(&self) -> nat {
        self.refs as nat
    }

    /// The protection the pages currently have.
    pub closed spec fn spec_prot(&self) -> Prot {
        self.pages.prot()
    }

    /// Every byte of the guarded region, including any left past the values
    /// after a wipe.
    pub closed spec fn region(&self) -> Seq<u8> {
        self.pages.bytes()
    }

    /// The pages are in place.
    pub closed spec fn pages_present(&self) -> bool {
        self.pages.wf()
    }

    /// The size in bytes of the values held.
    pub open spec fn byte_len(&self) -> nat {
        self.spec_len() * size_of::<T>()
    }

    /// The bytes of the values held.
    pub open spec fn contents(&self) -> Seq<u8> {
        self.region().take(self.byte_len() as int)
    }

    /// The `i`-th value held, read back from its bytes.
    pub open spec fn value_at(&self, i: int) -> T {
        T::from_byte_seq(
            self.contents().subrange(i * size_of::<T>(), i * size_of::<T>() + size_of::<T>()),
        )
    }

    /// The box's invariant: the values fit in the region, the region fits in
    /// `isize`, the pages are sealed exactly when nothing is borrowed, and a
    /// writable box is borrowed exactly once.
    pub open spec fn wf(&self) -> bool {
        &&& self.pages_present()
        &&& self.byte_len() <= self.region().len()
        &&& self.region().len() <= isize::MAX
        &&& (self.spec_refs() == 0 <==> self.spec_prot() == Prot::NoAccess)
        &&& (self.spec_prot() == Prot::ReadWrite ==> self.spec_refs() == 1)
    }

    /// Sealed, with nothing borrowed.
    pub open spec fn is_sealed(&self) -> bool {
        self.spec_refs() == 0 && self.spec_prot() == Prot::NoAccess
    }

    /// `self` and `other` hold the same values in same-sized regions.
    pub open spec fn same_data(&self, other: &Self) -> bool {
        &&& self.spec_len() == other.spec_len()
        &&& self.region() == other.region()
    }

    /// Whether a borrow with protection `prot` may be taken: the first borrow
    /// may be of either kind, later ones only read-only ones on a read-only
    /// box, up to `MAX_REFS` of them.
    pub open spec fn can_retain(&self, prot: Prot) -> bool {
        if self.spec_refs() == 0 {
            prot != Prot::NoAccess
        } else {
            &&& self.spec_prot() == Prot::ReadOnly
            &&& prot == Prot::ReadOnly
            &&& self.spec_refs() < MAX_REFS
        }
    }

    /// `after` is `before` with one more borrow of kind `prot`.
    pub open spec fn retained(after: &Self, before: &Self, prot: Prot) -> bool {
        &&& after.wf()
        &&& after.same_data(before)
        &&& after.spec_refs() == before.spec_refs() + 1
        &&& after.spec_prot() == (if before.spec_refs() == 0 {
            prot
        } else {
            before.spec_prot()
        })
    }

    /// `after` is `before` with one borrow fewer; the last one seals it.
    pub open spec fn released(after: &Self, before: &Self) -> bool {
        &&& after.wf()
        &&& after.same_data(before)
        &&& after.spec_refs() == before.spec_refs() - 1
        &&& after.spec_prot() == (if before.spec_refs() == 1 {
            Prot::NoAccess
        } else {
            before.spec_prot()
        })
    }

    /// `after` is `before` with nothing changed that a contract speaks of.
    pub open spec fn unchanged(after: &Self, before: &Self) -> bool {
        &&& after.wf()
        &&& after.same_data(before)
        &&& after.spec_refs() == before.spec_refs()
        &&& after.spec_prot() == before.spec_prot()
    }

    /// Both boxes hold the same values.
    pub open spec fn same_values(&self, other: &Self) -> bool {
        self.contents() == other.contents()
    }

    /// A writable box, borrowed once, ready for its initial values.
    pub open spec fn is_writing(&self) -> bool {
        &&& self.wf()
        &&& self.spec_refs() == 1
        &&& self.spec_prot() == Prot::ReadWrite
    }

    /// A new writable box of `len` zero values, borrowed once.
    pub open spec fn is_fresh(&self, len: nat) -> bool {
        &&& self.wf()
        &&& self.spec_len() == len
        &&& self.spec_refs() == 1
        &&& self.spec_prot() == Prot::ReadWrite
        &&& self.region() == Seq::new(len * size_of::<T>(), |i: int| 0u8)
    }

    /// The number of values held.
    pub fn len(&self) -> (n: usize)
        ensures
            n == self.spec_len(),
    {
        self.len
    }

    /// Whether no value is held.
    pub fn is_empty(&self) -> (b: bool)
        ensures
            b == (self.spec_len() == 0),
    {
        self.len == 0
    }

    /// The size in bytes of the values held.
    pub fn size(&self) -> (n: usize)
        requires
            self.wf(),
        ensures
            n == self.byte_len(),
    {
        self.len * T::size()
    }

    /// The number of outstanding borrows.
    pub fn refs(&self) -> (n: u8)
        ensures
            n == self.spec_refs(),
    {
        self.refs
    }

    /// The protection the pages currently have.
    pub fn protection(&self) -> (p: Prot)
        ensures
            p == self.spec_prot(),
    {
        self.pages.protection()
    }

    /// Whether the pages are sealed.
    pub fn is_locked(&self) -> (b: bool)
        ensures
            b == (self.spec_prot() == Prot::NoAccess),
    {
        match self.pages.protection() {
            Prot::NoAccess => true,
            _ => false,
        }
    }

    /// A writable box of `len` zero values, borrowed once.
    fn new_unlocked(len: usize) -> (b: Self)
        requires
            len * size_of::<T>() <= isize::MAX,
        ensures
            b.is_fresh(len as nat),
    {
        proof {
            T::lemma_size_bounds();
        }
        let size = len * T::size();
        let pages = Pages::zeroed(size);
        Boxed { pages, len, refs: 1, marker: PhantomData }
    }

    /// Takes one more borrow of kind `prot`; the first borrow opens the pages.
    fn retain(&mut self, prot: Prot)
        requires
            old(self).wf(),
            old(self).can_retain(prot),
        ensures
            Self::retained(final(self), old(self), prot),
    {
        let refs = self.refs;
        if refs == 0 {
            self.pages.protect(prot);
        }
        self.refs = refs + 1;
    }

    /// Gives back one borrow; the last one seals the pages.
    fn release(&mut self)
        requires
            old(self).wf(),
            old(self).spec_refs() != 0,
        ensures
            Self::released(final(self), old(self)),
    {
        let refs = self.refs - 1;
        self.refs = refs;
        if refs == 0 {
            self.pages.protect(Prot::NoAccess);
        }
    }

    /// Borrows the values for reading.
    pub fn unlock(&mut self) -> (r: &Self)
        requires
            old(self).wf(),
            old(self).can_retain(Prot::ReadOnly),
        ensures
            Self::retained(final(self), old(self), Prot::ReadOnly),
            *r == *final(self),
    {
        self.retain(Prot::ReadOnly);
        self
    }

    /// Borrows the values for writing; only a sealed box can be.
    pub fn unlock_mut(&mut self) -> (r: &mut Self)
        requires
            old(self).wf(),
            old(self).can_retain(Prot::ReadWrite),
        ensures
            Self::retained(&*r, old(self), Prot::ReadWrite),
            *final(self) == *final(r),
    {
        self.retain(Prot::ReadWrite);
        self
    }

    /// Gives back a borrow.
    pub fn lock(&mut self)
        requires
            old(self).wf(),
            old(self).spec_refs() != 0,
        ensures
            Self::released(final(self), old(self)),
    {
        self.release()
    }
    /// The bytes of the values held, for reading.
    pub fn as_slice(&self) -> (s: &[u8])
        requires
            self.wf(),
            self.spec_prot() != Prot::NoAccess,
        ensures
            s@ == self.contents(),
    {
        let n = self.len * T::size();
        let bytes = self.pages.read();
        let (head, _tail) = bytes.split_at(n);
        head
    }

    /// The bytes of the values held, lent for writing; what is written
    /// through the slice is what the box then holds.
    pub fn as_mut_slice(&mut self) -> (s: &mut [u8])
        requires
            old(self).wf(),
            old(self).spec_prot() == Prot::ReadWrite,
        ensures
            s@ == old(self).contents(),
            final(self).pages_present(),
            final(s)@.len() == s@.len() ==> final(self).wf(),
            final(self).spec_len() == old(self).spec_len(),
            final(self).spec_refs() == old(self).spec_refs(),
            final(self).spec_prot() == Prot::ReadWrite,
            final(self).region() == final(s)@ + old(self).region().skip(old(self).byte_len() as int),
    {
        let n = self.len * T::size();
        let bytes = self.pages.write();
        let (head, _tail) = bytes.split_at_mut(n);
        head
    }

    /// Every byte of the guarded region, including any past the values (a
    /// wipe leaves the region's size as it was).
    pub fn allocated_bytes(&self) -> (s: &[u8])
        requires
            self.wf(),
            self.spec_prot() != Prot::NoAccess,
        ensures
            s@ == self.region(),
    {
        self.pages.read()
    }

    /// The first value held.
    pub fn as_ref(&self) -> (v: T)
        requires
            self.wf(),
            self.spec_len() != 0,
            self.spec_prot() != Prot::NoAccess,
        ensures
            v == T::from_byte_seq(self.contents().take(size_of::<T>() as int)),
            v == self.value_at(0),
    {
        let bytes = self.as_slice();
        proof {
            assert(size_of::<T>() <= self.byte_len()) by (nonlinear_arith)
                requires
                    self.spec_len() >= 1,
                    self.byte_len() == self.spec_len() * size_of::<T>(),
            ;
        }
        let (first, _rest) = bytes.split_at(T::size());
        assert(first@ =~= self.contents().subrange(0, size_of::<T>() as int));
        T::from_bytes(first)
    }

    /// The bytes of the first value held, lent for writing.
    pub fn as_mut(&mut self) -> (s: &mut [u8])
        requires
            old(self).wf(),
            old(self).spec_len() != 0,
            old(self).spec_prot() == Prot::ReadWrite,
        ensures
            s@ == old(self).contents().take(size_of::<T>() as int),
            final(self).pages_present(),
            final(s)@.len() == s@.len() ==> final(self).wf(),
            final(self).spec_len() == old(self).spec_len(),
            final(self).spec_refs() == old(self).spec_refs(),
            final(self).spec_prot() == Prot::ReadWrite,
            final(self).region() == final(s)@ + old(self).region().skip(size_of::<T>() as int),
    {
        proof {
            assert(size_of::<T>() <= self.byte_len()) by (nonlinear_arith)
                requires
                    self.spec_len() >= 1,
                    self.byte_len() == self.spec_len() * size_of::<T>(),
            ;
        }
        let n = T::size();
        let bytes = self.pages.write();
        let (head, _tail) = bytes.split_at_mut(n);
        head
    }
    /// A box of `len` values, filled by `init` and then sealed. `init` is
    /// handed a fresh box of zero values, borrowed once for writing, and must
    /// give back a box that is still borrowed; that borrow is then returned.
    pub fn new<F: FnOnce(Self) -> Self>(len: usize, init: F) -> (b: Self)
        requires
            len * size_of::<T>() <= isize::MAX,
            forall|fresh: Self| #[trigger] fresh.is_fresh(len as nat) ==> call_requires(init, (fresh,)),
            forall|fresh: Self, out: Self|
                fresh.is_fresh(len as nat) && #[trigger] call_ensures(init, (fresh,), out)
                    ==> out.wf() && out.spec_refs() != 0,
        ensures
            exists|fresh: Self, out: Self|
                fresh.is_fresh(len as nat) && #[trigger] call_ensures(init, (fresh,), out)
                    && Self::released(&b, &out),
    {
        let boxed = Self::new_unlocked(len);
        let ghost fresh = boxed;
        let mut boxed = init(boxed);
        let ghost out = boxed;
        boxed.lock();
        assert(fresh.is_fresh(len as nat) && call_ensures(init, (fresh,), out) && Self::released(&boxed, &out));
        boxed
    }
    /// Replaces the values of a writable box with random bytes; the bytes
    /// of the region past the values are kept. Which bytes the values get is
    /// chance.
    fn fill_randomly(fresh: Self) -> (out: Self)
        requires
            fresh.is_writing(),
        ensures
            out.is_writing(),
            out.spec_len() == fresh.spec_len(),
            out.contents().len() == fresh.contents().len(),
            out.region().skip(fresh.byte_len() as int) == fresh.region().skip(
                fresh.byte_len() as int,
            ),
            out.region().len() == fresh.region().len(),
    {
        let mut b = fresh;
        b.as_mut_slice().randomize();
        assert(b.region().skip(fresh.byte_len() as int) =~= fresh.region().skip(
            fresh.byte_len() as int,
        ));
        b
    }

    /// Sets the values of a writable box to zero.
    fn fill_zero(fresh: Self) -> (out: Self)
        requires
            fresh.is_writing(),
        ensures
            out.is_writing(),
            out.spec_len() == fresh.spec_len(),
            out.contents() == Seq::new(fresh.byte_len(), |i: int| 0u8),
            fresh.region().len() == fresh.byte_len() ==> out.region() == Seq::new(
                fresh.byte_len(),
                |i: int| 0u8,
            ),
    {
        let mut b = fresh;
        wipe(b.as_mut_slice());
        assert(b.region() =~= Seq::new(fresh.byte_len(), |i: int| 0u8) + fresh.region().skip(
            fresh.byte_len() as int,
        ));
        assert(b.contents() =~= Seq::new(fresh.byte_len(), |i: int| 0u8));
        proof {
            if fresh.region().len() == fresh.byte_len() {
                assert(b.region() =~= Seq::new(fresh.byte_len(), |i: int| 0u8));
            }
        }
        b
    }

    /// A sealed box of `len` values whose bytes are random.
    pub fn random(len: usize) -> (b: Self)
        requires
            len * size_of::<T>() <= isize::MAX,
        ensures
            b.wf(),
            b.is_sealed(),
            b.spec_len() == len,
            b.region().len() == len * size_of::<T>(),
    {
        Self::new(len, Self::fill_randomly)
    }

    /// A sealed box of `len` zero values.
    pub fn zero(len: usize) -> (b: Self)
        requires
            len * size_of::<T>() <= isize::MAX,
        ensures
            b.wf(),
            b.is_sealed(),
            b.spec_len() == len,
            b.region() == Seq::new((len * size_of::<T>()) as nat, |i: int| 0u8),
    {
        Self::new(len, Self::fill_zero)
    }
    /// A box of `len` values (`len` is not zero), filled by `init` and then
    /// sealed; `init` also yields an outcome. On `Ok` the box is returned; on
    /// `Err` the box is dropped, its memory wiped, and the error returned.
    pub fn try_new<R, E, F: FnOnce(Self) -> (Self, Result<R, E>)>(len: usize, init: F) -> (res:
        Result<Self, E>)
        requires
            len != 0,
            len * size_of::<T>() <= isize::MAX,
            forall|fresh: Self| #[trigger] fresh.is_fresh(len as nat) ==> call_requires(init, (fresh,)),
            forall|fresh: Self, out: (Self, Result<R, E>)|
                fresh.is_fresh(len as nat) && #[trigger] call_ensures(init, (fresh,), out)
                    ==> out.0.wf() && out.0.spec_refs() != 0,
        ensures
            exists|fresh: Self, out: (Self, Result<R, E>)|
                {
                    &&& fresh.is_fresh(len as nat)
                    &&& #[trigger] call_ensures(init, (fresh,), out)
                    &&& match res {
                        Ok(b) => out.1 is Ok && Self::released(&b, &out.0),
                        Err(e) => out.1 == Err::<R, E>(e),
                    }
                },
    {
        let boxed = Self::new_unlocked(len);
        let ghost fresh = boxed;
        let (mut boxed, outcome) = init(boxed);
        let ghost out = (boxed, outcome);
        boxed.lock();
        let res = match outcome {
            Ok(_) => Ok(boxed),
            Err(e) => Err(e),
        };
        assert(fresh.is_fresh(len as nat) && call_ensures(init, (fresh,), out));
        res
    }

    /// Wipes the values and empties the box. The memory stays allocated and
    /// sealed; only the box's length drops to zero.
    pub fn zeroize(&mut self)
        requires
            old(self).wf(),
            old(self).spec_refs() == 0,
        ensures
            final(self).wf(),
            final(self).is_sealed(),
            final(self).spec_len() == 0,
            final(self).region() == Seq::new(old(self).byte_len(), |i: int| 0u8) + old(
                self,
            ).region().skip(old(self).byte_len() as int),
    {
        self.retain(Prot::ReadWrite);
        wipe(self.as_mut_slice());
        self.release();
        self.len = 0;
        assert(self.region() =~= Seq::new(old(self).byte_len(), |i: int| 0u8) + old(
            self,
        ).region().skip(old(self).byte_len() as int));
    }

    /// A new sealed box holding the same values; `self` is borrowed for
    /// reading while they are copied and given back afterwards.
    pub fn clone(&mut self) -> (b: Self)
        requires
            old(self).wf(),
            old(self).can_retain(Prot::ReadOnly),
        ensures
            Self::unchanged(final(self), old(self)),
            b.wf(),
            b.is_sealed(),
            b.spec_len() == old(self).spec_len(),
            b.contents() == old(self).contents(),
            b.region().len() == old(self).byte_len(),
    {
        let len = self.len;
        let mut b = Self::new_unlocked(len);
        self.retain(Prot::ReadOnly);
        copy_bytes(b.as_mut_slice(), self.as_slice());
        self.release();
        b.release();
        assert(b.region() =~= b.contents());
        b
    }

    /// Whether both boxes hold the same values, compared in constant time.
    /// Boxes of different lengths are unequal without being touched; boxes of
    /// equal length are both borrowed for reading during the comparison and
    /// given back afterwards.
    pub fn eq(&mut self, other: &mut Self) -> (r: bool)
        requires
            old(self).wf(),
            old(other).wf(),
            old(self).spec_len() == old(other).spec_len() ==> old(self).can_retain(Prot::ReadOnly)
                && old(other).can_retain(Prot::ReadOnly),
        ensures
            r == old(self).same_values(old(other)),
            Self::unchanged(final(self), old(self)),
            Self::unchanged(final(other), old(other)),
    {
        if self.len != other.len {
            proof {
                T::lemma_size_bounds();
                lemma_scaled_distinct(self.spec_len(), other.spec_len(), size_of::<T>());
                assert(old(self).contents().len() != old(other).contents().len());
            }
            return false;
        }
        self.retain(Prot::ReadOnly);
        other.retain(Prot::ReadOnly);
        let ret = self.as_slice().const_eq(other.as_slice());
        self.release();
        other.release();
        ret
    }

    /// A sealed box holding the values of `data`, whose bytes are then
    /// wiped.
    pub fn from_mut_slice(data: &mut [T]) -> (b: Self)
        requires
            old(data)@.len() * size_of::<T>() <= isize::MAX,
        ensures
            b.wf(),
            b.is_sealed(),
            b.spec_len() == old(data)@.len(),
            b.region() == bytes_of(old(data)@),
            forall|i: int| 0 <= i < old(data)@.len() ==> #[trigger] b.value_at(i) == old(data)@[i],
            final(data)@ == Seq::new(old(data)@.len(), |i: int| zero_value::<T>()),
    {
        let mut bytes = encode(data);
        proof {
            lemma_bytes_of_len(old(data)@);
        }
        let len = data.len();
        let mut b = Self::new_unlocked(len);
        copy_bytes(b.as_mut_slice(), bytes.as_slice());
        wipe(bytes.as_mut_slice());
        let zero = zero_value_of::<T>();
        let mut i: usize = 0;
        while i < len
            invariant
                len == data@.len(),
                i <= len,
                forall|j: int| 0 <= j < i ==> #[trigger] data@[j] == zero_value::<T>(),
                zero == zero_value::<T>(),
            decreases len - i,
        {
            data[i] = zero;
            i = i + 1;
        }
        assert(data@ =~= Seq::new(old(data)@.len(), |i: int| zero_value::<T>()));
        b.release();
        assert(b.region() =~= bytes_of(old(data)@));
        proof {
            assert(b.contents() =~= b.region());
            assert forall|i: int| 0 <= i < old(data)@.len() implies #[trigger] b.value_at(i) == old(
                data,
            )@[i] by {
                lemma_bytes_of_value(old(data)@, i);
                T::lemma_round_trip(old(data)@[i]);
            }
        }
        b
    }

    /// A sealed box holding the one value `*data`, whose bytes are then
    /// wiped.
    pub fn from_mut_value(data: &mut T) -> (b: Self)
        ensures
            b.wf(),
            b.is_sealed(),
            b.spec_len() == 1,
            b.region() == old(data).to_byte_seq(),
            b.value_at(0) == *old(data),
            *final(data) == zero_value::<T>(),
    {
        proof {
            T::lemma_size_bounds();
        }
        let mut bytes = data.to_bytes();
        let mut b = Self::new_unlocked(1);
        copy_bytes(b.as_mut_slice(), bytes.as_slice());
        wipe(bytes.as_mut_slice());
        *data = T::from_bytes(bytes.as_slice());
        b.release();
        assert(b.region() =~= old(data).to_byte_seq());
        proof {
            T::lemma_to_byte_seq_len(*old(data));
            T::lemma_round_trip(*old(data));
            assert(b.contents().subrange(0, size_of::<T>() as int) =~= old(data).to_byte_seq());
        }
        b
    }
}

impl<T: Bytes> Boxed<T> {
    /// A description that shows the size and hides the values:
    /// `{ size: N, hidden }`.
    pub fn describe(&self) -> (s: String)
        requires
            self.wf(),
        ensures
            s@ == "{ size: "@ + decimal(self.byte_len()) + ", hidden }"@,
    {
        let mut s = String::from_str("{ size: ");
        push_decimal(&mut s, self.size());
        s.append(", hidden }");
        s
    }
}

impl<T: Bytes> Boxed<T> {
    /// Taking a permitted borrow keeps the box's invariant: at most one
    /// writer, never a writer together with readers, and sealed exactly when
    /// no borrow is outstanding.
    pub proof fn lemma_borrow_keeps_invariant(before: Self, after: Self, prot: Prot)
        requires
            before.wf(),
            before.can_retain(prot),
            Self::retained(&after, &before, prot),
        ensures
            after.wf(),
            after.spec_refs() == 0 <==> after.spec_prot() == Prot::NoAccess,
            after.spec_prot() == Prot::ReadWrite ==> after.spec_refs() == 1,
            after.spec_refs() >= 1,
    {
    }

    /// Giving back a borrow keeps the box's invariant, and the last one seals
    /// the pages.
    pub proof fn lemma_release_keeps_invariant(before: Self, after: Self)
        requires
            before.wf(),
            before.spec_refs() != 0,
            Self::released(&after, &before),
        ensures
            after.wf(),
            after.spec_refs() == 0 <==> after.spec_prot() == Prot::NoAccess,
            after.spec_prot() == Prot::ReadWrite ==> after.spec_refs() == 1,
            before.spec_refs() == 1 ==> after.is_sealed(),
    {
    }

    /// Giving back a borrow undoes taking it: a box unlocked (for reading or
    /// for writing) and then locked again is as it was before.
    pub proof fn lemma_unlock_lock_restores(before: Self, mid: Self, after: Self, prot: Prot)
        requires
            before.wf(),
            before.can_retain(prot),
            Self::retained(&mid, &before, prot),
            Self::released(&after, &mid),
        ensures
            Self::unchanged(&after, &before),
    {
    }

    /// Borrows taken one after another and given back as many times leave
    /// the box as it was: `states[0]` is unlocked for reading `n` times, then
    /// locked `n` times.
    pub proof fn lemma_balanced_borrows(states: Seq<Self>, n: nat)
        requires
            states.len() == 2 * n + 1,
            states[0].wf(),
            forall|i: int|
                0 <= i < n ==> #[trigger] states[i].can_retain(Prot::ReadOnly) && Self::retained(
                    &states[i + 1],
                    &states[i],
                    Prot::ReadOnly,
                ),
            forall|i: int| n <= i < 2 * n ==> Self::released(&states[i + 1], #[trigger] &states[i]),
        ensures
            Self::unchanged(&states[2 * n as int], &states[0]),
    {
        Self::lemma_borrows_descend(states, n, 2 * n);
    }

    /// The state after `i` of the borrows of `lemma_balanced_borrows` were
    /// taken.
    proof fn lemma_borrows_ascend(states: Seq<Self>, n: nat, i: nat)
        requires
            states.len() == 2 * n + 1,
            states[0].wf(),
            forall|j: int|
                0 <= j < n ==> #[trigger] states[j].can_retain(Prot::ReadOnly) && Self::retained(
                    &states[j + 1],
                    &states[j],
                    Prot::ReadOnly,
                ),
            i <= n,
        ensures
            states[i as int].wf(),
            states[i as int].same_data(&states[0]),
            states[i as int].spec_refs() == states[0].spec_refs() + i,
            states[i as int].spec_prot() == (if states[0].spec_refs() == 0 && i > 0 {
                Prot::ReadOnly
            } else {
                states[0].spec_prot()
            }),
        decreases i,
    {
        if i > 0 {
            Self::lemma_borrows_ascend(states, n, (i - 1) as nat);
            assert(states[i - 1].can_retain(Prot::ReadOnly));
        }
    }

    /// The state after all borrows of `lemma_balanced_borrows` were taken and
    /// `i - n` of them given back.
    proof fn lemma_borrows_descend(states: Seq<Self>, n: nat, i: nat)
        requires
            states.len() == 2 * n + 1,
            states[0].wf(),
            forall|j: int|
                0 <= j < n ==> #[trigger] states[j].can_retain(Prot::ReadOnly) && Self::retained(
                    &states[j + 1],
                    &states[j],
                    Prot::ReadOnly,
                ),
            forall|j: int| n <= j < 2 * n ==> Self::released(&states[j + 1], #[trigger] &states[j]),
            n <= i <= 2 * n,
        ensures
            states[i as int].wf(),
            states[i as int].same_data(&states[0]),
            states[i as int].spec_refs() == states[0].spec_refs() + 2 * n - i,
            states[i as int].spec_prot() == (if states[0].spec_refs() == 0 && 0 < i < 2 * n {
                Prot::ReadOnly
            } else {
                states[0].spec_prot()
            }),
        decreases i,
    {
        if i == n {
            Self::lemma_borrows_ascend(states, n, n);
        } else {
            Self::lemma_borrows_descend(states, n, (i - 1) as nat);
            assert(Self::released(&states[i as int], &states[i - 1]));
        }
    }

    /// Comparison is symmetric, and a box holds the same values as itself.
    pub proof fn lemma_same_values_equivalence(a: Self, b: Self)
        ensures
            a.same_values(&a),
            a.same_values(&b) == b.same_values(&a),
    {
    }
}

/// Scaling by a positive factor keeps distinct numbers distinct.
proof fn lemma_scaled_distinct(a: nat, b: nat, k: nat)
    requires
        a != b,
        k > 0,
    ensures
        a * k != b * k,
{
    if a < b {
        vstd::arithmetic::mul::lemma_mul_strict_inequality(a as int, b as int, k as int);
    } else {
        vstd::arithmetic::mul::lemma_mul_strict_inequality(b as int, a as int, k as int);
    }
}

/// Copies `src` into `dst`, which has the same length.
fn copy_bytes(dst: &mut [u8], src: &[u8])
    requires
        old(dst)@.len() == src@.len(),
    ensures
        final(dst)@ == src@,
{
    let n = src.len();
    let mut i: usize = 0;
    while i < n
        invariant
            n == src@.len(),
            dst@.len() == n,
            i <= n,
            forall|j: int| 0 <= j < i ==> #[trigger] dst@[j] == src@[j],
        decreases n - i,
    {
        dst[i] = src[i];
        i = i + 1;
    }
    assert(dst@ =~= src@);
}

} // verus!
