//! Page-protected storage: a guarded, page-aligned byte region of dryoc whose
//! page permissions are switched between no-access, read-only and read-write.

use vstd::prelude::*;
use dryoc::protected::traits::{Locked, NoAccess, ReadOnly, ReadWrite, Unlocked};
use dryoc::protected::{HeapBytes, Lockable, ProtectNoAccess, ProtectReadOnly, ProtectReadWrite, Protected, Unlock};
use dryoc::types::{Bytes as ByteBuffer, MutBytes, ResizableBytes};

verus! {

#[verifier::external_type_specification]
#[verifier::external_body]
pub struct ExHeapBytes(HeapBytes);

/// A region of dryoc protected memory in its locked, read-write state. The
/// region is kept inside a struct of this crate because dryoc tracks the
/// protection in the type's generic parameters.
#[verifier::external_body]
pub struct PinnedRegion {
    region: Protected<HeapBytes, ReadWrite, Locked>,
}

/// A region of dryoc protected memory whose pages are readable and writable.
#[verifier::external_body]
pub struct WritableRegion {
    region: Protected<HeapBytes, ReadWrite, Unlocked>,
}

/// A region of dryoc protected memory whose pages are read-only.
#[verifier::external_body]
pub struct ReadableRegion {
    region: Protected<HeapBytes, ReadOnly, Unlocked>,
}

/// A region of dryoc protected memory whose pages admit no access at all.
#[verifier::external_body]
pub struct SealedRegion {
    region: Protected<HeapBytes, NoAccess, Unlocked>,
}

/// What a page-aligned buffer of dryoc holds.
pub uninterp spec fn heap_bytes(h: HeapBytes) -> Seq<u8>;

/// What a locked read-write region holds.
pub uninterp spec fn pinned_bytes(p: PinnedRegion) -> Seq<u8>;

/// What a read-write region holds.
pub uninterp spec fn writable_bytes(p: WritableRegion) -> Seq<u8>;

/// What a read-only region holds.
pub uninterp spec fn readable_bytes(p: ReadableRegion) -> Seq<u8>;

/// What a no-access region holds.
pub uninterp spec fn sealed_bytes(p: SealedRegion) -> Seq<u8>;

/// `HeapBytes::default`: an empty buffer, which owns no allocation yet.
#[verifier::external_body]
fn empty_heap() -> (h: HeapBytes)
    ensures
        heap_bytes(h) == Seq::<u8>::empty(),
{
    HeapBytes::default()
}

/// `Lockable::mlock` on an empty `HeapBytes`: wraps it as a dryoc protected
/// region. dryoc's `mlock` of an empty region makes no system call and
/// cannot fail, so the `expect` never fires.
#[verifier::external_body]
fn pin(h: HeapBytes) -> (p: PinnedRegion)
    requires
        heap_bytes(h).len() == 0,
    ensures
        pinned_bytes(p) == heap_bytes(h),
{
    PinnedRegion { region: h.mlock().expect("unable to lock protected memory") }
}

/// `Unlock::munlock` on an empty region: hands it on in the unlocked
/// read-write state. dryoc's `munlock` of an empty region makes no system
/// call and cannot fail, so the `expect` never fires.
#[verifier::external_body]
fn unpin(p: PinnedRegion) -> (q: WritableRegion)
    requires
        pinned_bytes(p).len() == 0,
    ensures
        writable_bytes(q) == pinned_bytes(p),
{
    WritableRegion { region: p.region.munlock().expect("unable to unlock protected memory") }
}

/// `ResizableBytes::resize(len, 0)` on an unlocked read-write region: the
/// bytes are moved into a fresh page-aligned buffer of `len` bytes between
/// two no-access guard pages, the old ones kept up to `len` and new ones
/// zero; the old buffer is wiped and freed. Nothing is locked. dryoc panics
/// when the operating system refuses the allocation.
#[verifier::external_body]
fn resize_writable(p: &mut WritableRegion, len: usize)
    requires
        len <= isize::MAX,
    ensures
        writable_bytes(*final(p)) == (if len <= writable_bytes(*old(p)).len() {
            writable_bytes(*old(p)).take(len as int)
        } else {
            writable_bytes(*old(p)) + Seq::new(
                (len - writable_bytes(*old(p)).len()) as nat,
                |i: int| 0u8,
            )
        }),
{
    p.region.resize(len, 0)
}

/// `ProtectReadOnly::mprotect_readonly` from read-write: the pages become
/// read-only, bytes unchanged. Panics on a failed `mprotect`.
#[verifier::external_body]
fn readable_from_writable(p: WritableRegion) -> (q: ReadableRegion)
    ensures
        readable_bytes(q) == writable_bytes(p),
{
    ReadableRegion {
        region: p.region.mprotect_readonly().expect("Error setting memory protection to ReadOnly"),
    }
}

/// `ProtectReadWrite::mprotect_readwrite` from read-only: the pages become
/// readable and writable, bytes unchanged. Panics on a failed `mprotect`.
#[verifier::external_body]
fn writable_from_readable(p: ReadableRegion) -> (q: WritableRegion)
    ensures
        writable_bytes(q) == readable_bytes(p),
{
    WritableRegion {
        region: p.region.mprotect_readwrite().expect("Error setting memory protection to ReadWrite"),
    }
}

/// `ProtectNoAccess::mprotect_noaccess` from read-write: the pages become
/// no-access, bytes unchanged. Panics on a failed `mprotect`.
#[verifier::external_body]
fn seal_writable(p: WritableRegion) -> (q: SealedRegion)
    ensures
        sealed_bytes(q) == writable_bytes(p),
{
    SealedRegion {
        region: p.region.mprotect_noaccess().expect("Error setting memory protection to NoAccess"),
    }
}

/// `ProtectNoAccess::mprotect_noaccess` from read-only: the pages become
/// no-access, bytes unchanged. Panics on a failed `mprotect`.
#[verifier::external_body]
fn seal_readable(p: ReadableRegion) -> (q: SealedRegion)
    ensures
        sealed_bytes(q) == readable_bytes(p),
{
    SealedRegion {
        region: p.region.mprotect_noaccess().expect("Error setting memory protection to NoAccess"),
    }
}

/// `ProtectReadOnly::mprotect_readonly` from no-access: the pages become
/// readable, bytes unchanged. Panics on a failed `mprotect`.
#[verifier::external_body]
fn open_readable(p: SealedRegion) -> (q: ReadableRegion)
    ensures
        readable_bytes(q) == sealed_bytes(p),
{
    ReadableRegion {
        region: p.region.mprotect_readonly().expect("Error setting memory protection to ReadOnly"),
    }
}

/// `ProtectReadWrite::mprotect_readwrite` from no-access: the pages become
/// readable and writable, bytes unchanged. Panics on a failed `mprotect`.
#[verifier::external_body]
fn open_writable(p: SealedRegion) -> (q: WritableRegion)
    ensures
        writable_bytes(q) == sealed_bytes(p),
{
    WritableRegion {
        region: p.region.mprotect_readwrite().expect("Error setting memory protection to ReadWrite"),
    }
}

/// `dryoc::types::Bytes::as_slice` on a read-only region: its bytes.
#[verifier::external_body]
fn view_readable(p: &ReadableRegion) -> (s: &[u8])
    ensures
        s@ == readable_bytes(*p),
{
    ByteBuffer::as_slice(&p.region)
}

/// `dryoc::types::Bytes::as_slice` on a read-write region: its bytes.
#[verifier::external_body]
fn view_writable(p: &WritableRegion) -> (s: &[u8])
    ensures
        s@ == writable_bytes(*p),
{
    ByteBuffer::as_slice(&p.region)
}

/// `MutBytes::as_mut_slice` on a read-write region: its bytes, lent for
/// writing; what is written through the slice is what the region then holds.
#[verifier::external_body]
fn edit_writable(p: &mut WritableRegion) -> (s: &mut [u8])
    ensures
        s@ == writable_bytes(*old(p)),
        writable_bytes(*final(p)) == final(s)@,
{
    MutBytes::as_mut_slice(&mut p.region)
}

/// A page protection level.
#[derive(Clone, Copy, Debug, PartialEq, Eq, Structural)]
pub enum Prot {
    NoAccess,
    ReadOnly,
    ReadWrite,
}

/// The protected region in one of its three page states.
enum Region {
    Sealed(SealedRegion),
    Readable(ReadableRegion),
    Writable(WritableRegion),
}

/// A guarded region of memory together with its current page protection.
pub struct Pages {
    region: Option<Region>,
}

impl Pages {
    /// The region is present (it is only ever absent in the middle of a
    /// protection change).
    pub closed spec fn wf(&self) -> bool {
        self.region is Some
    }

    /// The bytes the region holds.
    pub closed spec fn bytes(&self) -> Seq<u8> {
        match self.region {
            Some(Region::Sealed(r)) => sealed_bytes(r),
            Some(Region::Readable(r)) => readable_bytes(r),
            Some(Region::Writable(r)) => writable_bytes(r),
            None => Seq::empty(),
        }
    }

    /// The protection currently applied to the region's pages.
    pub closed spec fn prot(&self) -> Prot {
        match self.region {
            Some(Region::Sealed(_)) => Prot::NoAccess,
            Some(Region::Readable(_)) => Prot::ReadOnly,
            Some(Region::Writable(_)) => Prot::ReadWrite,
            None => Prot::NoAccess,
        }
    }

    /// The protection currently applied to the pages.
    pub fn protection(&self) -> (p: Prot)
        ensures
            p == self.prot(),
    {
        match &self.region {
            Some(Region::Sealed(_)) => Prot::NoAccess,
            Some(Region::Readable(_)) => Prot::ReadOnly,
            Some(Region::Writable(_)) => Prot::ReadWrite,
            None => Prot::NoAccess,
        }
    }

    /// A fresh read-write region of `len` zero bytes.
    pub fn zeroed(len: usize) -> (p: Self)
        requires
            len <= isize::MAX,
        ensures
            p.wf(),
            p.prot() == Prot::ReadWrite,
            p.bytes() == Seq::new(len as nat, |i: int| 0u8),
    {
        let mut writable = unpin(pin(empty_heap()));
        resize_writable(&mut writable, len);
        assert(writable_bytes(writable) =~= Seq::new(len as nat, |i: int| 0u8));
        Pages { region: Some(Region::Writable(writable)) }
    }

    /// Switches the pages to `prot`.
    pub fn protect(&mut self, prot: Prot)
        requires
            old(self).wf(),
        ensures
            final(self).wf(),
            final(self).prot() == prot,
            final(self).bytes() == old(self).bytes(),
    {
        let region = self.region.take();
        let next = match region {
            Some(Region::Sealed(r)) => match prot {
                Prot::NoAccess => Region::Sealed(r),
                Prot::ReadOnly => Region::Readable(open_readable(r)),
                Prot::ReadWrite => Region::Writable(open_writable(r)),
            },
            Some(Region::Readable(r)) => match prot {
                Prot::NoAccess => Region::Sealed(seal_readable(r)),
                Prot::ReadOnly => Region::Readable(r),
                Prot::ReadWrite => Region::Writable(writable_from_readable(r)),
            },
            Some(Region::Writable(r)) => match prot {
                Prot::NoAccess => Region::Sealed(seal_writable(r)),
                Prot::ReadOnly => Region::Readable(readable_from_writable(r)),
                Prot::ReadWrite => Region::Writable(r),
            },
            None => unreached(),
        };
        self.region = Some(next);
    }

    /// The region's bytes, for reading.
    pub fn read(&self) -> (s: &[u8])
        requires
            self.wf(),
            self.prot() != Prot::NoAccess,
        ensures
            s@ == self.bytes(),
    {
        match &self.region {
            Some(Region::Readable(r)) => view_readable(r),
            Some(Region::Writable(r)) => view_writable(r),
            _ => unreached(),
        }
    }

    /// The region's bytes, lent for writing.
    pub fn write(&mut self) -> (s: &mut [u8])
        requires
            old(self).wf(),
            old(self).prot() == Prot::ReadWrite,
        ensures
            s@ == old(self).bytes(),
            final(self).wf(),
            final(self).prot() == Prot::ReadWrite,
            final(self).bytes() == final(s)@,
    {
        match &mut self.region {
            Some(Region::Writable(r)) => edit_writable(r),
            _ => unreached(),
        }
    }
}

} // verus!
