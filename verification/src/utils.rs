//! Byte helpers: masking with a noise buffer, random buffers and random
//! file names.

use vstd::prelude::*;
use zeroize::Zeroizing;

verus! {

/// The first `n` bytes of `noise` xor-ed with the first `n` bytes of `payload`.
pub open spec fn xor_prefix(noise: Seq<u8>, payload: Seq<u8>, n: nat) -> Seq<u8> {
    Seq::new(n, |i: int| noise[i] ^ payload[i])
}

/// `base` with its first `n` bytes replaced by `noise[i] ^ payload[i]`.
pub open spec fn xor_into(base: Seq<u8>, payload: Seq<u8>, noise: Seq<u8>, n: nat) -> Seq<u8> {
    xor_prefix(noise, payload, n) + base.skip(n as int)
}

/// Masking twice with the same noise gives the bytes back: after
/// `xor_mut(payload, noise, size)` twice, `payload` is what it was.
pub proof fn lemma_xor_mut_twice(payload: Seq<u8>, noise: Seq<u8>, size: nat)
    requires
        size <= payload.len(),
        size <= noise.len(),
    ensures
        ({
            let once = xor_into(payload, payload, noise, size);
            xor_into(once, once, noise, size) == payload
        }),
{
    let once = xor_into(payload, payload, noise, size);
    let twice = xor_into(once, once, noise, size);
    assert forall|i: int| 0 <= i < size implies twice[i] == payload[i] by {
        let p = payload[i];
        let n = noise[i];
        assert(n ^ (n ^ p) == p) by (bit_vector);
    }
    assert(twice =~= payload);
}

/// Masking undoes `xor`: after `xor(data, payload, noise, size)` then
/// `xor_mut(data, noise, size)`, the first `size` bytes of `data` are those
/// of `payload` and the rest are as `data` was.
pub proof fn lemma_xor_then_unmask(data: Seq<u8>, payload: Seq<u8>, noise: Seq<u8>, size: nat)
    requires
        size <= data.len(),
        size <= payload.len(),
        size <= noise.len(),
    ensures
        ({
            let masked = xor_into(data, payload, noise, size);
            xor_into(masked, masked, noise, size) == payload.take(size as int) + data.skip(
                size as int,
            )
        }),
{
    let masked = xor_into(data, payload, noise, size);
    let unmasked = xor_into(masked, masked, noise, size);
    assert forall|i: int| 0 <= i < size implies unmasked[i] == payload[i] by {
        let p = payload[i];
        let n = noise[i];
        assert(n ^ (n ^ p) == p) by (bit_vector);
    }
    assert(unmasked =~= payload.take(size as int) + data.skip(size as int));
}

/// Writes `noise[i] ^ payload[i]` into `data[i]` for the first `size` bytes.
pub fn xor(data: &mut [u8], payload: &[u8], noise: &[u8], size: usize)
    requires
        size <= old(data)@.len(),
        size <= payload@.len(),
        size <= noise@.len(),
    ensures
        final(data)@ == xor_into(old(data)@, payload@, noise@, size as nat),
{
    let mut i: usize = 0;
    while i < size
        invariant
            i <= size,
            size <= data@.len(),
            size <= payload@.len(),
            size <= noise@.len(),
            data@.len() == old(data)@.len(),
            forall|j: int| 0 <= j < i ==> #[trigger] data@[j] == noise@[j] ^ payload@[j],
            forall|j: int| i <= j < data@.len() ==> #[trigger] data@[j] == old(data)@[j],
        decreases size - i,
    {
        data[i] = noise[i] ^ payload[i];
        i = i + 1;
    }
    assert(data@ =~= xor_into(old(data)@, payload@, noise@, size as nat));
}

/// Xors the first `size` bytes of `payload` in place with `noise`.
pub fn xor_mut(payload: &mut [u8], noise: &[u8], size: usize)
    requires
        size <= old(payload)@.len(),
        size <= noise@.len(),
    ensures
        final(payload)@ == xor_into(old(payload)@, old(payload)@, noise@, size as nat),
{
    let mut i: usize = 0;
    while i < size
        invariant
            i <= size,
            size <= payload@.len(),
            size <= noise@.len(),
            payload@.len() == old(payload)@.len(),
            forall|j: int| 0 <= j < i ==> #[trigger] payload@[j] == noise@[j] ^ old(payload)@[j],
            forall|j: int| i <= j < payload@.len() ==> #[trigger] payload@[j] == old(payload)@[j],
        decreases size - i,
    {
        payload[i] = payload[i] ^ noise[i];
        proof {
            let a = old(payload)@[i as int];
            let b = noise@[i as int];
            assert(a ^ b == b ^ a) by (bit_vector);
        }
        i = i + 1;
    }
    assert(payload@ =~= xor_into(old(payload)@, old(payload)@, noise@, size as nat));
}

/// A byte vector that is wiped when it is dropped: zeroize's `Zeroizing`
/// around a `Vec<u8>`, kept in a struct of this crate.
#[verifier::external_body]
pub struct WipedBytes {
    bytes: Zeroizing<Vec<u8>>,
}

/// What a `WipedBytes` holds.
pub uninterp spec fn wiped_bytes_view(w: WipedBytes) -> Seq<u8>;

impl WipedBytes {
    /// `Zeroizing::new`: takes the vector over unchanged.
    #[verifier::external_body]
    fn new(bytes: Vec<u8>) -> (w: Self)
        ensures
            wiped_bytes_view(w) == bytes@,
    {
        WipedBytes { bytes: Zeroizing::new(bytes) }
    }

    /// `Deref` of `Zeroizing` to the vector, then `Vec::as_slice`: the bytes
    /// held.
    #[verifier::external_body]
    fn deref_bytes(&self) -> (s: &[u8])
        ensures
            s@ == wiped_bytes_view(*self),
    {
        self.bytes.as_slice()
    }

    /// The bytes held.
    pub fn as_slice(&self) -> (s: &[u8])
        ensures
            s@ == wiped_bytes_view(*self),
    {
        self.deref_bytes()
    }
}

/// `dryoc::rng::randombytes_buf`: a vector of `len` bytes from the operating
/// system's random number generator. dryoc panics when the generator fails.
/// What the bytes are is chance.
#[verifier::external_body]
fn random_bytes(len: usize) -> (v: Vec<u8>)
    ensures
        v@.len() == len,
{
    dryoc::rng::randombytes_buf(len)
}

/// `String::push`: appends one character.
#[verifier::external_body]
pub(crate) fn push_char(s: &mut String, c: char)
    ensures
        final(s)@ == old(s)@.push(c),
{
    s.push(c)
}

/// The decimal digit character for `d < 10`.
pub open spec fn digit_char(d: nat) -> char {
    (('0' as int) + d) as char
}

/// The decimal digits of `n`, most significant first, without leading zeros.
pub open spec fn decimal(n: nat) -> Seq<char>
    decreases n,
{
    if n < 10 {
        seq![digit_char(n)]
    } else {
        decimal(n / 10).push(digit_char(n % 10))
    }
}

/// Appends the decimal digits of `n` to `s`.
pub fn push_decimal(s: &mut String, n: usize)
    ensures
        final(s)@ == old(s)@ + decimal(n as nat),
    decreases n,
{
    if n >= 10 {
        push_decimal(s, n / 10);
    }
    let d: u8 = (n % 10) as u8;
    push_char(s, ('0' as u8 + d) as char);
    assert(final(s)@ =~= old(s)@ + decimal(n as nat));
}

/// A wiped-on-drop buffer of `size` random bytes.
pub fn random_vec(size: usize) -> (v: WipedBytes)
    ensures
        wiped_bytes_view(v).len() == size,
{
    let mut bytes: Vec<u8> = vec![0u8; size];
    crate::types::rand::fill_random(bytes.as_mut_slice());
    WipedBytes::new(bytes)
}

/// The number of characters file names are drawn from.
pub const ALPHANUMERIC_LEN: u8 = 62;

/// The `i`-th character of `a..z`, then `A..Z`, then `0..9`.
pub open spec fn alphanumeric(i: int) -> char {
    if i < 26 {
        (('a' as int) + i) as char
    } else if i < 52 {
        (('A' as int) + (i - 26)) as char
    } else {
        (('0' as int) + (i - 52)) as char
    }
}

/// The file-name character a byte stands for.
pub open spec fn name_char(b: u8) -> char {
    alphanumeric((b % ALPHANUMERIC_LEN) as int)
}

/// An ASCII letter or digit.
pub open spec fn is_ascii_alphanumeric(c: char) -> bool {
    ||| 'a' <= c <= 'z'
    ||| 'A' <= c <= 'Z'
    ||| '0' <= c <= '9'
}

/// The file name that the bytes stand for: each byte picks one character.
pub open spec fn name_from(bytes: Seq<u8>) -> Seq<char> {
    Seq::new(bytes.len(), |i: int| name_char(bytes[i]))
}

/// The file-name character a byte stands for.
pub fn name_char_of(b: u8) -> (c: char)
    ensures
        c == name_char(b),
{
    let i: u8 = b % ALPHANUMERIC_LEN;
    if i < 26 {
        ('a' as u8 + i) as char
    } else if i < 52 {
        ('A' as u8 + (i - 26)) as char
    } else {
        ('0' as u8 + (i - 52)) as char
    }
}

/// The file name that `bytes` stand for.
pub fn fname_from_bytes(bytes: &[u8]) -> (name: String)
    ensures
        name@ == name_from(bytes@),
{
    let mut name = String::new();
    let mut i: usize = 0;
    while i < bytes.len()
        invariant
            i <= bytes@.len(),
            name@ == name_from(bytes@.take(i as int)),
        decreases bytes@.len() - i,
    {
        let c = name_char_of(bytes[i]);
        push_char(&mut name, c);
        i = i + 1;
        assert(name@ =~= name_from(bytes@.take(i as int)));
    }
    assert(bytes@.take(bytes@.len() as int) =~= bytes@);
    name
}

/// A random file name of `size` ASCII letters and digits.
pub fn random_fname(size: usize) -> (name: String)
    ensures
        name@.len() == size,
        forall|i: int| 0 <= i < size ==> is_ascii_alphanumeric(#[trigger] name@[i]),
{
    let random_bytes = random_bytes(size);
    let name = fname_from_bytes(random_bytes.as_slice());
    proof {
        lemma_name_alphanumeric(random_bytes@);
    }
    name
}

/// Every character of a file name made from bytes is an ASCII letter or digit.
pub proof fn lemma_name_alphanumeric(bytes: Seq<u8>)
    ensures
        forall|i: int| 0 <= i < bytes.len() ==> is_ascii_alphanumeric(#[trigger] name_from(bytes)[i]),
{
}

} // verus!
