//! Envelope-encryption engine for a key-management service.
//!
//! The crate provides an authenticated-cipher abstraction ([`ciphers`]), a
//! key-encryption-key (KEK) rotation mechanism that embeds key identity in
//! the ciphertext ([`ciphers::rotatable`]), a key-value storage wrapper that
//! encrypts values at rest ([`storage`]), and a versioned data-encryption-key
//! (DEK) lifecycle manager built on a compare-and-swap capable store
//! ([`encryption`]).

pub mod audit;
pub mod ciphers;
pub mod encryption;
pub mod storage;

use vstd::prelude::*;

verus! {

/// Compare two byte slices for equality of their contents.
pub fn bytes_eq(a: &[u8], b: &[u8]) -> (r: bool)
    ensures
        r == (a@ == b@),
{
    if a.len() != b.len() {
        assert(a@.len() != b@.len());
        return false;
    }
    let n: usize = a.len();
    let mut i: usize = 0;
    while i < n
        invariant
            n == a@.len() == b@.len(),
            0 <= i <= n,
            forall|j: int| 0 <= j < i ==> a@[j] == b@[j],
        decreases n - i,
    {
        if a[i] != b[i] {
            assert(a@[i as int] != b@[i as int]);
            return false;
        }
        i += 1;
    }
    assert(a@ =~= b@);
    true
}

/// Copy the contents of a byte slice into a fresh vector.
pub fn copy_bytes(a: &[u8]) -> (r: Vec<u8>)
    ensures
        r@ == a@,
{
    let r = copy_range(a, 0, a.len());
    assert(a@.subrange(0, a@.len() as int) =~= a@);
    r
}

/// Relies on `alloc::string::String::push`: appends exactly one character.
#[verifier::external_body]
pub(crate) fn string_push(s: &mut String, c: char)
    ensures
        final(s)@ == old(s)@.push(c),
{
    s.push(c);
}

/// Append the contents of a byte slice to a vector.
pub fn append_bytes(out: &mut Vec<u8>, a: &[u8])
    ensures
        final(out)@ == old(out)@ + a@,
{
    let n: usize = a.len();
    let mut i: usize = 0;
    while i < n
        invariant
            n == a@.len(),
            0 <= i <= n,
            out@ == old(out)@ + a@.take(i as int),
        decreases n - i,
    {
        out.push(a[i]);
        assert(out@ =~= old(out)@ + a@.take(i + 1));
        i += 1;
    }
    assert(old(out)@ + a@.take(n as int) =~= old(out)@ + a@);
}

/// Copy the byte range `[from, to)` of a slice into a fresh vector.
pub fn copy_range(a: &[u8], from: usize, to: usize) -> (r: Vec<u8>)
    requires
        from <= to <= a@.len(),
    ensures
        r@ == a@.subrange(from as int, to as int),
{
    let mut out: Vec<u8> = Vec::new();
    let mut i: usize = from;
    while i < to
        invariant
            from <= i <= to <= a@.len(),
            out@ == a@.subrange(from as int, i as int),
        decreases to - i,
    {
        out.push(a[i]);
        assert(out@ =~= a@.subrange(from as int, i + 1));
        i += 1;
    }
    out
}

} // verus!
