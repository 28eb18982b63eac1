//! Persisted key records: the versioned DEK record and the latest-version
//! pointer, with their binary codecs.
//!
//! A key record is laid out as the big-endian version (8 bytes), the
//! big-endian algorithm tag (2 bytes), the raw key (length fixed by the
//! algorithm), and the identifier (the rest). A reference record is the
//! big-endian version followed by the identifier. Both codecs are canonical:
//! decoding succeeds exactly on encodings, and yields the encoded record.

use crate::encryption::{Error, KeyAlgorithm};
use vstd::prelude::*;

verus! {

/// The big-endian bytes of a 64-bit integer.
pub open spec fn spec_u64_be(v: u64) -> Seq<u8> {
    seq![
        (v >> 56) as u8,
        (v >> 48) as u8,
        (v >> 40) as u8,
        (v >> 32) as u8,
        (v >> 24) as u8,
        (v >> 16) as u8,
        (v >> 8) as u8,
        v as u8,
    ]
}

/// The 64-bit integer read from 8 big-endian bytes.
pub open spec fn spec_u64_of_be(s: Seq<u8>) -> u64
    recommends
        s.len() == 8,
{
    (((s[0] as u64) << 56) | ((s[1] as u64) << 48) | ((s[2] as u64) << 40) | ((s[3] as u64) << 32)
        | ((s[4] as u64) << 24) | ((s[5] as u64) << 16) | ((s[6] as u64) << 8) | (s[7] as u64))
}

/// Reading back the big-endian bytes of an integer yields the integer.
pub proof fn lemma_u64_be_round_trip(v: u64)
    ensures
        spec_u64_of_be(spec_u64_be(v)) == v,
{
    assert((((((v >> 56) as u8) as u64) << 56) | ((((v >> 48) as u8) as u64) << 48) | ((((v >> 40)
        as u8) as u64) << 40) | ((((v >> 32) as u8) as u64) << 32) | ((((v >> 24) as u8) as u64)
        << 24) | ((((v >> 16) as u8) as u64) << 16) | ((((v >> 8) as u8) as u64) << 8) | ((v as u8)
        as u64)) == v) by (bit_vector);
}

/// Re-encoding the integer read from 8 bytes yields the same bytes.
pub proof fn lemma_u64_be_canonical(s: Seq<u8>)
    requires
        s.len() == 8,
    ensures
        spec_u64_be(spec_u64_of_be(s)) == s,
{
    let b0 = s[0];
    let b1 = s[1];
    let b2 = s[2];
    let b3 = s[3];
    let b4 = s[4];
    let b5 = s[5];
    let b6 = s[6];
    let b7 = s[7];
    let v = (((b0 as u64) << 56) | ((b1 as u64) << 48) | ((b2 as u64) << 40) | ((b3 as u64) << 32)
        | ((b4 as u64) << 24) | ((b5 as u64) << 16) | ((b6 as u64) << 8) | (b7 as u64));
    assert((v >> 56) as u8 == b0 && (v >> 48) as u8 == b1 && (v >> 40) as u8 == b2 && (v >> 32)
        as u8 == b3 && (v >> 24) as u8 == b4 && (v >> 16) as u8 == b5 && (v >> 8) as u8 == b6 && v
        as u8 == b7) by (bit_vector)
        requires
            v == (((b0 as u64) << 56) | ((b1 as u64) << 48) | ((b2 as u64) << 40) | ((b3 as u64)
                << 32) | ((b4 as u64) << 24) | ((b5 as u64) << 16) | ((b6 as u64) << 8) | (
            b7 as u64)),
    ;
    assert(spec_u64_be(spec_u64_of_be(s)) =~= s);
}

/// Append the big-endian bytes of `v`.
fn encode_u64_be(out: &mut Vec<u8>, v: u64)
    ensures
        final(out)@ == old(out)@ + spec_u64_be(v),
{
    out.push((v >> 56) as u8);
    out.push((v >> 48) as u8);
    out.push((v >> 40) as u8);
    out.push((v >> 32) as u8);
    out.push((v >> 24) as u8);
    out.push((v >> 16) as u8);
    out.push((v >> 8) as u8);
    out.push(#[verifier::truncate] (v as u8));
    proof {
        assert(final(out)@ =~= old(out)@ + spec_u64_be(v));
    }
}

/// Read a 64-bit integer from 8 big-endian bytes.
fn u64_of_be(b: &[u8]) -> (r: u64)
    requires
        b@.len() == 8,
    ensures
        r == spec_u64_of_be(b@),
{
    (((b[0] as u64) << 56) | ((b[1] as u64) << 48) | ((b[2] as u64) << 40) | ((b[3] as u64) << 32)
        | ((b[4] as u64) << 24) | ((b[5] as u64) << 16) | ((b[6] as u64) << 8) | (b[7] as u64))
}

/// One immutable, versioned data-encryption-key record.
#[derive(Debug, Clone)]
pub struct EncryptionKey {
    /// The identifier this key belongs to, as UTF-8 bytes.
    pub identifier: Vec<u8>,
    /// The version of this key, starting at 1.
    pub version: u64,
    /// The algorithm the key is for.
    pub algorithm: KeyAlgorithm,
    /// The raw key bytes, of the algorithm's exact key length.
    pub key: Vec<u8>,
}

impl EncryptionKey {
    /// The key has the exact length its algorithm demands.
    pub open spec fn well_formed(&self) -> bool {
        self.key@.len() == self.algorithm.spec_key_len()
    }

    /// The canonical binary layout of the record.
    pub open spec fn spec_encoded(&self) -> Seq<u8> {
        spec_u64_be(self.version) + self.algorithm.spec_id() + self.key@ + self.identifier@
    }

    /// Serialize the record.
    pub fn encode(&self) -> (r: Vec<u8>)
        ensures
            r@ == self.spec_encoded(),
    {
        let mut out: Vec<u8> = Vec::new();
        encode_u64_be(&mut out, self.version);
        match self.algorithm {
            KeyAlgorithm::ChaCha20Poly1305 => {
                out.push(0x00);
                out.push(0x01);
            },
            KeyAlgorithm::AesGcmSiv => {
                out.push(0x00);
                out.push(0x02);
            },
        }
        crate::append_bytes(&mut out, self.key.as_slice());
        crate::append_bytes(&mut out, self.identifier.as_slice());
        proof {
            assert(out@ =~= self.spec_encoded());
        }
        out
    }

    /// Parse a record; fails exactly on inputs that are no well-formed
    /// record's encoding.
    pub fn decode(b: &[u8]) -> (r: Result<EncryptionKey, Error>)
        ensures
            r matches Ok(rec) ==> rec.well_formed() && b@ == rec.spec_encoded(),
            r is Err ==> forall|rec: EncryptionKey|
                rec.well_formed() ==> b@ != #[trigger] rec.spec_encoded(),
            r matches Err(e) ==> (e is UnsupportedAlgorithm || e is InvalidRecord),
    {
        if b.len() < 10 {
            proof {
                assert forall|rec: EncryptionKey| rec.well_formed() implies b@
                    != #[trigger] rec.spec_encoded() by {
                    assert(rec.spec_encoded().len() >= 10);
                }
            }
            return Err(Error::InvalidRecord);
        }
        let vbytes = crate::copy_range(b, 0, 8);
        let version = u64_of_be(vbytes.as_slice());
        let abytes = crate::copy_range(b, 8, 10);
        let algorithm = match KeyAlgorithm::from_id_bytes(abytes.as_slice()) {
            Ok(a) => a,
            Err(e) => {
                proof {
                    assert forall|rec: EncryptionKey| rec.well_formed() implies b@
                        != #[trigger] rec.spec_encoded() by {
                        if b@ == rec.spec_encoded() {
                            assert(abytes@[0] == rec.algorithm.spec_id()[0]);
                            assert(abytes@[1] == rec.algorithm.spec_id()[1]);
                            assert(KeyAlgorithm::spec_alg_of(abytes@) == Some(rec.algorithm));
                        }
                    }
                }
                return Err(e);
            },
        };
        let key_len = algorithm.key_len();
        if b.len() < 10 + key_len {
            proof {
                assert forall|rec: EncryptionKey| rec.well_formed() implies b@
                    != #[trigger] rec.spec_encoded() by {
                    if b@ == rec.spec_encoded() {
                        assert(abytes@[0] == rec.algorithm.spec_id()[0]);
                        assert(abytes@[1] == rec.algorithm.spec_id()[1]);
                        assert(rec.algorithm == algorithm);
                        assert(rec.spec_encoded().len() >= 10 + algorithm.spec_key_len());
                    }
                }
            }
            return Err(Error::InvalidRecord);
        }
        let key = crate::copy_range(b, 10, 10 + key_len);
        let identifier = crate::copy_range(b, 10 + key_len, b.len());
        let rec = EncryptionKey { identifier, version, algorithm, key };
        proof {
            lemma_u64_be_canonical(b@.subrange(0, 8));
            assert(spec_u64_be(rec.version) =~= b@.subrange(0, 8));
            assert(rec.spec_encoded() =~= b@);
        }
        Ok(rec)
    }
}

/// The record encoding is injective on well-formed records: equal encodings
/// mean equal fields.
pub proof fn lemma_key_encoding_injective(a: EncryptionKey, b: EncryptionKey)
    requires
        a.well_formed(),
        b.well_formed(),
        a.spec_encoded() == b.spec_encoded(),
    ensures
        a.version == b.version,
        a.algorithm == b.algorithm,
        a.key@ == b.key@,
        a.identifier@ == b.identifier@,
{
    assert(a.spec_encoded()[8] == a.algorithm.spec_id()[0]);
    assert(a.spec_encoded()[9] == a.algorithm.spec_id()[1]);
    assert(b.spec_encoded()[8] == b.algorithm.spec_id()[0]);
    assert(b.spec_encoded()[9] == b.algorithm.spec_id()[1]);
    assert(a.algorithm == b.algorithm);
    assert(spec_u64_be(a.version) =~= a.spec_encoded().subrange(0, 8));
    assert(spec_u64_be(b.version) =~= b.spec_encoded().subrange(0, 8));
    lemma_u64_be_round_trip(a.version);
    lemma_u64_be_round_trip(b.version);
    let kl = a.algorithm.spec_key_len() as int;
    assert(a.key@ =~= a.spec_encoded().subrange(10, 10 + kl));
    assert(b.key@ =~= b.spec_encoded().subrange(10, 10 + kl));
    assert(a.identifier@ =~= a.spec_encoded().subrange(10 + kl, a.spec_encoded().len() as int));
    assert(b.identifier@ =~= b.spec_encoded().subrange(10 + kl, b.spec_encoded().len() as int));
}

/// The pointer encoding is injective: equal encodings mean equal fields.
pub proof fn lemma_ref_encoding_injective(a: EncryptionKeyRef, b: EncryptionKeyRef)
    requires
        a.spec_encoded() == b.spec_encoded(),
    ensures
        a.version == b.version,
        a.identifier@ == b.identifier@,
{
    assert(spec_u64_be(a.version) =~= a.spec_encoded().subrange(0, 8));
    assert(spec_u64_be(b.version) =~= b.spec_encoded().subrange(0, 8));
    lemma_u64_be_round_trip(a.version);
    lemma_u64_be_round_trip(b.version);
    assert(a.identifier@ =~= a.spec_encoded().subrange(8, a.spec_encoded().len() as int));
    assert(b.identifier@ =~= b.spec_encoded().subrange(8, b.spec_encoded().len() as int));
}

/// The mutable pointer to the latest version of an identifier's key.
#[derive(Debug, Clone)]
pub struct EncryptionKeyRef {
    /// The identifier, as UTF-8 bytes.
    pub identifier: Vec<u8>,
    /// The version the pointer names.
    pub version: u64,
}

impl EncryptionKeyRef {
    /// The canonical binary layout of the pointer.
    pub open spec fn spec_encoded(&self) -> Seq<u8> {
        spec_u64_be(self.version) + self.identifier@
    }

    /// Serialize the pointer.
    pub fn encode(&self) -> (r: Vec<u8>)
        ensures
            r@ == self.spec_encoded(),
    {
        let mut out: Vec<u8> = Vec::new();
        encode_u64_be(&mut out, self.version);
        crate::append_bytes(&mut out, self.identifier.as_slice());
        proof {
            assert(out@ =~= self.spec_encoded());
        }
        out
    }

    /// Parse a pointer; fails exactly on inputs shorter than a version.
    pub fn decode(b: &[u8]) -> (r: Result<EncryptionKeyRef, Error>)
        ensures
            r matches Ok(rf) ==> b@ == rf.spec_encoded(),
            r is Err ==> forall|rf: EncryptionKeyRef| b@ != #[trigger] rf.spec_encoded(),
            r matches Err(e) ==> e is InvalidRecord,
    {
        if b.len() < 8 {
            proof {
                assert forall|rf: EncryptionKeyRef| b@ != #[trigger] rf.spec_encoded() by {
                    assert(rf.spec_encoded().len() >= 8);
                }
            }
            return Err(Error::InvalidRecord);
        }
        let vbytes = crate::copy_range(b, 0, 8);
        let version = u64_of_be(vbytes.as_slice());
        let identifier = crate::copy_range(b, 8, b.len());
        let rf = EncryptionKeyRef { identifier, version };
        proof {
            lemma_u64_be_canonical(b@.subrange(0, 8));
            assert(spec_u64_be(rf.version) =~= b@.subrange(0, 8));
            assert(rf.spec_encoded() =~= b@);
        }
        Ok(rf)
    }
}

} // verus!
