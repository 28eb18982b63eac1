//! KEK identifiers: 128-bit values carried in wire byte order.

use crate::ciphers::Error;
use vstd::prelude::*;

verus! {

/// Number of bytes in a KEK identifier.
pub const KEY_ID_LEN: usize = 16;

/// A 128-bit KEK identifier, held exactly as it appears on the wire: the
/// identifier is prefixed, unchanged, to every key-rotated ciphertext.
#[derive(Debug, Clone)]
pub struct KeyId {
    bytes: Vec<u8>,
}

impl View for KeyId {
    type V = Seq<u8>;

    closed spec fn view(&self) -> Seq<u8> {
        self.bytes@
    }
}

impl KeyId {
    /// The identifier holds exactly 16 bytes.
    pub open spec fn well_formed(&self) -> bool {
        self@.len() == KEY_ID_LEN
    }

    /// Wrap 16 raw bytes as an identifier; any other length is rejected.
    pub fn from_bytes(bytes: Vec<u8>) -> (r: Result<KeyId, Error>)
        ensures
            r matches Ok(k) ==> bytes@.len() == KEY_ID_LEN && k@ == bytes@,
            r is Err ==> bytes@.len() != KEY_ID_LEN,
            r matches Err(e) ==> e is InvalidKeyId,
    {
        if bytes.len() != KEY_ID_LEN {
            Err(Error::InvalidKeyId)
        } else {
            Ok(KeyId { bytes })
        }
    }

    /// Copy 16 raw bytes from a slice into an identifier.
    pub fn from_slice(bytes: &[u8]) -> (r: Result<KeyId, Error>)
        ensures
            r matches Ok(k) ==> bytes@.len() == KEY_ID_LEN && k@ == bytes@,
            r is Err ==> bytes@.len() != KEY_ID_LEN,
            r matches Err(e) ==> e is InvalidKeyId,
    {
        KeyId::from_bytes(crate::copy_bytes(bytes))
    }

    /// Borrow the identifier's bytes.
    pub fn as_slice(&self) -> (r: &[u8])
        ensures
            r@ == self@,
    {
        self.bytes.as_slice()
    }
}

/// The lower-case hexadecimal digit for `d` (0 to 15).
pub open spec fn spec_hex_digit(d: nat) -> char {
    if d == 0 {
        '0'
    } else if d == 1 {
        '1'
    } else if d == 2 {
        '2'
    } else if d == 3 {
        '3'
    } else if d == 4 {
        '4'
    } else if d == 5 {
        '5'
    } else if d == 6 {
        '6'
    } else if d == 7 {
        '7'
    } else if d == 8 {
        '8'
    } else if d == 9 {
        '9'
    } else if d == 10 {
        'a'
    } else if d == 11 {
        'b'
    } else if d == 12 {
        'c'
    } else if d == 13 {
        'd'
    } else if d == 14 {
        'e'
    } else {
        'f'
    }
}

/// The two hexadecimal digits of a byte, high nibble first.
pub open spec fn spec_hex_byte(b: u8) -> Seq<char> {
    seq![spec_hex_digit((b >> 4) as nat), spec_hex_digit((b & 0xf) as nat)]
}

/// The hyphenated display form of an identifier held in wire (little-endian
/// field) order: the first three fields are read back to big-endian before
/// formatting, as a UUID renders them.
pub open spec fn spec_display(w: Seq<u8>) -> Seq<char>
    recommends
        w.len() == 16,
{
    spec_hex_byte(w[3]) + spec_hex_byte(w[2]) + spec_hex_byte(w[1]) + spec_hex_byte(w[0])
        + seq!['-'] + spec_hex_byte(w[5]) + spec_hex_byte(w[4]) + seq!['-'] + spec_hex_byte(w[7])
        + spec_hex_byte(w[6]) + seq!['-'] + spec_hex_byte(w[8]) + spec_hex_byte(w[9]) + seq!['-']
        + spec_hex_byte(w[10]) + spec_hex_byte(w[11]) + spec_hex_byte(w[12]) + spec_hex_byte(w[13])
        + spec_hex_byte(w[14]) + spec_hex_byte(w[15])
}

/// Append one nibble's hexadecimal digit.
fn push_hex_digit(s: &mut String, d: u8)
    requires
        d < 16,
    ensures
        final(s)@ == old(s)@.push(spec_hex_digit(d as nat)),
{
    let c: char = if d == 0 {
        '0'
    } else if d == 1 {
        '1'
    } else if d == 2 {
        '2'
    } else if d == 3 {
        '3'
    } else if d == 4 {
        '4'
    } else if d == 5 {
        '5'
    } else if d == 6 {
        '6'
    } else if d == 7 {
        '7'
    } else if d == 8 {
        '8'
    } else if d == 9 {
        '9'
    } else if d == 10 {
        'a'
    } else if d == 11 {
        'b'
    } else if d == 12 {
        'c'
    } else if d == 13 {
        'd'
    } else if d == 14 {
        'e'
    } else {
        'f'
    };
    crate::string_push(s, c);
}

/// Append both hexadecimal digits of a byte.
fn push_hex_byte(s: &mut String, b: u8)
    ensures
        final(s)@ == old(s)@ + spec_hex_byte(b),
{
    let hi: u8 = b >> 4;
    let lo: u8 = b & 0xf;
    proof {
        assert(b >> 4 < 16 && b & 0xf < 16) by (bit_vector);
    }
    push_hex_digit(s, hi);
    push_hex_digit(s, lo);
    proof {
        assert(final(s)@ =~= old(s)@ + spec_hex_byte(b));
    }
}

impl KeyId {
    /// The hyphenated display form of the identifier, as a UUID renders it.
    pub fn to_uuid_string(&self) -> (r: String)
        requires
            self.well_formed(),
        ensures
            r@ == spec_display(self@),
    {
        let b = self.bytes.as_slice();
        let mut s = String::new();
        push_hex_byte(&mut s, b[3]);
        push_hex_byte(&mut s, b[2]);
        push_hex_byte(&mut s, b[1]);
        push_hex_byte(&mut s, b[0]);
        crate::string_push(&mut s, '-');
        push_hex_byte(&mut s, b[5]);
        push_hex_byte(&mut s, b[4]);
        crate::string_push(&mut s, '-');
        push_hex_byte(&mut s, b[7]);
        push_hex_byte(&mut s, b[6]);
        crate::string_push(&mut s, '-');
        push_hex_byte(&mut s, b[8]);
        push_hex_byte(&mut s, b[9]);
        crate::string_push(&mut s, '-');
        push_hex_byte(&mut s, b[10]);
        push_hex_byte(&mut s, b[11]);
        push_hex_byte(&mut s, b[12]);
        push_hex_byte(&mut s, b[13]);
        push_hex_byte(&mut s, b[14]);
        push_hex_byte(&mut s, b[15]);
        proof {
            assert(s@ =~= spec_display(self@));
        }
        s
    }
}

impl PartialEq for KeyId {
    fn eq(&self, other: &KeyId) -> (r: bool) {
        crate::bytes_eq(self.bytes.as_slice(), other.bytes.as_slice())
    }
}

impl vstd::std_specs::cmp::PartialEqSpecImpl for KeyId {
    open spec fn obeys_eq_spec() -> bool {
        true
    }

    open spec fn eq_spec(&self, other: &KeyId) -> bool {
        self@ == other@
    }
}

} // verus!
