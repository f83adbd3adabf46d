//! Identifier codec: object identifiers are 12 raw bytes, presented
//! externally as 24 hexadecimal characters. Parsing validates the external
//! form exactly; malformed input is reported, never panicked on.

use vstd::prelude::*;
use vstd::bytes::{spec_u64_to_le_bytes, spec_u64_from_le_bytes, lemma_auto_spec_u64_to_from_le_bytes, u64_to_le_bytes};
use vstd::string::StringSliceAdditionalSpecFns;

verus! {

/// Length of an identifier in raw bytes.
pub const OID_BYTE_LEN: usize = 12;

/// Length of an identifier in its external hexadecimal form.
pub const OID_HEX_LEN: usize = 24;

/// A byte is an ASCII hexadecimal digit (either case).
pub open spec fn is_hex_byte(b: u8) -> bool {
    (48 <= b && b <= 57) || (97 <= b && b <= 102) || (65 <= b && b <= 70)
}

/// Numeric value of an ASCII hexadecimal digit.
pub open spec fn hex_val(b: u8) -> int {
    if 48 <= b && b <= 57 {
        b - 48
    } else if 97 <= b && b <= 102 {
        b - 97 + 10
    } else {
        b - 65 + 10
    }
}

/// The external form is valid: exactly 24 bytes, all hexadecimal digits.
pub open spec fn valid_oid_hex(s: Seq<u8>) -> bool {
    s.len() == OID_HEX_LEN && forall|i: int| 0 <= i < s.len() ==> is_hex_byte(#[trigger] s[i])
}

/// The 12 raw bytes denoted by a valid 24-digit hexadecimal form.
pub open spec fn decoded_oid(s: Seq<u8>) -> Seq<u8> {
    Seq::new(OID_BYTE_LEN as nat, |i: int| (16 * hex_val(s[2 * i]) + hex_val(s[2 * i + 1])) as u8)
}

/// An object identifier: 12 raw bytes.
#[derive(Debug)]
pub struct ObjectId {
    bytes: Vec<u8>,
}

impl View for ObjectId {
    type V = Seq<u8>;

    closed spec fn view(&self) -> Seq<u8> {
        self.bytes@
    }
}

impl ObjectId {
    /// A well-formed identifier holds exactly 12 bytes.
    pub open spec fn wf(&self) -> bool {
        self@.len() == OID_BYTE_LEN
    }

    /// Byte-for-byte equality of two identifiers.
    pub fn eq_id(&self, other: &ObjectId) -> (r: bool)
        ensures
            r == (self@ == other@),
    {
        if self.bytes.len() != other.bytes.len() {
            assert(self@.len() != other@.len());
            return false;
        }
        let n = self.bytes.len();
        let mut i: usize = 0;
        while i < n
            invariant
                i <= n,
                n == self@.len(),
                n == other@.len(),
                forall|j: int| 0 <= j < i ==> self@[j] == other@[j],
            decreases n - i,
        {
            if self.bytes[i] != other.bytes[i] {
                assert(self@[i as int] != other@[i as int]);
                return false;
            }
            i += 1;
        }
        proof {
            assert(self@ =~= other@);
        }
        true
    }

    /// A fresh copy with the same bytes.
    pub fn clone_id(&self) -> (r: ObjectId)
        ensures
            r@ == self@,
    {
        let mut v: Vec<u8> = Vec::new();
        let mut i: usize = 0;
        while i < self.bytes.len()
            invariant
                i <= self.bytes@.len(),
                v@ =~= self.bytes@.subrange(0, i as int),
            decreases self.bytes@.len() - i,
        {
            v.push(self.bytes[i]);
            i += 1;
        }
        proof {
            assert(v@ =~= self.bytes@);
        }
        ObjectId { bytes: v }
    }
}

/// The lowercase ASCII hexadecimal digit for a value below 16.
pub open spec fn hex_byte_of(v: int) -> u8 {
    if v < 10 {
        (48 + v) as u8
    } else {
        (87 + v) as u8
    }
}

/// The external hexadecimal form of a byte sequence: two lowercase digits
/// per byte, high nibble first.
pub open spec fn hex_of_bytes(b: Seq<u8>) -> Seq<u8> {
    Seq::new(
        2 * b.len(),
        |i: int|
            if i % 2 == 0 {
                hex_byte_of(b[i / 2] as int / 16)
            } else {
                hex_byte_of(b[i / 2] as int % 16)
            },
    )
}

/// Numeric value of one ASCII hexadecimal digit, or `None` for any other byte.
fn hex_digit(b: u8) -> (r: Option<u8>)
    ensures
        r is Some <==> is_hex_byte(b),
        r is Some ==> r->0 == hex_val(b) && r->0 < 16,
{
    if 48 <= b && b <= 57 {
        Some(b - 48)
    } else if 97 <= b && b <= 102 {
        Some(b - 97 + 10)
    } else if 65 <= b && b <= 70 {
        Some(b - 65 + 10)
    } else {
        None
    }
}

/// Parse an external identifier string. Succeeds exactly on 24 hexadecimal
/// digits (either case) and then yields the 12 decoded bytes; everything
/// else — wrong length, non-hexadecimal characters, the empty string — is
/// rejected.
pub fn parse_object_id(s: &str) -> (r: Option<ObjectId>)
    ensures
        r is Some <==> valid_oid_hex(s.spec_bytes()),
        r is Some ==> r->0@ == decoded_oid(s.spec_bytes()) && r->0.wf(),
{
    let bytes = s.as_bytes();
    if bytes.len() != OID_HEX_LEN {
        return None;
    }
    let mut out: Vec<u8> = Vec::new();
    let mut i: usize = 0;
    while i < OID_BYTE_LEN
        invariant
            i <= OID_BYTE_LEN,
            bytes@ == s.spec_bytes(),
            bytes@.len() == OID_HEX_LEN,
            out@.len() == i,
            forall|j: int| 0 <= j < 2 * i ==> is_hex_byte(#[trigger] bytes@[j]),
            forall|j: int|
                0 <= j < i ==> out@[j] == (16 * hex_val(bytes@[2 * j]) + hex_val(
                    bytes@[2 * j + 1],
                )) as u8,
        decreases OID_BYTE_LEN - i,
    {
        let hi = hex_digit(bytes[2 * i]);
        let lo = hex_digit(bytes[2 * i + 1]);
        match (hi, lo) {
            (Some(h), Some(l)) => {
                out.push(16 * h + l);
            },
            _ => {
                return None;
            },
        }
        i += 1;
    }
    proof {
        assert(out@ =~= decoded_oid(s.spec_bytes()));
    }
    Some(ObjectId { bytes: out })
}

/// The lowercase ASCII hexadecimal digit of a nibble.
fn hex_digit_byte(v: u8) -> (r: u8)
    requires
        v < 16,
    ensures
        r == hex_byte_of(v as int),
{
    if v < 10 {
        48 + v
    } else {
        87 + v
    }
}

/// Relies on `String::from_utf8`: a vector of bytes that is valid UTF-8
/// (here: all ASCII) becomes the string of exactly those bytes.
#[verifier::external_body]
fn ascii_bytes_to_string(b: Vec<u8>) -> (r: String)
    requires
        forall|i: int| 0 <= i < b@.len() ==> b@[i] < 128,
    ensures
        vstd::utf8::encode_utf8(r@) == b@,
{
    match String::from_utf8(b) {
        Ok(s) => s,
        Err(_) => String::new(),
    }
}

impl ObjectId {
    /// The external hexadecimal form of this identifier's bytes.
    pub fn to_hex_bytes(&self) -> (r: Vec<u8>)
        ensures
            r@ == hex_of_bytes(self@),
    {
        let n = self.bytes.len();
        let mut out: Vec<u8> = Vec::new();
        let mut i: usize = 0;
        while i < n
            invariant
                i <= n,
                n == self.bytes@.len(),
                out@.len() == 2 * i,
                forall|j: int| 0 <= j < 2 * i ==> out@[j] == hex_of_bytes(self.bytes@)[j],
            decreases n - i,
        {
            let b = self.bytes[i];
            out.push(hex_digit_byte(b / 16));
            out.push(hex_digit_byte(b % 16));
            i += 1;
        }
        proof {
            assert(out@ =~= hex_of_bytes(self@));
        }
        out
    }

    /// The external hexadecimal string of this identifier: 24 lowercase
    /// digits that `parse_object_id` accepts and decodes back to the same
    /// bytes (see `lemma_hex_round_trip`).
    pub fn to_hex(&self) -> (r: String)
        ensures
            vstd::utf8::encode_utf8(r@) == hex_of_bytes(self@),
    {
        let b = self.to_hex_bytes();
        proof {
            assert forall|i: int| 0 <= i < b@.len() implies b@[i] < 128 by {
                assert(b@[i] == hex_of_bytes(self@)[i]);
            }
        }
        ascii_bytes_to_string(b)
    }
}

/// A hexadecimal digit encodes and decodes losslessly.
proof fn lemma_hex_digit_round_trip(v: int)
    requires
        0 <= v < 16,
    ensures
        is_hex_byte(hex_byte_of(v)),
        hex_val(hex_byte_of(v)) == v,
{
}

/// The hexadecimal form of a 12-byte identifier is a valid external
/// identifier, and parsing it yields the same 12 bytes back.
pub proof fn lemma_hex_round_trip(b: Seq<u8>)
    requires
        b.len() == OID_BYTE_LEN,
    ensures
        valid_oid_hex(hex_of_bytes(b)),
        decoded_oid(hex_of_bytes(b)) == b,
{
    let h = hex_of_bytes(b);
    assert forall|i: int| 0 <= i < h.len() implies is_hex_byte(#[trigger] h[i]) by {
        if i % 2 == 0 {
            lemma_hex_digit_round_trip(b[i / 2] as int / 16);
        } else {
            lemma_hex_digit_round_trip(b[i / 2] as int % 16);
        }
    }
    assert forall|i: int| 0 <= i < OID_BYTE_LEN implies decoded_oid(h)[i] == b[i] by {
        lemma_hex_digit_round_trip(b[i] as int / 16);
        lemma_hex_digit_round_trip(b[i] as int % 16);
        assert(h[2 * i] == hex_byte_of(b[i] as int / 16));
        assert(h[2 * i + 1] == hex_byte_of(b[i] as int % 16));
        vstd::arithmetic::div_mod::lemma_fundamental_div_mod(b[i] as int, 16);
    }
    assert(decoded_oid(h) =~= b);
}

/// The raw bytes of the identifier assigned for the `n`-th insertion: the
/// counter in little-endian order, padded with four zero bytes.
pub open spec fn counter_id_bytes(n: u64) -> Seq<u8> {
    spec_u64_to_le_bytes(n) + seq![0u8, 0u8, 0u8, 0u8]
}

/// Build the identifier assigned for the `n`-th insertion.
pub fn id_from_counter(n: u64) -> (r: ObjectId)
    ensures
        r@ == counter_id_bytes(n),
        r.wf(),
{
    proof {
        lemma_auto_spec_u64_to_from_le_bytes();
    }
    let mut v = u64_to_le_bytes(n);
    v.push(0);
    v.push(0);
    v.push(0);
    v.push(0);
    proof {
        assert(v@ =~= counter_id_bytes(n));
    }
    ObjectId { bytes: v }
}

/// A minted identifier always holds exactly 12 bytes.
pub proof fn lemma_counter_id_len(n: u64)
    ensures
        counter_id_bytes(n).len() == OID_BYTE_LEN,
{
    lemma_auto_spec_u64_to_from_le_bytes();
}

/// Distinct counters yield distinct identifiers.
pub proof fn lemma_counter_id_injective(a: u64, b: u64)
    ensures
        counter_id_bytes(a) == counter_id_bytes(b) ==> a == b,
{
    lemma_auto_spec_u64_to_from_le_bytes();
    if counter_id_bytes(a) == counter_id_bytes(b) {
        assert(spec_u64_to_le_bytes(a) =~= counter_id_bytes(a).subrange(0, 8));
        assert(spec_u64_to_le_bytes(b) =~= counter_id_bytes(b).subrange(0, 8));
        assert(spec_u64_from_le_bytes(spec_u64_to_le_bytes(a)) == a);
        assert(spec_u64_from_le_bytes(spec_u64_to_le_bytes(b)) == b);
    }
}

} // verus!
