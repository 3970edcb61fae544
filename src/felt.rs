//! Ledger scalars (field elements) held as two 128-bit limbs.
use vstd::prelude::*;
use vstd::utf8::{decode_utf8, valid_utf8};

verus! {

/// A ledger scalar: `high * 2^128 + low`, big-endian when laid out as bytes.
#[derive(Clone, Copy, Debug, PartialEq, Eq, Structural)]
pub struct Felt {
    pub high: u128,
    pub low: u128,
}

pub open spec fn limb_weight() -> int {
    340282366920938463463374607431768211456int
}

impl Felt {
    pub open spec fn value(self) -> int {
        self.high as int * limb_weight() + self.low as int
    }

    pub open spec fn spec_is_zero(self) -> bool {
        self.high == 0 && self.low == 0
    }

    pub fn zero() -> (r: Felt)
        ensures
            r.spec_is_zero(),
            r.value() == 0,
    {
        Felt { high: 0, low: 0 }
    }

    pub fn from_u128(v: u128) -> (r: Felt)
        ensures
            r.high == 0,
            r.low == v,
            r.value() == v,
    {
        Felt { high: 0, low: v }
    }

    /// Whether this is the zero-address sentinel.
    pub fn is_zero(&self) -> (r: bool)
        ensures
            r == self.spec_is_zero(),
            r == (self.value() == 0),
    {
        proof {
            assert(self.high > 0 ==> self.value() > 0) by (nonlinear_arith)
                requires
                    self.value() == self.high as int * limb_weight() + self.low as int,
                    limb_weight() > 0,
            ;
        }
        self.high == 0 && self.low == 0
    }

    pub open spec fn spec_bytes_be(self) -> Seq<u8> {
        Seq::new(32, |i: int| limb_byte(if i < 16 { self.high } else { self.low }, i % 16))
    }

    /// The 32 bytes of the scalar, most significant first.
    pub fn to_bytes_be(&self) -> (r: Vec<u8>)
        ensures
            r@ == self.spec_bytes_be(),
    {
        let mut out: Vec<u8> = Vec::new();
        let mut i: usize = 0;
        while i < 32
            invariant
                i <= 32,
                out@.len() == i,
                forall|j: int| 0 <= j < i ==> out@[j] == self.spec_bytes_be()[j],
            decreases 32 - i,
        {
            let limb: u128 = if i < 16 { self.high } else { self.low };
            let k: usize = i % 16;
            out.push(byte_of_limb(limb, k));
            i = i + 1;
        }
        assert(out@ =~= self.spec_bytes_be());
        out
    }

    /// The scalar read as a short string: its bytes with the leading zero bytes
    /// dropped, decoded as UTF-8; the empty string when they are not UTF-8.
    pub fn to_ascii(&self) -> (r: String)
        ensures
            r@ == short_string_of(self.spec_bytes_be()),
    {
        let bytes = self.to_bytes_be();
        let trimmed = strip_leading_zeros(&bytes);
        match utf8_string(trimmed.as_slice()) {
            Some(s) => s,
            None => String::new(),
        }
    }
}

/// Byte `k` (0 = most significant) of a 16-byte big-endian limb.
pub open spec fn limb_byte(limb: u128, k: int) -> u8 {
    ((limb >> ((15 - k) * 8) as u128) & 0xff) as u8
}

fn byte_of_limb(limb: u128, k: usize) -> (r: u8)
    requires
        k < 16,
    ensures
        r == limb_byte(limb, k as int),
{
    let shift: u128 = ((15 - k) * 8) as u128;
    ((limb >> shift) & 0xff) as u8
}

/// The bytes left after dropping every leading zero byte.
pub open spec fn without_leading_zeros(b: Seq<u8>) -> Seq<u8>
    decreases b.len(),
{
    if b.len() > 0 && b[0] == 0 {
        without_leading_zeros(b.drop_first())
    } else {
        b
    }
}

/// The text a short-string scalar carries.
pub open spec fn short_string_of(b: Seq<u8>) -> Seq<char> {
    let t = without_leading_zeros(b);
    if valid_utf8(t) {
        decode_utf8(t)
    } else {
        Seq::empty()
    }
}

proof fn lemma_strip_step(b: Seq<u8>, i: int)
    requires
        0 <= i < b.len(),
        b[i] == 0,
    ensures
        without_leading_zeros(b.subrange(i, b.len() as int)) == without_leading_zeros(
            b.subrange(i + 1, b.len() as int),
        ),
{
    assert(b.subrange(i, b.len() as int).drop_first() =~= b.subrange(i + 1, b.len() as int));
}

pub fn strip_leading_zeros(b: &Vec<u8>) -> (r: Vec<u8>)
    ensures
        r@ == without_leading_zeros(b@),
{
    let mut i: usize = 0;
    assert(b@.subrange(0, b@.len() as int) =~= b@);
    while i < b.len() && b[i] == 0
        invariant
            i <= b@.len(),
            without_leading_zeros(b@) == without_leading_zeros(b@.subrange(i as int, b@.len() as int)),
        decreases b@.len() - i,
    {
        proof {
            lemma_strip_step(b@, i as int);
        }
        i = i + 1;
    }
    let mut out: Vec<u8> = Vec::new();
    let mut j: usize = i;
    while j < b.len()
        invariant
            i <= j <= b@.len(),
            out@ == b@.subrange(i as int, j as int),
        decreases b@.len() - j,
    {
        out.push(b[j]);
        j = j + 1;
        assert(out@ =~= b@.subrange(i as int, j as int));
    }
    assert(b@.subrange(0, b@.len() as int) =~= b@);
    out
}

/// Relies on std::str::from_utf8: `Ok` exactly for well-formed UTF-8, holding
/// the characters those bytes encode.
#[verifier::external_body]
fn utf8_string(b: &[u8]) -> (r: Option<String>)
    ensures
        r is Some <==> valid_utf8(b@),
        r is Some ==> r->0@ == decode_utf8(b@),
{
    std::str::from_utf8(b).ok().map(str::to_string)
}

} // verus!
