//! Unsigned integers carried as unpadded base64 text of their big-endian
//! bytes.

use vstd::prelude::*;
use base64::engine::general_purpose::STANDARD_NO_PAD;
use base64::engine::general_purpose::URL_SAFE_NO_PAD;
use base64::DecodeError;
use base64::Engine;
use num_bigint::BigInt;
use num_bigint::Sign;
use zeroize::Zeroize;
use crate::error::Error;

verus! {

/// The two base64 alphabets, both without padding.
#[derive(Debug, Clone, Copy, PartialEq, Eq, Structural)]
pub enum Alphabet {
    /// The standard alphabet, with `+` and `/`.
    StandardNoPad,
    /// The URL- and filename-safe alphabet, with `-` and `_`.
    UrlSafeNoPad,
}

/// The symbol for the six-bit value `v`: `A`-`Z` for 0 to 25, `a`-`z` for
/// 26 to 51, `0`-`9` for 52 to 61, then the alphabet's two last symbols.
pub open spec fn symbol(a: Alphabet, v: u8) -> char
    recommends
        v < 64,
{
    if v < 26 {
        (65 + v) as u8 as char
    } else if v < 52 {
        (71 + v) as u8 as char
    } else if v < 62 {
        (v - 4) as u8 as char
    } else if v == 62 {
        match a {
            Alphabet::StandardNoPad => '+',
            Alphabet::UrlSafeNoPad => '-',
        }
    } else {
        match a {
            Alphabet::StandardNoPad => '/',
            Alphabet::UrlSafeNoPad => '_',
        }
    }
}

/// The symbols for one group of one, two or three bytes: every six bits of
/// the group, high bits first, the last six zero-filled on the right.
pub open spec fn encoded_group(a: Alphabet, b: Seq<u8>) -> Seq<char>
    recommends
        1 <= b.len() <= 3,
{
    if b.len() == 1 {
        seq![symbol(a, b[0] >> 2), symbol(a, (b[0] & 3) << 4)]
    } else if b.len() == 2 {
        seq![
            symbol(a, b[0] >> 2),
            symbol(a, ((b[0] & 3) << 4) | (b[1] >> 4)),
            symbol(a, (b[1] & 15) << 2),
        ]
    } else {
        seq![
            symbol(a, b[0] >> 2),
            symbol(a, ((b[0] & 3) << 4) | (b[1] >> 4)),
            symbol(a, ((b[1] & 15) << 2) | (b[2] >> 6)),
            symbol(a, b[2] & 63),
        ]
    }
}

/// The canonical unpadded text of `b`: its groups of three bytes in order,
/// the last group possibly shorter.
pub open spec fn encoded(a: Alphabet, b: Seq<u8>) -> Seq<char>
    decreases b.len(),
{
    if b.len() == 0 {
        seq![]
    } else if b.len() <= 3 {
        encoded_group(a, b)
    } else {
        encoded_group(a, b.subrange(0, 3)) + encoded(a, b.subrange(3, b.len() as int))
    }
}

/// Whether `t` is the canonical text of some byte sequence.
pub open spec fn is_canonical(a: Alphabet, t: Seq<char>) -> bool {
    exists|b: Seq<u8>| encoded(a, b) == t
}

/// The bytes whose canonical text is `t`, if there are any (there is then
/// exactly one such sequence).
pub open spec fn decoded(a: Alphabet, t: Seq<char>) -> Option<Seq<u8>> {
    if is_canonical(a, t) {
        Some(choose|b: Seq<u8>| encoded(a, b) == t)
    } else {
        None
    }
}

proof fn lemma_symbol_injective(a: Alphabet, v: u8, w: u8)
    requires
        v < 64,
        w < 64,
        symbol(a, v) == symbol(a, w),
    ensures
        v == w,
{
}

proof fn lemma_symbol_not_pad(a: Alphabet, v: u8)
    requires
        v < 64,
    ensures
        symbol(a, v) != '=',
{
}

proof fn lemma_group_len(a: Alphabet, b: Seq<u8>)
    requires
        1 <= b.len() <= 3,
    ensures
        encoded_group(a, b).len() == b.len() + 1,
{
}

proof fn lemma_group_injective(a: Alphabet, x: Seq<u8>, y: Seq<u8>)
    requires
        1 <= x.len() <= 3,
        1 <= y.len() <= 3,
        encoded_group(a, x) == encoded_group(a, y),
    ensures
        x == y,
{
    lemma_group_len(a, x);
    lemma_group_len(a, y);
    let ex = encoded_group(a, x);
    let ey = encoded_group(a, y);
    let (x0, y0) = (x[0], y[0]);
    assert(x0 >> 2 < 64 && y0 >> 2 < 64) by (bit_vector);
    assert(ex[0] == ey[0]);
    lemma_symbol_injective(a, x0 >> 2, y0 >> 2);
    if x.len() == 1 {
        assert((x0 & 3) << 4 < 64 && (y0 & 3) << 4 < 64) by (bit_vector);
        assert(ex[1] == ey[1]);
        lemma_symbol_injective(a, (x0 & 3) << 4, (y0 & 3) << 4);
        assert(x0 >> 2 == y0 >> 2 && (x0 & 3) << 4 == (y0 & 3) << 4 ==> x0 == y0) by (bit_vector);
        assert(x =~= y);
    } else {
        let (x1, y1) = (x[1], y[1]);
        assert(((x0 & 3) << 4) | (x1 >> 4) < 64 && ((y0 & 3) << 4) | (y1 >> 4) < 64)
            by (bit_vector);
        assert(ex[1] == ey[1]);
        lemma_symbol_injective(a, ((x0 & 3) << 4) | (x1 >> 4), ((y0 & 3) << 4) | (y1 >> 4));
        if x.len() == 2 {
            assert((x1 & 15) << 2 < 64 && (y1 & 15) << 2 < 64) by (bit_vector);
            assert(ex[2] == ey[2]);
            lemma_symbol_injective(a, (x1 & 15) << 2, (y1 & 15) << 2);
            assert(x0 >> 2 == y0 >> 2 && ((x0 & 3) << 4) | (x1 >> 4) == ((y0 & 3) << 4) | (y1
                >> 4) && (x1 & 15) << 2 == (y1 & 15) << 2 ==> x0 == y0 && x1 == y1)
                by (bit_vector);
            assert(x =~= y);
        } else {
            let (x2, y2) = (x[2], y[2]);
            assert(((x1 & 15) << 2) | (x2 >> 6) < 64 && ((y1 & 15) << 2) | (y2 >> 6) < 64
                && x2 & 63 < 64 && y2 & 63 < 64) by (bit_vector);
            assert(ex[2] == ey[2]);
            assert(ex[3] == ey[3]);
            lemma_symbol_injective(a, ((x1 & 15) << 2) | (x2 >> 6), ((y1 & 15) << 2) | (y2 >> 6));
            lemma_symbol_injective(a, x2 & 63, y2 & 63);
            assert(x0 >> 2 == y0 >> 2 && ((x0 & 3) << 4) | (x1 >> 4) == ((y0 & 3) << 4) | (y1
                >> 4) && ((x1 & 15) << 2) | (x2 >> 6) == ((y1 & 15) << 2) | (y2 >> 6) && x2 & 63
                == y2 & 63 ==> x0 == y0 && x1 == y1 && x2 == y2) by (bit_vector);
            assert(x =~= y);
        }
    }
}

proof fn lemma_encode_len(a: Alphabet, b: Seq<u8>)
    ensures
        encoded(a, b).len() == 4 * (b.len() / 3) + if b.len() % 3 == 0 {
            0
        } else {
            b.len() % 3 + 1
        },
    decreases b.len(),
{
    if 1 <= b.len() <= 3 {
        lemma_group_len(a, b);
    } else if b.len() > 3 {
        lemma_group_len(a, b.subrange(0, 3));
        lemma_encode_len(a, b.subrange(3, b.len() as int));
    }
}

/// Distinct byte sequences have distinct canonical texts.
proof fn lemma_encode_injective(a: Alphabet, x: Seq<u8>, y: Seq<u8>)
    requires
        encoded(a, x) == encoded(a, y),
    ensures
        x == y,
    decreases x.len(),
{
    lemma_encode_len(a, x);
    lemma_encode_len(a, y);
    if x.len() == 0 || y.len() == 0 {
        assert(x.len() == y.len());
        assert(x =~= y);
    } else if x.len() <= 3 || y.len() <= 3 {
        assert(x.len() == y.len());
        lemma_group_injective(a, x, y);
    } else {
        let (xh, xt) = (x.subrange(0, 3), x.subrange(3, x.len() as int));
        let (yh, yt) = (y.subrange(0, 3), y.subrange(3, y.len() as int));
        lemma_group_len(a, xh);
        lemma_group_len(a, yh);
        let ex = encoded(a, x);
        assert(encoded_group(a, xh) =~= ex.subrange(0, 4));
        assert(encoded_group(a, yh) =~= ex.subrange(0, 4));
        assert(encoded(a, xt) =~= ex.subrange(4, ex.len() as int));
        assert(encoded(a, yt) =~= ex.subrange(4, ex.len() as int));
        lemma_group_injective(a, xh, yh);
        lemma_encode_injective(a, xt, yt);
        assert(x =~= xh + xt);
        assert(y =~= yh + yt);
    }
}

proof fn lemma_encode_no_pad(a: Alphabet, b: Seq<u8>)
    ensures
        !encoded(a, b).contains('='),
    decreases b.len(),
{
    let e = encoded(a, b);
    if 1 <= b.len() {
        let h = if b.len() <= 3 { b } else { b.subrange(0, 3) };
        lemma_group_len(a, h);
        let g = encoded_group(a, h);
        let (h0, h1, h2) = (h[0], h[1], h[2]);
        assert(h0 >> 2 < 64 && (h0 & 3) << 4 < 64 && ((h0 & 3) << 4) | (h1 >> 4) < 64 && (h1
            & 15) << 2 < 64 && ((h1 & 15) << 2) | (h2 >> 6) < 64 && h2 & 63 < 64)
            by (bit_vector);
        lemma_symbol_not_pad(a, h0 >> 2);
        lemma_symbol_not_pad(a, (h0 & 3) << 4);
        lemma_symbol_not_pad(a, ((h0 & 3) << 4) | (h1 >> 4));
        lemma_symbol_not_pad(a, (h1 & 15) << 2);
        lemma_symbol_not_pad(a, ((h1 & 15) << 2) | (h2 >> 6));
        lemma_symbol_not_pad(a, h2 & 63);
        assert(!g.contains('='));
        if b.len() > 3 {
            let t = b.subrange(3, b.len() as int);
            lemma_encode_no_pad(a, t);
            assert(e == g + encoded(a, t));
            assert forall|i: int| 0 <= i < e.len() implies e[i] != '=' by {
                if i >= g.len() {
                    assert(e[i] == encoded(a, t)[i - g.len()]);
                }
            }
        }
    }
}

/// Decoding the canonical text of any byte sequence, leading zero bytes
/// and the empty sequence included, gives back exactly that sequence.
pub proof fn lemma_round_trip(a: Alphabet, b: Seq<u8>)
    ensures
        decoded(a, encoded(a, b)) == Some(b),
{
    let t = encoded(a, b);
    assert(is_canonical(a, t));
    let c = choose|c: Seq<u8>| encoded(a, c) == t;
    lemma_encode_injective(a, c, b);
}

/// Text that decodes is the canonical text of what it decodes to: encoding
/// the result gives the text back.
pub proof fn lemma_decode_canonical(a: Alphabet, t: Seq<char>)
    ensures
        decoded(a, t) matches Some(b) ==> encoded(a, b) == t,
{
}

/// Text holding a padding character never decodes: padding is rejected,
/// not stripped.
pub proof fn lemma_padding_rejected(a: Alphabet, t: Seq<char>)
    requires
        t.contains('='),
    ensures
        decoded(a, t) is None,
{
    if is_canonical(a, t) {
        let b = choose|b: Seq<u8>| encoded(a, b) == t;
        lemma_encode_no_pad(a, b);
    }
}

#[verifier::external_type_specification]
#[verifier::external_body]
pub struct ExDecodeError(DecodeError);

#[verifier::external_type_specification]
#[verifier::external_body]
pub struct ExBigInt(BigInt);

/// Relies on base64's `Engine::encode` on `URL_SAFE_NO_PAD`: the unpadded
/// URL-safe text of the bytes. A slice holds at most `isize::MAX` bytes, so
/// its length computation does not overflow.
#[verifier::external_body]
fn encode_url_safe(b: &[u8]) -> (r: String)
    ensures
        r@ == encoded(Alphabet::UrlSafeNoPad, b@),
{
    URL_SAFE_NO_PAD.encode(b)
}

/// Relies on base64's `Engine::encode` on `STANDARD_NO_PAD`: the unpadded
/// standard-alphabet text of the bytes. A slice holds at most `isize::MAX`
/// bytes, so its length computation does not overflow.
#[verifier::external_body]
fn encode_standard(b: &[u8]) -> (r: String)
    ensures
        r@ == encoded(Alphabet::StandardNoPad, b@),
{
    STANDARD_NO_PAD.encode(b)
}

/// Relies on base64's `Engine::decode` on `URL_SAFE_NO_PAD`, whose config
/// (`NO_PAD`) rejects padding and non-zero trailing bits: it succeeds
/// exactly on canonical unpadded URL-safe text, with the bytes it encodes.
#[verifier::external_body]
fn decode_url_safe(t: &str) -> (r: Result<Vec<u8>, DecodeError>)
    ensures
        r is Ok <==> is_canonical(Alphabet::UrlSafeNoPad, t@),
        r matches Ok(v) ==> encoded(Alphabet::UrlSafeNoPad, v@) == t@,
{
    URL_SAFE_NO_PAD.decode(t)
}

/// Relies on base64's `Engine::decode` on `STANDARD_NO_PAD`, whose config
/// (`NO_PAD`) rejects padding and non-zero trailing bits: it succeeds
/// exactly on canonical unpadded standard-alphabet text, with the bytes it
/// encodes.
#[verifier::external_body]
fn decode_standard(t: &str) -> (r: Result<Vec<u8>, DecodeError>)
    ensures
        r is Ok <==> is_canonical(Alphabet::StandardNoPad, t@),
        r matches Ok(v) ==> encoded(Alphabet::StandardNoPad, v@) == t@,
{
    STANDARD_NO_PAD.decode(t)
}

/// Relies on zeroize's `Zeroize` for `Vec<u8>`: it overwrites the elements
/// and the spare capacity with zeros, then clears the vector.
#[verifier::external_body]
fn wipe(v: &mut Vec<u8>)
    ensures
        final(v)@.len() == 0,
    opens_invariants none
    no_unwind
{
    v.zeroize()
}

/// The non-negative integer whose big-endian magnitude is `b`, as
/// num-bigint's `BigInt::from_bytes_be(Sign::Plus, b)` builds it.
pub uninterp spec fn bigint_of_be(b: Seq<u8>) -> BigInt;

/// Relies on num-bigint's `BigInt::from_bytes_be` with `Sign::Plus`: a value
/// that depends on the bytes alone.
#[verifier::external_body]
fn bigint_from_be(b: &[u8]) -> (r: BigInt)
    ensures
        r == bigint_of_be(b@),
{
    BigInt::from_bytes_be(Sign::Plus, b)
}

/// A big-endian unsigned integer magnitude, exchanged as unpadded base64
/// text. Leading zero bytes are kept. The bytes are zeroed when the value
/// is dropped.
#[derive(Debug, Clone, PartialEq, Eq, Hash)]
pub struct Base64urlUInt(pub Vec<u8>);

impl Base64urlUInt {
    /// The bytes that `text` canonically encodes in `alphabet`;
    /// `InvalidBase64` for any other text (a character outside the alphabet,
    /// padding, a length no byte sequence encodes to, non-zero trailing bits).
    pub fn decode(alphabet: Alphabet, text: &str) -> (r: Result<Base64urlUInt, Error>)
        ensures
            r is Ok <==> decoded(alphabet, text@) is Some,
            r matches Ok(v) ==> decoded(alphabet, text@) == Some(v.0@),
            r matches Err(e) ==> e == Error::InvalidBase64,
    {
        let res = match alphabet {
            Alphabet::StandardNoPad => decode_standard(text),
            Alphabet::UrlSafeNoPad => decode_url_safe(text),
        };
        match res {
            Ok(bytes) => {
                proof {
                    lemma_round_trip(alphabet, bytes@);
                }
                Ok(Base64urlUInt(bytes))
            },
            Err(_) => Err(Error::InvalidBase64),
        }
    }

    /// The canonical unpadded text of the bytes in `alphabet`.
    pub fn encode(&self, alphabet: Alphabet) -> (r: String)
        ensures
            r@ == encoded(alphabet, self.0@),
    {
        match alphabet {
            Alphabet::StandardNoPad => encode_standard(self.0.as_slice()),
            Alphabet::UrlSafeNoPad => encode_url_safe(self.0.as_slice()),
        }
    }

    /// The canonical unpadded URL-safe text of the bytes.
    pub fn to_string(&self) -> (r: String)
        ensures
            r@ == encoded(Alphabet::UrlSafeNoPad, self.0@),
    {
        self.encode(Alphabet::UrlSafeNoPad)
    }

    /// The bytes read as a big-endian unsigned integer.
    pub fn to_bigint(&self) -> (r: BigInt)
        ensures
            r == bigint_of_be(self.0@),
    {
        bigint_from_be(self.0.as_slice())
    }
}

impl Drop for Base64urlUInt {
    fn drop(&mut self)
        opens_invariants none
        no_unwind
    {
        wipe(&mut self.0);
    }
}

impl TryFrom<String> for Base64urlUInt {
    type Error = Error;

    fn try_from(data: String) -> (r: Result<Base64urlUInt, Error>)
        ensures
            r is Ok <==> decoded(Alphabet::UrlSafeNoPad, data@) is Some,
            r matches Ok(v) ==> decoded(Alphabet::UrlSafeNoPad, data@) == Some(v.0@),
            r matches Err(e) ==> e == Error::InvalidBase64,
    {
        Base64urlUInt::decode(Alphabet::UrlSafeNoPad, data.as_str())
    }
}

impl vstd::std_specs::convert::TryFromSpecImpl<String> for Base64urlUInt {
    /// No spec-level value: the contract stands on `try_from` itself.
    open spec fn obeys_try_from_spec() -> bool {
        false
    }

    closed spec fn try_from_spec(v: String) -> Result<Base64urlUInt, Error> {
        arbitrary()
    }
}

impl From<&Base64urlUInt> for String {
    fn from(data: &Base64urlUInt) -> (r: String)
        ensures
            r@ == encoded(Alphabet::UrlSafeNoPad, data.0@),
    {
        data.to_string()
    }
}

impl vstd::std_specs::convert::FromSpecImpl<&Base64urlUInt> for String {
    /// No spec-level value: the contract stands on `from` itself.
    open spec fn obeys_from_spec() -> bool {
        false
    }

    closed spec fn from_spec(v: &Base64urlUInt) -> String {
        arbitrary()
    }
}

impl From<Base64urlUInt> for String {
    fn from(data: Base64urlUInt) -> (r: String)
        ensures
            r@ == encoded(Alphabet::UrlSafeNoPad, data.0@),
    {
        data.to_string()
    }
}

impl vstd::std_specs::convert::FromSpecImpl<Base64urlUInt> for String {
    /// No spec-level value: the contract stands on `from` itself.
    open spec fn obeys_from_spec() -> bool {
        false
    }

    closed spec fn from_spec(v: Base64urlUInt) -> String {
        arbitrary()
    }
}

impl From<Base64urlUInt> for BigInt {
    fn from(data: Base64urlUInt) -> (r: BigInt) {
        data.to_bigint()
    }
}

impl vstd::std_specs::convert::FromSpecImpl<Base64urlUInt> for BigInt {
    open spec fn obeys_from_spec() -> bool {
        true
    }

    open spec fn from_spec(data: Base64urlUInt) -> BigInt {
        bigint_of_be(data.0@)
    }
}

} // verus!
