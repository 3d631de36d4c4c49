//! Standard base64 (RFC 4648 alphabet, `=` padding), by the `base64` crate.
use base64::Engine;
use vstd::prelude::*;

verus! {

/// The character of the standard alphabet for the six-bit value `v`.
pub open spec fn b64_symbol(v: int) -> char {
    if v < 26 {
        (65 + v) as char
    } else if v < 52 {
        (97 + (v - 26)) as char
    } else if v < 62 {
        (48 + (v - 52)) as char
    } else if v == 62 {
        '+'
    } else {
        '/'
    }
}

/// Standard padded base64 of `d`: each group of three bytes becomes four symbols;
/// a last group of one or two bytes is completed with `=`.
pub open spec fn base64_encode(d: Seq<u8>) -> Seq<char>
    decreases d.len(),
{
    if d.len() == 0 {
        Seq::empty()
    } else {
        let a: int = d[0] as int;
        let b: int = if d.len() > 1 { d[1] as int } else { 0 };
        let c: int = if d.len() > 2 { d[2] as int } else { 0 };
        let first = seq![b64_symbol(a / 4), b64_symbol((a % 4) * 16 + b / 16)];
        if d.len() == 1 {
            first + seq!['=', '=']
        } else if d.len() == 2 {
            first + seq![b64_symbol((b % 16) * 4), '=']
        } else {
            first + seq![b64_symbol((b % 16) * 4 + c / 64), b64_symbol(c % 64)] + base64_encode(
                d.skip(3),
            )
        }
    }
}

/// Distinct six-bit values have distinct symbols.
proof fn lemma_symbol_injective(u: int, v: int)
    requires
        0 <= u < 64,
        0 <= v < 64,
        b64_symbol(u) == b64_symbol(v),
    ensures
        u == v,
{
}

/// No six-bit value is written as the padding character.
proof fn lemma_symbol_not_pad(u: int)
    requires
        0 <= u < 64,
    ensures
        b64_symbol(u) != '=',
{
}
/// Three bytes are determined by the four six-bit values cut from them.
proof fn lemma_group_bytes(a1: int, b1: int, c1: int, a2: int, b2: int, c2: int)
    requires
        0 <= a1 < 256, 0 <= b1 < 256, 0 <= c1 < 256,
        0 <= a2 < 256, 0 <= b2 < 256, 0 <= c2 < 256,
        a1 / 4 == a2 / 4,
        (a1 % 4) * 16 + b1 / 16 == (a2 % 4) * 16 + b2 / 16,
        (b1 % 16) * 4 + c1 / 64 == (b2 % 16) * 4 + c2 / 64,
        c1 % 64 == c2 % 64,
    ensures
        a1 == a2, b1 == b2, c1 == c2,
{
}

/// The first group of four symbols of the encoding of non-empty `d`, and the
/// encoding of the rest after a full group.
pub proof fn lemma_encode_head(d: Seq<u8>)
    requires
        d.len() > 0,
    ensures
        ({
            let e = base64_encode(d);
            let a: int = d[0] as int;
            let b: int = if d.len() > 1 { d[1] as int } else { 0 };
            let c: int = if d.len() > 2 { d[2] as int } else { 0 };
            &&& e.len() >= 4
            &&& e[0] == b64_symbol(a / 4)
            &&& e[1] == b64_symbol((a % 4) * 16 + b / 16)
            &&& e[2] == if d.len() == 1 { '=' } else { b64_symbol((b % 16) * 4 + c / 64) }
            &&& e[3] == if d.len() <= 2 { '=' } else { b64_symbol(c % 64) }
            &&& d.len() > 2 ==> e.skip(4) =~= base64_encode(d.skip(3))
        }),
{
}

/// Standard base64 is injective: two byte strings with the same encoding are equal.
pub proof fn lemma_base64_injective(d1: Seq<u8>, d2: Seq<u8>)
    requires
        base64_encode(d1) == base64_encode(d2),
    ensures
        d1 == d2,
    decreases d1.len(),
{
    let e = base64_encode(d1);
    if d1.len() == 0 || d2.len() == 0 {
        if d1.len() > 0 {
            lemma_encode_head(d1);
        }
        if d2.len() > 0 {
            lemma_encode_head(d2);
        }
        assert(d1 =~= d2);
    } else {
        let a1: int = d1[0] as int;
        let b1: int = if d1.len() > 1 { d1[1] as int } else { 0 };
        let c1: int = if d1.len() > 2 { d1[2] as int } else { 0 };
        let a2: int = d2[0] as int;
        let b2: int = if d2.len() > 1 { d2[1] as int } else { 0 };
        let c2: int = if d2.len() > 2 { d2[2] as int } else { 0 };
        lemma_symbol_not_pad((b1 % 16) * 4 + c1 / 64);
        lemma_symbol_not_pad((b2 % 16) * 4 + c2 / 64);
        lemma_symbol_not_pad((b1 % 16) * 4);
        lemma_symbol_not_pad((b2 % 16) * 4);
        lemma_symbol_not_pad(c1 % 64);
        lemma_symbol_not_pad(c2 % 64);
        lemma_encode_head(d1);
        lemma_encode_head(d2);
        lemma_symbol_injective(a1 / 4, a2 / 4);
        lemma_symbol_injective((a1 % 4) * 16 + b1 / 16, (a2 % 4) * 16 + b2 / 16);
        assert((d1.len() == 1) == (d2.len() == 1));
        assert((d1.len() == 2) == (d2.len() == 2));
        if d1.len() == 1 {
            assert(a1 == a2);
            assert(d1 =~= d2);
        } else if d1.len() == 2 {
            lemma_symbol_injective((b1 % 16) * 4, (b2 % 16) * 4);
            assert(d1 =~= d2);
        } else {
            lemma_symbol_injective((b1 % 16) * 4 + c1 / 64, (b2 % 16) * 4 + c2 / 64);
            lemma_symbol_injective(c1 % 64, c2 % 64);
            lemma_group_bytes(a1, b1, c1, a2, b2, c2);
            lemma_base64_injective(d1.skip(3), d2.skip(3));
            assert(d1 =~= d2) by {
                assert forall|k: int| 0 <= k < d1.len() implies d1[k] == d2[k] by {
                    if k >= 3 {
                        assert(d1[k] == d1.skip(3)[k - 3]);
                        assert(d2[k] == d2.skip(3)[k - 3]);
                    }
                }
            }
        }
    }
}

#[verifier::external_type_specification]
#[verifier::external_body]
pub struct ExDecodeError(base64::DecodeError);

/// `base64::engine::general_purpose::STANDARD.encode`: the padded standard base64
/// of `data`.  The crate panics only when the output length overflows `usize`,
/// which no slice of at most `isize::MAX` bytes reaches.
#[verifier::external_body]
pub(crate) fn encode_standard(data: &[u8]) -> (r: String)
    requires
        data@.len() <= isize::MAX,
    ensures
        r@ == base64_encode(data@),
{
    base64::engine::general_purpose::STANDARD.encode(data)
}

/// `base64::engine::general_purpose::STANDARD.decode`.  The standard engine
/// requires canonical `=` padding and refuses non-zero trailing bits, so it accepts
/// exactly the padded standard base64 of some bytes, and gives back those bytes.
#[verifier::external_body]
pub(crate) fn decode_standard(text: &str) -> (r: Result<Vec<u8>, base64::DecodeError>)
    ensures
        r is Ok <==> exists|d: Seq<u8>| text@ == base64_encode(d),
        r matches Ok(v) ==> text@ == base64_encode(v@),
{
    base64::engine::general_purpose::STANDARD.decode(text)
}

/// `base64::DecodeError`'s `Display` text.  Nothing is stated of the text.
#[verifier::external_body]
pub(crate) fn decode_error_text(e: &base64::DecodeError) -> (r: String) {
    format!("{e}")
}

/// Standard base64 of `data`.
pub fn base64_encode_bytes(data: &[u8]) -> (r: String)
    requires
        data@.len() <= isize::MAX,
    ensures
        r@ == base64_encode(data@),
{
    encode_standard(data)
}

/// Decodes standard base64; the error is the decoder's message.  It succeeds
/// exactly on the padded standard base64 of some bytes, and gives those bytes.
pub fn base64_decode_text(text: &str) -> (r: Result<Vec<u8>, String>)
    ensures
        r is Ok <==> exists|d: Seq<u8>| text@ == base64_encode(d),
        forall|d: Seq<u8>| text@ == base64_encode(d) ==> (r matches Ok(v) && v@ == d),
{
    match decode_standard(text) {
        Ok(v) => {
            proof {
                assert forall|d: Seq<u8>| text@ == base64_encode(d) implies v@ == d by {
                    lemma_base64_injective(v@, d);
                }
            }
            Ok(v)
        },
        Err(e) => Err(decode_error_text(&e)),
    }
}

} // verus!
