//! Base64 as the JWK and certificate encodings use it: the URL-safe alphabet
//! without padding for key material, the standard alphabet with padding for
//! certificates.

use vstd::prelude::*;
use base64::Engine;

verus! {

/// The symbol of a 6-bit group in the standard alphabet (RFC 4648, table 1).
pub open spec fn standard_symbol(v: int) -> char {
    if v < 26 {
        (('A' as int) + v) as char
    } else if v < 52 {
        (('a' as int) + v - 26) as char
    } else if v < 62 {
        (('0' as int) + v - 52) as char
    } else if v == 62 {
        '+'
    } else {
        '/'
    }
}

/// The symbol of a 6-bit group in the URL-safe alphabet (RFC 4648, table 2).
pub open spec fn url_safe_symbol(v: int) -> char {
    if v < 62 {
        standard_symbol(v)
    } else if v == 62 {
        '-'
    } else {
        '_'
    }
}

pub open spec fn symbol(v: int, url_safe: bool) -> char {
    if url_safe {
        url_safe_symbol(v)
    } else {
        standard_symbol(v)
    }
}

/// The base64 encoding of `bytes`: each group of three bytes becomes four
/// symbols; a final group of one or two bytes becomes two or three symbols,
/// followed by `=` up to four when `pad` is set.
pub open spec fn base64_encode(bytes: Seq<u8>, url_safe: bool, pad: bool) -> Seq<char>
    decreases bytes.len(),
{
    if bytes.len() == 0 {
        Seq::empty()
    } else if bytes.len() == 1 {
        let b0 = bytes[0] as int;
        seq![symbol(b0 / 4, url_safe), symbol((b0 % 4) * 16, url_safe)] + if pad {
            seq!['=', '=']
        } else {
            Seq::empty()
        }
    } else if bytes.len() == 2 {
        let b0 = bytes[0] as int;
        let b1 = bytes[1] as int;
        seq![
            symbol(b0 / 4, url_safe),
            symbol((b0 % 4) * 16 + b1 / 16, url_safe),
            symbol((b1 % 16) * 4, url_safe),
        ] + if pad {
            seq!['=']
        } else {
            Seq::empty()
        }
    } else {
        let b0 = bytes[0] as int;
        let b1 = bytes[1] as int;
        let b2 = bytes[2] as int;
        seq![
            symbol(b0 / 4, url_safe),
            symbol((b0 % 4) * 16 + b1 / 16, url_safe),
            symbol((b1 % 16) * 4 + b2 / 64, url_safe),
            symbol(b2 % 64, url_safe),
        ] + base64_encode(bytes.skip(3), url_safe, pad)
    }
}

/// The code point of each URL-safe symbol.
proof fn lemma_url_safe_symbol_value(v: int)
    requires
        0 <= v < 64,
    ensures
        url_safe_symbol(v) as int == (if v < 26 {
            65 + v
        } else if v < 52 {
            97 + v - 26
        } else if v < 62 {
            48 + v - 52
        } else if v == 62 {
            45
        } else {
            95
        }),
{
}

/// Distinct 6-bit groups have distinct URL-safe symbols.
proof fn lemma_url_safe_symbol_injective(v: int, w: int)
    requires
        0 <= v < 64,
        0 <= w < 64,
        url_safe_symbol(v) == url_safe_symbol(w),
    ensures
        v == w,
{
    lemma_url_safe_symbol_value(v);
    lemma_url_safe_symbol_value(w);
}

/// The length of an unpadded encoding: four symbols for each full group of
/// three bytes, and two or three for a final one or two bytes.
proof fn lemma_unpadded_length(bytes: Seq<u8>)
    ensures
        base64_encode(bytes, true, false).len() == 4 * (bytes.len() / 3) + (if bytes.len() % 3
            == 0 {
            0int
        } else if bytes.len() % 3 == 1 {
            2int
        } else {
            3int
        }),
    decreases bytes.len(),
{
    if bytes.len() >= 3 {
        lemma_unpadded_length(bytes.skip(3));
    }
}

/// The four 6-bit groups of three bytes determine the bytes.
proof fn lemma_group_determines_bytes(a0: u8, a1: u8, a2: u8, b0: u8, b1: u8, b2: u8)
    by (bit_vector)
    requires
        a0 / 4 == b0 / 4,
        (a0 % 4) * 16 + a1 / 16 == (b0 % 4) * 16 + b1 / 16,
        (a1 % 16) * 4 + a2 / 64 == (b1 % 16) * 4 + b2 / 64,
        a2 % 64 == b2 % 64,
    ensures
        a0 == b0,
        a1 == b1,
        a2 == b2,
{
}

/// The 6-bit groups of a final two bytes determine them.
proof fn lemma_pair_determines_bytes(a0: u8, a1: u8, b0: u8, b1: u8)
    by (bit_vector)
    requires
        a0 / 4 == b0 / 4,
        (a0 % 4) * 16 + a1 / 16 == (b0 % 4) * 16 + b1 / 16,
        (a1 % 16) * 4 == (b1 % 16) * 4,
    ensures
        a0 == b0,
        a1 == b1,
{
}

/// The 6-bit groups of a final byte determine it.
proof fn lemma_single_determines_byte(a0: u8, b0: u8)
    by (bit_vector)
    requires
        a0 / 4 == b0 / 4,
        (a0 % 4) * 16 == (b0 % 4) * 16,
    ensures
        a0 == b0,
{
}

/// Distinct byte strings have distinct URL-safe unpadded encodings.
pub proof fn lemma_base64url_injective(a: Seq<u8>, b: Seq<u8>)
    requires
        base64_encode(a, true, false) == base64_encode(b, true, false),
    ensures
        a == b,
    decreases a.len(),
{
    let ea = base64_encode(a, true, false);
    let eb = base64_encode(b, true, false);
    lemma_unpadded_length(a);
    lemma_unpadded_length(b);
    assert(a.len() == b.len());
    if a.len() == 0 {
        assert(a =~= b);
    } else if a.len() == 1 {
        lemma_url_safe_symbol_injective(a[0] as int / 4, b[0] as int / 4);
        lemma_url_safe_symbol_injective((a[0] as int % 4) * 16, (b[0] as int % 4) * 16);
        lemma_single_determines_byte(a[0], b[0]);
        assert(a =~= b);
    } else if a.len() == 2 {
        assert(ea[0] == eb[0] && ea[1] == eb[1] && ea[2] == eb[2]);
        lemma_url_safe_symbol_injective(a[0] as int / 4, b[0] as int / 4);
        lemma_url_safe_symbol_injective(
            (a[0] as int % 4) * 16 + a[1] as int / 16,
            (b[0] as int % 4) * 16 + b[1] as int / 16,
        );
        lemma_url_safe_symbol_injective((a[1] as int % 16) * 4, (b[1] as int % 16) * 4);
        lemma_pair_determines_bytes(a[0], a[1], b[0], b[1]);
        assert(a =~= b);
    } else {
        assert(ea[0] == eb[0] && ea[1] == eb[1] && ea[2] == eb[2] && ea[3] == eb[3]);
        lemma_url_safe_symbol_injective(a[0] as int / 4, b[0] as int / 4);
        lemma_url_safe_symbol_injective(
            (a[0] as int % 4) * 16 + a[1] as int / 16,
            (b[0] as int % 4) * 16 + b[1] as int / 16,
        );
        lemma_url_safe_symbol_injective(
            (a[1] as int % 16) * 4 + a[2] as int / 64,
            (b[1] as int % 16) * 4 + b[2] as int / 64,
        );
        lemma_url_safe_symbol_injective(a[2] as int % 64, b[2] as int % 64);
        lemma_group_determines_bytes(a[0], a[1], a[2], b[0], b[1], b[2]);
        let ra = base64_encode(a.skip(3), true, false);
        let rb = base64_encode(b.skip(3), true, false);
        assert(ra =~= ea.skip(4));
        assert(rb =~= eb.skip(4));
        lemma_base64url_injective(a.skip(3), b.skip(3));
        assert forall|i: int| 0 <= i < a.len() implies a[i] == b[i] by {
            if i >= 3 {
                assert(a[i] == a.skip(3)[i - 3]);
                assert(b[i] == b.skip(3)[i - 3]);
            }
        }
        assert(a =~= b);
    }
}

/// The bytes whose URL-safe unpadded encoding is `text`, if any; by
/// [`lemma_base64url_injective`] there is at most one such byte string.
pub open spec fn base64url_decoding(text: Seq<char>) -> Option<Seq<u8>> {
    if exists|bytes: Seq<u8>| #[trigger] base64_encode(bytes, true, false) == text {
        Some(choose|bytes: Seq<u8>| #[trigger] base64_encode(bytes, true, false) == text)
    } else {
        None
    }
}

/// The text `base64::DecodeError` displays when `URL_SAFE_NO_PAD` refuses
/// `text`.
pub uninterp spec fn base64url_error_text(text: Seq<char>) -> Seq<char>;

/// Decodes `text` with `base64::engine::general_purpose::URL_SAFE_NO_PAD`;
/// a refusal is reported by the error's text. Trusted: that engine refuses
/// padding and non-zero trailing bits, so it succeeds exactly on the
/// URL-safe unpadded encodings of byte strings, giving bytes whose encoding
/// is `text`; a refusal's text is the named one.
#[verifier::external_body]
pub(crate) fn decode_base64url(text: &str) -> (r: Result<Vec<u8>, String>)
    ensures
        r is Ok <==> exists|bytes: Seq<u8>| #[trigger] base64_encode(bytes, true, false) == text@,
        r matches Ok(bytes) ==> base64_encode(bytes@, true, false) == text@,
        r matches Err(detail) ==> detail@ == base64url_error_text(text@),
{
    match base64::engine::general_purpose::URL_SAFE_NO_PAD.decode(text) {
        Ok(bytes) => Ok(bytes),
        Err(error) => Err(error.to_string()),
    }
}

/// The bytes `text` decodes to, as [`base64url_decoding`] gives them, or the
/// text of the refusal.
pub fn decode_url_safe(text: &str) -> (r: Result<Vec<u8>, String>)
    ensures
        match base64url_decoding(text@) {
            Some(bytes) => r matches Ok(out) && out@ == bytes,
            None => r matches Err(detail) && detail@ == base64url_error_text(text@),
        },
{
    let r = decode_base64url(text);
    proof {
        if r is Ok {
            let chosen = choose|bytes: Seq<u8>| #[trigger] base64_encode(bytes, true, false) == text@;
            lemma_base64url_injective(r->Ok_0@, chosen);
        }
    }
    r
}

/// Encodes `bytes` with `base64::engine::general_purpose::STANDARD`.
/// Trusted: the result is the standard-alphabet encoding with padding.
#[verifier::external_body]
pub(crate) fn encode_base64(bytes: &[u8]) -> (r: String)
    ensures
        r@ == base64_encode(bytes@, false, true),
{
    base64::engine::general_purpose::STANDARD.encode(bytes)
}

} // verus!
