//! Base64 (RFC 4648): the encoding as a specification, the proof that it
//! is injective, and the calls into the `base64` crate.
use base64::Engine;
use vstd::prelude::*;

verus! {

/// The `base64` crate's decoding error.
#[verifier::external_type_specification]
#[verifier::external_body]
pub struct ExDecodeError(base64::DecodeError);

/// The byte that stands for the 6-bit value `d` in the standard alphabet
/// (`A-Z a-z 0-9 + /`) or, when `url` holds, in the URL-safe one
/// (`A-Z a-z 0-9 - _`).
pub open spec fn b64_symbol(d: u8, url: bool) -> u8 {
    if d < 26 {
        (65 + d) as u8
    } else if d < 52 {
        (71 + d) as u8
    } else if d < 62 {
        (d - 4) as u8
    } else if d == 62 {
        if url {
            45
        } else {
            43
        }
    } else if url {
        95
    } else {
        47
    }
}

/// The padding byte `=`.
pub open spec fn b64_pad() -> u8 {
    61
}

/// Base64 encoding of `b`: each group of three bytes becomes four symbols;
/// a final group of one or two bytes becomes two or three symbols, followed
/// by `=` padding up to four when `pad` holds.
pub open spec fn b64_encode(b: Seq<u8>, url: bool, pad: bool) -> Seq<u8>
    decreases b.len(),
{
    if b.len() == 0 {
        seq![]
    } else if b.len() == 1 {
        seq![b64_symbol(b[0] >> 2, url), b64_symbol((b[0] & 3) << 4, url)] + if pad {
            seq![b64_pad(), b64_pad()]
        } else {
            seq![]
        }
    } else if b.len() == 2 {
        seq![
            b64_symbol(b[0] >> 2, url),
            b64_symbol(((b[0] & 3) << 4) | (b[1] >> 4), url),
            b64_symbol((b[1] & 15) << 2, url),
        ] + if pad {
            seq![b64_pad()]
        } else {
            seq![]
        }
    } else {
        seq![
            b64_symbol(b[0] >> 2, url),
            b64_symbol(((b[0] & 3) << 4) | (b[1] >> 4), url),
            b64_symbol(((b[1] & 15) << 2) | (b[2] >> 6), url),
            b64_symbol(b[2] & 63, url),
        ] + b64_encode(b.subrange(3, b.len() as int), url, pad)
    }
}

/// The standard, padded encoding (the `STANDARD` engine).
pub open spec fn b64_standard(b: Seq<u8>) -> Seq<u8> {
    b64_encode(b, false, true)
}

/// The URL-safe encoding without padding (the `URL_SAFE_NO_PAD` engine).
pub open spec fn b64_url_no_pad(b: Seq<u8>) -> Seq<u8> {
    b64_encode(b, true, false)
}

/// Bytes read as the characters of the same code.
pub open spec fn ascii_chars(b: Seq<u8>) -> Seq<char> {
    Seq::new(b.len(), |i: int| b[i] as char)
}

proof fn lemma_symbol_injective(d1: u8, d2: u8, url: bool)
    requires
        d1 < 64,
        d2 < 64,
        b64_symbol(d1, url) == b64_symbol(d2, url),
    ensures
        d1 == d2,
{
}

proof fn lemma_symbol_not_pad(d: u8, url: bool)
    requires
        d < 64,
    ensures
        b64_symbol(d, url) != b64_pad(),
{
}

/// Every symbol of an encoding is printable ASCII: neither whitespace nor
/// beyond 0x7f.
pub proof fn lemma_encode_ascii(b: Seq<u8>, url: bool, pad: bool)
    ensures
        forall|i: int|
            0 <= i < b64_encode(b, url, pad).len() ==> 0x21 <= #[trigger] b64_encode(
                b,
                url,
                pad,
            )[i] <= 0x7a,
    decreases b.len(),
{
    let e = b64_encode(b, url, pad);
    if b.len() > 0 {
        lemma_encode_shape(b, url, pad);
        lemma_sixbits(b[0], byte_or_zero(b, 1), byte_or_zero(b, 2));
        lemma_encode_len(b, url, pad);
        if b.len() >= 3 {
            let rest = b.subrange(3, b.len() as int);
            lemma_encode_ascii(rest, url, pad);
            assert forall|i: int| 0 <= i < e.len() implies 0x21 <= #[trigger] e[i] <= 0x7a by {
                if i >= 4 {
                    assert(e[i] == e.subrange(4, e.len() as int)[i - 4]);
                }
            }
        }
    }
}

/// The number of symbols in the encoding of `n` bytes.
pub open spec fn b64_encoded_len(n: nat, pad: bool) -> nat {
    if pad {
        ((n + 2) / 3) * 4
    } else if n % 3 == 0 {
        (n / 3) * 4
    } else {
        (n / 3) * 4 + n % 3 + 1
    }
}

/// The encoding has a symbol count fixed by the input length.
pub proof fn lemma_encode_len(b: Seq<u8>, url: bool, pad: bool)
    ensures
        b64_encode(b, url, pad).len() == b64_encoded_len(b.len(), pad),
    decreases b.len(),
{
    if b.len() >= 3 {
        lemma_encode_len(b.subrange(3, b.len() as int), url, pad);
    }
}

proof fn lemma_group_injective(x0: u8, x1: u8, x2: u8, y0: u8, y1: u8, y2: u8, n: int)
    requires
        1 <= n <= 3,
        n < 2 ==> x1 == 0 && y1 == 0,
        n < 3 ==> x2 == 0 && y2 == 0,
        x0 >> 2 == y0 >> 2,
        ((x0 & 3) << 4) | (x1 >> 4) == ((y0 & 3) << 4) | (y1 >> 4),
        n >= 2 ==> ((x1 & 15) << 2) | (x2 >> 6) == ((y1 & 15) << 2) | (y2 >> 6),
        n >= 3 ==> x2 & 63 == y2 & 63,
    ensures
        x0 == y0 && x1 == y1 && x2 == y2,
{
    if n == 1 {
        assert(x0 >> 2 == y0 >> 2 && ((x0 & 3) << 4) | (x1 >> 4) == ((y0 & 3) << 4) | (y1 >> 4)
            ==> x0 == y0) by (bit_vector)
            requires
                x1 == 0 && y1 == 0,
        ;
    } else if n == 2 {
        assert(x0 >> 2 == y0 >> 2 && ((x0 & 3) << 4) | (x1 >> 4) == ((y0 & 3) << 4) | (y1 >> 4)
            && ((x1 & 15) << 2) | (x2 >> 6) == ((y1 & 15) << 2) | (y2 >> 6) ==> x0 == y0 && x1
            == y1) by (bit_vector)
            requires
                x2 == 0 && y2 == 0,
        ;
    } else {
        assert(x0 >> 2 == y0 >> 2 && ((x0 & 3) << 4) | (x1 >> 4) == ((y0 & 3) << 4) | (y1 >> 4)
            && ((x1 & 15) << 2) | (x2 >> 6) == ((y1 & 15) << 2) | (y2 >> 6) && x2 & 63 == y2 & 63
            ==> x0 == y0 && x1 == y1 && x2 == y2) by (bit_vector);
    }
}

proof fn lemma_sixbits(x0: u8, x1: u8, x2: u8)
    ensures
        x0 >> 2 < 64,
        ((x0 & 3) << 4) | (x1 >> 4) < 64,
        ((x1 & 15) << 2) | (x2 >> 6) < 64,
        x2 & 63 < 64,
{
    assert(x0 >> 2 < 64 && ((x0 & 3) << 4) | (x1 >> 4) < 64 && ((x1 & 15) << 2) | (x2 >> 6) < 64
        && x2 & 63 < 64) by (bit_vector);
}

/// The byte at `i`, or zero past the end.
pub open spec fn byte_or_zero(b: Seq<u8>, i: int) -> u8 {
    if i < b.len() {
        b[i]
    } else {
        0
    }
}

/// The first symbols of an encoding, written uniformly for the three sizes
/// of the first group.
proof fn lemma_encode_shape(b: Seq<u8>, url: bool, pad: bool)
    requires
        b.len() >= 1,
    ensures
        ({
            let e = b64_encode(b, url, pad);
            let x0 = b[0];
            let x1 = byte_or_zero(b, 1);
            let x2 = byte_or_zero(b, 2);
            &&& e.len() >= 2
            &&& e[0] == b64_symbol(x0 >> 2, url)
            &&& e[1] == b64_symbol(((x0 & 3) << 4) | (x1 >> 4), url)
            &&& b.len() >= 2 ==> e[2] == b64_symbol(((x1 & 15) << 2) | (x2 >> 6), url)
            &&& b.len() >= 3 ==> e[3] == b64_symbol(x2 & 63, url)
            &&& (pad && b.len() == 1) ==> e.len() == 4 && e[2] == b64_pad() && e[3] == b64_pad()
            &&& (pad && b.len() == 2) ==> e.len() == 4 && e[3] == b64_pad()
            &&& (!pad && b.len() <= 2) ==> e.len() == b.len() + 1
            &&& b.len() >= 3 ==> e.len() >= 4 && e.subrange(4, e.len() as int) == b64_encode(
                b.subrange(3, b.len() as int),
                url,
                pad,
            )
        }),
{
    let e = b64_encode(b, url, pad);
    let x0 = b[0];
    let x1 = byte_or_zero(b, 1);
    let x2 = byte_or_zero(b, 2);
    if b.len() == 1 {
        assert(x1 == 0);
        assert(((x0 & 3) << 4) | (x1 >> 4) == (x0 & 3) << 4) by (bit_vector)
            requires
                x1 == 0,
        ;
    } else if b.len() == 2 {
        assert(x2 == 0);
        assert(((x1 & 15) << 2) | (x2 >> 6) == (x1 & 15) << 2) by (bit_vector)
            requires
                x2 == 0,
        ;
    } else {
        let s4 = seq![
            b64_symbol(x0 >> 2, url),
            b64_symbol(((x0 & 3) << 4) | (x1 >> 4), url),
            b64_symbol(((x1 & 15) << 2) | (x2 >> 6), url),
            b64_symbol(x2 & 63, url),
        ];
        let rest = b64_encode(b.subrange(3, b.len() as int), url, pad);
        assert(e == s4 + rest);
        assert(e.subrange(4, e.len() as int) =~= rest);
    }
}

/// Distinct byte strings have distinct encodings.
pub proof fn lemma_encode_injective(a: Seq<u8>, b: Seq<u8>, url: bool, pad: bool)
    requires
        b64_encode(a, url, pad) == b64_encode(b, url, pad),
    ensures
        a == b,
    decreases a.len(),
{
    let e = b64_encode(a, url, pad);
    lemma_encode_len(a, url, pad);
    lemma_encode_len(b, url, pad);
    if a.len() == 0 || b.len() == 0 {
        assert(a.len() == 0 && b.len() == 0);
        assert(a =~= b);
        return ;
    }
    lemma_encode_shape(a, url, pad);
    lemma_encode_shape(b, url, pad);
    let x0 = a[0];
    let y0 = b[0];
    let x1 = byte_or_zero(a, 1);
    let y1 = byte_or_zero(b, 1);
    let x2 = byte_or_zero(a, 2);
    let y2 = byte_or_zero(b, 2);
    lemma_sixbits(x0, x1, x2);
    lemma_sixbits(y0, y1, y2);
    // the symbol count, or else the padding, tells how many bytes the
    // first group carries
    if a.len() != b.len() && (a.len() <= 2 || b.len() <= 2) {
        if pad {
            if a.len() == 1 {
                lemma_symbol_not_pad(((y1 & 15) << 2) | (y2 >> 6), url);
            } else if b.len() == 1 {
                lemma_symbol_not_pad(((x1 & 15) << 2) | (x2 >> 6), url);
            } else if a.len() == 2 {
                lemma_symbol_not_pad(y2 & 63, url);
            } else {
                lemma_symbol_not_pad(x2 & 63, url);
            }
        }
        assert(false);
    }
    let n: int = if a.len() >= 3 { 3 } else { a.len() as int };
    lemma_symbol_injective(x0 >> 2, y0 >> 2, url);
    lemma_symbol_injective(((x0 & 3) << 4) | (x1 >> 4), ((y0 & 3) << 4) | (y1 >> 4), url);
    if n >= 2 {
        lemma_symbol_injective(((x1 & 15) << 2) | (x2 >> 6), ((y1 & 15) << 2) | (y2 >> 6), url);
    }
    if n >= 3 {
        lemma_symbol_injective(x2 & 63, y2 & 63, url);
    }
    lemma_group_injective(x0, x1, x2, y0, y1, y2, n);
    if n < 3 {
        assert(a =~= b);
    } else {
        let ra = a.subrange(3, a.len() as int);
        let rb = b.subrange(3, b.len() as int);
        lemma_encode_injective(ra, rb, url, pad);
        assert(a =~= seq![x0, x1, x2] + ra);
        assert(b =~= seq![y0, y1, y2] + rb);
    }
}

/// `STANDARD.encode`: the standard padded Base64 text of `b`. The crate
/// sizes its output buffer with checked arithmetic and panics when the
/// encoded length overflows `usize`; the bound below excludes that.
#[verifier::external_body]
pub(crate) fn standard_encode(b: &[u8]) -> (r: String)
    requires
        b@.len() <= usize::MAX / 2,
    ensures
        r@ == ascii_chars(b64_standard(b@)),
{
    base64::engine::general_purpose::STANDARD.encode(b)
}

/// `STANDARD.decode`. The engine requires canonical padding and zero
/// trailing bits, so it accepts exactly the standard encodings of byte
/// strings and gives back the bytes encoded.
#[verifier::external_body]
pub(crate) fn standard_decode(s: &[u8]) -> (r: Result<Vec<u8>, base64::DecodeError>)
    ensures
        match r {
            Ok(v) => b64_standard(v@) == s@,
            Err(_) => !exists|w: Seq<u8>| b64_standard(w) == s@,
        },
{
    base64::engine::general_purpose::STANDARD.decode(s)
}

/// `URL_SAFE_NO_PAD.decode`. The engine rejects padding and nonzero
/// trailing bits, so it accepts exactly the unpadded URL-safe encodings of
/// byte strings and gives back the bytes encoded.
#[verifier::external_body]
pub(crate) fn url_safe_no_pad_decode(s: &[u8]) -> (r: Result<Vec<u8>, base64::DecodeError>)
    ensures
        match r {
            Ok(v) => b64_url_no_pad(v@) == s@,
            Err(_) => !exists|w: Seq<u8>| b64_url_no_pad(w) == s@,
        },
{
    base64::engine::general_purpose::URL_SAFE_NO_PAD.decode(s)
}

} // verus!
