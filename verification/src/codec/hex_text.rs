//! Hexadecimal text: the spaced lowercase form the codec writes, the
//! digit pairs the `hex` crate reads, and the proof that one gives back
//! the other.
use crate::text::{hex_lower, hex_lower_char, is_white_space, push_char, trim_end_ws, trim_start_ws, trim_ws};
use vstd::prelude::*;
use vstd::utf8::*;

verus! {

/// The `hex` crate's decoding error.
#[verifier::external_type_specification]
#[verifier::external_body]
pub struct ExFromHexError(hex::FromHexError);

/// The value of a hexadecimal digit byte (`0-9`, `a-f`, `A-F`), or -1.
pub open spec fn hex_value(c: u8) -> int {
    if 48 <= c <= 57 {
        c - 48
    } else if 65 <= c <= 70 {
        c - 55
    } else if 97 <= c <= 102 {
        c - 87
    } else {
        -1
    }
}

/// An even number of hexadecimal digit bytes.
pub open spec fn hex_valid(b: Seq<u8>) -> bool {
    &&& b.len() % 2 == 0
    &&& forall|i: int| 0 <= i < b.len() ==> hex_value(#[trigger] b[i]) >= 0
}

/// The bytes that consecutive digit pairs stand for, high digit first.
pub open spec fn hex_decoded(b: Seq<u8>) -> Seq<u8> {
    Seq::new(b.len() / 2, |i: int| (hex_value(b[2 * i]) * 16 + hex_value(b[2 * i + 1])) as u8)
}

/// `hex::decode`: rejects an odd length or any byte that is not a hex
/// digit, and otherwise reads each pair of digits as one byte.
#[verifier::external_body]
pub(crate) fn hex_decode(s: &[u8]) -> (r: Result<Vec<u8>, hex::FromHexError>)
    ensures
        r is Ok <==> hex_valid(s@),
        r matches Ok(v) ==> v@ == hex_decoded(s@),
{
    hex::decode(s)
}

/// The two lowercase digits of a byte.
pub open spec fn hex_pair(b: u8) -> Seq<char> {
    seq![hex_lower((b / 16) as nat), hex_lower((b % 16) as nat)]
}

/// Each byte as two lowercase digits, the pairs separated by one space:
/// `[0x48, 0x69]` is `"48 69"`.
pub open spec fn hex_spaced(b: Seq<u8>) -> Seq<char>
    decreases b.len(),
{
    if b.len() == 0 {
        seq![]
    } else if b.len() == 1 {
        hex_pair(b[0])
    } else {
        hex_spaced(b.drop_last()).push(' ') + hex_pair(b.last())
    }
}

/// Each byte as two lowercase digits, without separators.
pub open spec fn hex_plain(b: Seq<u8>) -> Seq<char> {
    Seq::new(
        2 * b.len(),
        |i: int|
            if i % 2 == 0 {
                hex_lower((b[i / 2] / 16) as nat)
            } else {
                hex_lower((b[i / 2] % 16) as nat)
            },
    )
}

/// `s` with every space removed.
pub open spec fn without_spaces(s: Seq<char>) -> Seq<char>
    decreases s.len(),
{
    if s.len() == 0 {
        s
    } else if s.last() == ' ' {
        without_spaces(s.drop_last())
    } else {
        without_spaces(s.drop_last()).push(s.last())
    }
}

/// The bytes that the hex decoder reads for a tool string: the UTF-8
/// bytes of the string trimmed of surrounding whitespace and stripped of
/// all spaces.
pub open spec fn hex_input_bytes(s: Seq<char>) -> Seq<u8> {
    encode_utf8(without_spaces(trim_ws(s)))
}

/// The text with every space removed.
pub fn remove_spaces(v: &Vec<char>) -> (r: Vec<char>)
    ensures
        r@ == without_spaces(v@),
{
    let mut r: Vec<char> = Vec::new();
    let mut i: usize = 0;
    while i < v.len()
        invariant
            i <= v.len(),
            r@ == without_spaces(v@.take(i as int)),
        decreases v.len() - i,
    {
        assert(v@.take(i + 1).drop_last() =~= v@.take(i as int));
        if v[i] != ' ' {
            r.push(v[i]);
        }
        i = i + 1;
    }
    assert(v@.take(v.len() as int) =~= v@);
    r
}

/// The spaced lowercase hex text of `bytes`.
pub fn encode_hex_spaced(bytes: &[u8]) -> (s: String)
    ensures
        s@ == hex_spaced(bytes@),
{
    let mut s = String::new();
    let mut i: usize = 0;
    while i < bytes.len()
        invariant
            i <= bytes.len(),
            s@ == hex_spaced(bytes@.take(i as int)),
        decreases bytes.len() - i,
    {
        let b = bytes[i];
        assert(bytes@.take(i + 1).drop_last() =~= bytes@.take(i as int));
        if i > 0 {
            push_char(&mut s, ' ');
        }
        push_char(&mut s, hex_lower_char(b / 16));
        push_char(&mut s, hex_lower_char(b % 16));
        assert(s@ =~= hex_spaced(bytes@.take(i + 1)));
        i = i + 1;
    }
    assert(bytes@.take(bytes.len() as int) =~= bytes@);
    s
}

proof fn lemma_without_spaces_concat(s: Seq<char>, t: Seq<char>)
    ensures
        without_spaces(s + t) == without_spaces(s) + without_spaces(t),
    decreases t.len(),
{
    if t.len() == 0 {
        assert(s + t =~= s);
        assert(without_spaces(s) + without_spaces(t) =~= without_spaces(s));
    } else {
        lemma_without_spaces_concat(s, t.drop_last());
        assert((s + t).drop_last() =~= s + t.drop_last());
        assert((s + t).last() == t.last());
        if t.last() != ' ' {
            assert(without_spaces(s) + without_spaces(t) =~= (without_spaces(s) + without_spaces(
                t.drop_last(),
            )).push(t.last()));
        }
    }
}

proof fn lemma_hex_lower_ascii(d: nat)
    requires
        d < 16,
    ensures
        (hex_lower(d) as u32) < 0x80,
        hex_lower(d) != ' ',
        !is_white_space(hex_lower(d)),
        hex_value(hex_lower(d) as u8) == d,
{
}

proof fn lemma_spaced_without_spaces(b: Seq<u8>)
    ensures
        without_spaces(hex_spaced(b)) == hex_plain(b),
    decreases b.len(),
{
    if b.len() == 0 {
        assert(hex_plain(b) =~= seq![]);
    } else if b.len() == 1 {
        lemma_hex_lower_ascii((b[0] / 16) as nat);
        lemma_hex_lower_ascii((b[0] % 16) as nat);
        let p = hex_pair(b[0]);
        let q = p.drop_last();
        assert(q.drop_last() =~= Seq::<char>::empty());
        assert(without_spaces(q.drop_last()) == Seq::<char>::empty());
        assert(q.last() == p[0]);
        assert(without_spaces(q) =~= seq![p[0]]);
        assert(hex_plain(b) =~= p);
    } else {
        let init = b.drop_last();
        let last = b.last();
        lemma_spaced_without_spaces(init);
        lemma_hex_lower_ascii((last / 16) as nat);
        lemma_hex_lower_ascii((last % 16) as nat);
        let p = hex_pair(last);
        lemma_without_spaces_concat(hex_spaced(init).push(' '), p);
        assert(hex_spaced(init).push(' ').drop_last() =~= hex_spaced(init));
        assert(without_spaces(hex_spaced(init).push(' ')) == without_spaces(hex_spaced(init)));
        let q = p.drop_last();
        assert(q.drop_last() =~= Seq::<char>::empty());
        assert(without_spaces(q.drop_last()) == Seq::<char>::empty());
        assert(q.last() == p[0]);
        assert(without_spaces(q) =~= seq![p[0]]);
        assert(without_spaces(p) =~= p);
        assert(hex_plain(b) =~= hex_plain(init) + p);
    }
}

proof fn lemma_spaced_ends(b: Seq<u8>)
    requires
        b.len() > 0,
    ensures
        hex_spaced(b).len() > 0,
        !is_white_space(hex_spaced(b)[0]),
        !is_white_space(hex_spaced(b).last()),
    decreases b.len(),
{
    lemma_hex_lower_ascii((b.last() / 16) as nat);
    lemma_hex_lower_ascii((b.last() % 16) as nat);
    if b.len() > 1 {
        lemma_spaced_ends(b.drop_last());
        let s = hex_spaced(b.drop_last()).push(' ');
        assert((s + hex_pair(b.last()))[0] == s[0]);
    } else {
        lemma_hex_lower_ascii((b[0] / 16) as nat);
    }
}

proof fn lemma_plain_ascii(b: Seq<u8>)
    ensures
        is_ascii_chars(hex_plain(b)),
        encode_utf8(hex_plain(b)) == Seq::new(hex_plain(b).len(), |i: int| hex_plain(b)[i] as u8),
{
    let p = hex_plain(b);
    assert forall|i: int| 0 <= i < p.len() implies (#[trigger] p[i] as u32) < 0x80 by {
        lemma_hex_lower_ascii((b[i / 2] / 16) as nat);
        lemma_hex_lower_ascii((b[i / 2] % 16) as nat);
    }
    assert(is_ascii_chars(p));
    is_ascii_chars_encode_utf8(p);
}

/// Reading back the spaced hex text of `b` gives `b`.
pub proof fn lemma_hex_roundtrip(b: Seq<u8>)
    ensures
        hex_valid(hex_input_bytes(hex_spaced(b))),
        hex_decoded(hex_input_bytes(hex_spaced(b))) == b,
{
    let s = hex_spaced(b);
    if b.len() > 0 {
        lemma_spaced_ends(b);
    }
    assert(trim_start_ws(s) == s);
    assert(trim_end_ws(s) == s);
    lemma_spaced_without_spaces(b);
    lemma_plain_ascii(b);
    let bytes = hex_input_bytes(s);
    let p = hex_plain(b);
    assert(bytes == Seq::new(p.len(), |i: int| p[i] as u8));
    assert forall|i: int| 0 <= i < bytes.len() implies hex_value(#[trigger] bytes[i]) >= 0 by {
        lemma_hex_lower_ascii((b[i / 2] / 16) as nat);
        lemma_hex_lower_ascii((b[i / 2] % 16) as nat);
    }
    assert forall|i: int| 0 <= i < b.len() implies #[trigger] hex_decoded(bytes)[i] == b[i] by {
        lemma_hex_lower_ascii((b[i] / 16) as nat);
        lemma_hex_lower_ascii((b[i] % 16) as nat);
        assert((2 * i) / 2 == i);
        assert((2 * i + 1) / 2 == i);
        assert((2 * i) % 2 == 0);
        assert((2 * i + 1) % 2 == 1);
    }
    assert(hex_decoded(bytes) =~= b);
}

} // verus!
