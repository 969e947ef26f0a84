//! Character-level helpers shared by the codec, the allowlist, the URI
//! parser and the message builders.
use vstd::prelude::*;
use vstd::string::*;
use vstd::utf8::is_ascii_chars;

verus! {

/// Appends one character to a `String` (`String::push`).
#[verifier::external_body]
pub(crate) fn push_char(s: &mut String, c: char)
    ensures
        final(s)@ == old(s)@.push(c),
{
    s.push(c);
}

/// Appends a string slice to a `String`.
pub(crate) fn push_str(s: &mut String, t: &str)
    ensures
        final(s)@ == old(s)@ + t@,
{
    s.append(t);
}

/// The characters of a string slice, in order.
pub fn chars_of(s: &str) -> (v: Vec<char>)
    ensures
        v@ == s@,
{
    let mut v: Vec<char> = Vec::new();
    for c in it: s.chars()
        invariant
            v@ == it.seq().take(it.index() as int),
    {
        v.push(c);
    }
    v
}

/// The string made of the given characters.
pub fn string_of(v: &Vec<char>) -> (s: String)
    ensures
        s@ == v@,
{
    let mut s = String::new();
    let mut i: usize = 0;
    while i < v.len()
        invariant
            i <= v.len(),
            s@ == v@.take(i as int),
        decreases v.len() - i,
    {
        push_char(&mut s, v[i]);
        assert(v@.take(i + 1) =~= v@.take(i as int).push(v@[i as int]));
        i = i + 1;
    }
    assert(v@.take(v.len() as int) =~= v@);
    s
}

/// Whether two character sequences are equal.
pub fn chars_eq(a: &Vec<char>, b: &Vec<char>) -> (r: bool)
    ensures
        r == (a@ == b@),
{
    if a.len() != b.len() {
        return false;
    }
    let mut i: usize = 0;
    while i < a.len()
        invariant
            a.len() == b.len(),
            i <= a.len(),
            forall|k: int| 0 <= k < i ==> a@[k] == b@[k],
        decreases a.len() - i,
    {
        if a[i] != b[i] {
            return false;
        }
        i = i + 1;
    }
    assert(a@ =~= b@);
    true
}

/// Whether a character sequence equals the characters of a string slice.
pub fn chars_eq_str(a: &Vec<char>, s: &str) -> (r: bool)
    ensures
        r == (a@ == s@),
{
    let b = chars_of(s);
    chars_eq(a, &b)
}

/// Whether `p` is a prefix of `v`.
pub fn chars_start_with(v: &Vec<char>, p: &Vec<char>) -> (r: bool)
    ensures
        r == p@.is_prefix_of(v@),
{
    if p.len() > v.len() {
        return false;
    }
    let mut i: usize = 0;
    while i < p.len()
        invariant
            p@.len() <= v@.len(),
            i <= p@.len(),
            forall|k: int| 0 <= k < i ==> p@[k] == v@[k],
        decreases p@.len() - i,
    {
        if p[i] != v[i] {
            return false;
        }
        i = i + 1;
    }
    true
}

/// Whether `c` occurs in `v`.
pub fn chars_contain(v: &Vec<char>, c: char) -> (r: bool)
    ensures
        r == v@.contains(c),
{
    let mut i: usize = 0;
    while i < v.len()
        invariant
            i <= v.len(),
            forall|k: int| 0 <= k < i ==> v@[k] != c,
        decreases v.len() - i,
    {
        if v[i] == c {
            assert(v@[i as int] == c);
            return true;
        }
        i = i + 1;
    }
    false
}

/// The characters `v[from..to]`.
pub fn chars_slice(v: &Vec<char>, from: usize, to: usize) -> (r: Vec<char>)
    requires
        from <= to <= v.len(),
    ensures
        r@ == v@.subrange(from as int, to as int),
{
    let mut r: Vec<char> = Vec::new();
    let mut i: usize = from;
    while i < to
        invariant
            from <= i <= to <= v.len(),
            r@ == v@.subrange(from as int, i as int),
        decreases to - i,
    {
        r.push(v[i]);
        assert(v@.subrange(from as int, i + 1) =~= v@.subrange(from as int, i as int).push(
            v@[i as int],
        ));
        i = i + 1;
    }
    r
}

// ---- Decimal numbers --------------------------------------------------------

/// The ASCII digit for `d` (`d < 10`).
pub open spec fn digit_char(d: nat) -> char {
    (48 + d) as char
}

/// The decimal representation of `n`, without sign or leading zeros, as
/// `Display` writes an unsigned integer.
pub open spec fn decimal(n: nat) -> Seq<char>
    decreases n,
{
    if n < 10 {
        seq![digit_char(n)]
    } else {
        decimal(n / 10).push(digit_char(n % 10))
    }
}

fn digit(d: u64) -> (c: char)
    requires
        d < 10,
    ensures
        c == digit_char(d as nat),
{
    let b: u8 = 48u8 + (d as u8);
    b as char
}

/// The decimal representation of `n`.
pub fn u64_decimal(n: u64) -> (s: String)
    ensures
        s@ == decimal(n as nat),
{
    let mut rev: Vec<char> = Vec::new();
    let mut m: u64 = n;
    while m >= 10
        invariant
            decimal(n as nat) == decimal(m as nat) + rev@.reverse(),
        decreases m,
    {
        let d = m % 10;
        let ghost old_rev = rev@;
        rev.push(digit(d));
        assert(decimal(m as nat) == decimal((m / 10) as nat).push(digit_char(d as nat)));
        assert(rev@.reverse() =~= seq![digit_char(d as nat)] + old_rev.reverse());
        m = m / 10;
    }
    let mut s = String::new();
    push_char(&mut s, digit(m));
    assert(s@ =~= decimal(m as nat));
    let mut i: usize = rev.len();
    while i > 0
        invariant
            i <= rev.len(),
            decimal(n as nat) == decimal(m as nat) + rev@.reverse(),
            s@ == decimal(m as nat) + rev@.subrange(i as int, rev.len() as int).reverse(),
        decreases i,
    {
        i = i - 1;
        let ghost before = s@;
        push_char(&mut s, rev[i]);
        assert(rev@.subrange(i as int, rev.len() as int).reverse() =~= rev@.subrange(
            i + 1,
            rev.len() as int,
        ).reverse().push(rev@[i as int]));
    }
    assert(rev@.subrange(0, rev.len() as int) =~= rev@);
    s
}

/// The decimal representation of `n`.
pub fn usize_decimal(n: usize) -> (s: String)
    ensures
        s@ == decimal(n as nat),
{
    u64_decimal(n as u64)
}

// ---- Hexadecimal digits -----------------------------------------------------

/// Lowercase hexadecimal digit for `d < 16`.
pub open spec fn hex_lower(d: nat) -> char {
    if d < 10 {
        (48 + d) as char
    } else {
        (87 + d) as char
    }
}

/// Uppercase hexadecimal digit for `d < 16`.
pub open spec fn hex_upper(d: nat) -> char {
    if d < 10 {
        (48 + d) as char
    } else {
        (55 + d) as char
    }
}

pub fn hex_lower_char(d: u8) -> (c: char)
    requires
        d < 16,
    ensures
        c == hex_lower(d as nat),
{
    if d < 10 {
        (48u8 + d) as char
    } else {
        (87u8 + d) as char
    }
}

pub fn hex_upper_char(d: u8) -> (c: char)
    requires
        d < 16,
    ensures
        c == hex_upper(d as nat),
{
    if d < 10 {
        (48u8 + d) as char
    } else {
        (55u8 + d) as char
    }
}

// ---- Whitespace ---------------------------------------------------------------

/// The Unicode `White_Space` property, which `char::is_whitespace` tests.
pub open spec fn is_white_space(c: char) -> bool {
    let u = c as u32;
    (0x09 <= u <= 0x0d) || u == 0x20 || u == 0x85 || u == 0xa0 || u == 0x1680 || (0x2000 <= u
        <= 0x200a) || u == 0x2028 || u == 0x2029 || u == 0x202f || u == 0x205f || u == 0x3000
}

/// Whether `c` has the Unicode `White_Space` property, as
/// `char::is_whitespace` tests it.
pub(crate) fn char_is_whitespace(c: char) -> (b: bool)
    ensures
        b == is_white_space(c),
{
    let u = c as u32;
    (0x09 <= u && u <= 0x0d) || u == 0x20 || u == 0x85 || u == 0xa0 || u == 0x1680 || (0x2000 <= u
        && u <= 0x200a) || u == 0x2028 || u == 0x2029 || u == 0x202f || u == 0x205f || u == 0x3000
}

/// `s` without its leading whitespace.
pub open spec fn trim_start_ws(s: Seq<char>) -> Seq<char>
    decreases s.len(),
{
    if s.len() > 0 && is_white_space(s[0]) {
        trim_start_ws(s.drop_first())
    } else {
        s
    }
}

/// `s` without its trailing whitespace.
pub open spec fn trim_end_ws(s: Seq<char>) -> Seq<char>
    decreases s.len(),
{
    if s.len() > 0 && is_white_space(s.last()) {
        trim_end_ws(s.drop_last())
    } else {
        s
    }
}

/// `s` without leading and trailing whitespace, as `str::trim` returns it.
pub open spec fn trim_ws(s: Seq<char>) -> Seq<char> {
    trim_end_ws(trim_start_ws(s))
}

/// Whether every character is whitespace.
pub open spec fn all_white_space(w: Seq<char>) -> bool {
    forall|i: int| 0 <= i < w.len() ==> is_white_space(#[trigger] w[i])
}

proof fn lemma_trim_start_ws_prefix(w: Seq<char>, x: Seq<char>)
    requires
        all_white_space(w),
    ensures
        trim_start_ws(w + x) == trim_start_ws(x),
    decreases w.len(),
{
    if w.len() == 0 {
        assert(w + x =~= x);
    } else {
        assert((w + x)[0] == w[0]);
        assert((w + x).drop_first() =~= w.drop_first() + x);
        lemma_trim_start_ws_prefix(w.drop_first(), x);
    }
}

proof fn lemma_trim_end_ws_suffix(y: Seq<char>, w: Seq<char>)
    requires
        all_white_space(w),
    ensures
        trim_end_ws(y + w) == trim_end_ws(y),
    decreases w.len(),
{
    if w.len() == 0 {
        assert(y + w =~= y);
    } else {
        assert((y + w).last() == w.last());
        assert((y + w).drop_last() =~= y + w.drop_last());
        lemma_trim_end_ws_suffix(y, w.drop_last());
    }
}

proof fn lemma_trim_start_ws_concat(x: Seq<char>, y: Seq<char>)
    ensures
        trim_start_ws(x + y) == if trim_start_ws(x).len() > 0 {
            trim_start_ws(x) + y
        } else {
            trim_start_ws(y)
        },
    decreases x.len(),
{
    if x.len() == 0 {
        assert(x + y =~= y);
    } else if is_white_space(x[0]) {
        assert((x + y)[0] == x[0]);
        assert((x + y).drop_first() =~= x.drop_first() + y);
        lemma_trim_start_ws_concat(x.drop_first(), y);
    } else {
        assert((x + y)[0] == x[0]);
    }
}

/// Whitespace around a text changes nothing that `trim_ws` keeps: `str::trim`
/// of `w1 + s + w2` is `str::trim` of `s` for whitespace `w1` and `w2`.
pub proof fn law_trim_ignores_surrounding_white_space(w1: Seq<char>, s: Seq<char>, w2: Seq<char>)
    requires
        all_white_space(w1),
        all_white_space(w2),
    ensures
        trim_ws(w1 + s + w2) == trim_ws(s),
{
    assert(w1 + s + w2 =~= w1 + (s + w2));
    lemma_trim_start_ws_prefix(w1, s + w2);
    lemma_trim_start_ws_concat(s, w2);
    if trim_start_ws(s).len() > 0 {
        lemma_trim_end_ws_suffix(trim_start_ws(s), w2);
    } else {
        lemma_trim_start_ws_prefix(w2, Seq::<char>::empty());
        assert(w2 + Seq::<char>::empty() =~= w2);
    }
}

/// `v` without leading and trailing whitespace.
pub fn trim_chars(v: &Vec<char>) -> (r: Vec<char>)
    ensures
        r@ == trim_ws(v@),
{
    let len = v.len();
    let mut i: usize = 0;
    assert(v@.subrange(0, len as int) =~= v@);
    while i < len && char_is_whitespace(v[i])
        invariant
            len == v.len(),
            i <= len,
            trim_start_ws(v@) == trim_start_ws(v@.subrange(i as int, len as int)),
        decreases len - i,
    {
        assert(v@.subrange(i as int, len as int).drop_first() =~= v@.subrange(
            i + 1,
            len as int,
        ));
        i = i + 1;
    }
    assert(trim_start_ws(v@) == v@.subrange(i as int, len as int));
    let mut j: usize = len;
    while j > i && char_is_whitespace(v[j - 1])
        invariant
            len == v.len(),
            i <= j <= len,
            trim_start_ws(v@) == v@.subrange(i as int, len as int),
            trim_ws(v@) == trim_end_ws(v@.subrange(i as int, j as int)),
        decreases j,
    {
        assert(v@.subrange(i as int, j as int).drop_last() =~= v@.subrange(
            i as int,
            j - 1,
        ));
        j = j - 1;
    }
    assert(trim_ws(v@) == v@.subrange(i as int, j as int));
    chars_slice(v, i, j)
}

// ---- Case and quoting, as std computes them ---------------------------------

/// What `str::to_lowercase` returns for a string with these characters
/// (Unicode lowercase mapping).
pub uninterp spec fn lowercase(s: Seq<char>) -> Seq<char>;

/// ASCII letters `A-Z` mapped to `a-z`, every other character kept.
pub open spec fn ascii_lowercase(s: Seq<char>) -> Seq<char> {
    Seq::new(
        s.len(),
        |i: int|
            if 65 <= (s[i] as u32) <= 90 {
                ((s[i] as u32) + 32) as char
            } else {
                s[i]
            },
    )
}

/// `str::to_lowercase`. Its result is named `lowercase`; on an ASCII
/// string the Unicode mapping is the ASCII one, which the second clause
/// states.
#[verifier::external_body]
pub(crate) fn to_lowercase(s: &str) -> (r: String)
    ensures
        r@ == lowercase(s@),
        is_ascii_chars(s@) ==> r@ == ascii_lowercase(s@),
{
    s.to_lowercase()
}

/// What `{:?}` (the `Debug` format of `str`) writes for a string with these
/// characters: the text in double quotes with special characters escaped.
pub uninterp spec fn debug_quoted(s: Seq<char>) -> Seq<char>;

/// Whether every character is printable ASCII other than `"` and `\`,
/// which the `Debug` form of a string leaves as they are.
pub open spec fn debug_plain(s: Seq<char>) -> bool {
    forall|i: int| 0 <= i < s.len() ==> ' ' <= #[trigger] s[i] <= '~' && s[i] != '"' && s[i] != '\\'
}

/// The `Debug` form of a string slice, as `format!("{:?}", s)` writes it.
/// Its result is named `debug_quoted`; a string of plain characters is
/// only put in double quotes.
#[verifier::external_body]
pub(crate) fn debug_str(s: &str) -> (r: String)
    ensures
        r@ == debug_quoted(s@),
        debug_plain(s@) ==> r@ == seq!['"'] + s@ + seq!['"'],
{
    format!("{:?}", s)
}

} // verus!
