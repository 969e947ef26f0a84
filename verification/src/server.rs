//! The state and decisions of the MCP server surface that do not touch a
//! port: list pagination, resource subscription counts and the URI of a
//! connection.
use crate::codec::b64::{
    ascii_chars, b64_standard, lemma_encode_ascii, lemma_encode_injective, standard_decode,
    standard_encode,
};
use crate::codec::string_from_utf8;
use crate::resources::{URI_CONNECTION_PREFIX, URI_PORTS};
use crate::text::{chars_eq_str, chars_of, decimal, digit_char, push_str, usize_decimal};
use vstd::hash_map::StringHashMap;
use vstd::prelude::*;
use vstd::string::*;
use vstd::utf8::*;

verus! {

/// Items per page of `resources/list` and `resources/templates/list`.
pub const PAGE_SIZE: usize = 100;

// ---- Decimal offsets ----------------------------------------------------------

/// Whether every character is an ASCII digit.
pub open spec fn all_digits(s: Seq<char>) -> bool {
    forall|i: int| 0 <= i < s.len() ==> '0' <= #[trigger] s[i] <= '9'
}

/// The number that a string of ASCII digits writes.
pub open spec fn digits_value(s: Seq<char>) -> nat
    decreases s.len(),
{
    if s.len() == 0 {
        0
    } else {
        digits_value(s.drop_last()) * 10 + ((s.last() as u32) - 48) as nat
    }
}

/// What `str::parse::<usize>` gives: an optional `+` followed by at least
/// one ASCII digit, with a value that fits in `usize`.
pub open spec fn parsed_usize(s: Seq<char>) -> Option<nat> {
    let d = if s.len() > 0 && s[0] == '+' {
        s.drop_first()
    } else {
        s
    };
    if d.len() > 0 && all_digits(d) && digits_value(d) <= usize::MAX {
        Some(digits_value(d))
    } else {
        None
    }
}

/// Parses an unsigned decimal number as `str::parse::<usize>` does.
pub fn parse_usize(s: &str) -> (r: Option<usize>)
    ensures
        match r {
            Some(n) => parsed_usize(s@) == Some(n as nat),
            None => parsed_usize(s@) is None,
        },
{
    let v = chars_of(s);
    let start: usize = if v.len() > 0 && v[0] == '+' {
        1
    } else {
        0
    };
    let ghost d = if v@.len() > 0 && v@[0] == '+' {
        v@.drop_first()
    } else {
        v@
    };
    proof {
        assert(d =~= v@.subrange(start as int, v@.len() as int));
    }
    if start >= v.len() {
        return None;
    }
    let mut value: usize = 0;
    let mut i: usize = start;
    while i < v.len()
        invariant
            v@ == s@,
            start == (if s@.len() > 0 && s@[0] == '+' { 1int } else { 0int }),
            d == (if s@.len() > 0 && s@[0] == '+' { s@.drop_first() } else { s@ }),
            start <= i <= v@.len(),
            d == v@.subrange(start as int, v@.len() as int),
            all_digits(v@.subrange(start as int, i as int)),
            value as nat == digits_value(v@.subrange(start as int, i as int)),
        decreases v@.len() - i,
    {
        let c = v[i];
        let ghost pre = v@.subrange(start as int, i as int);
        let ghost next = v@.subrange(start as int, i + 1);
        proof {
            assert(next.drop_last() =~= pre);
        }
        if c < '0' || c > '9' {
            proof {
                assert(d[i - start] == c);
                assert(!all_digits(d));
            }
            return None;
        }
        let digit = (c as u32 - 48) as usize;
        if value > (usize::MAX - digit) / 10 {
            proof {
                assert(d.subrange(0, i - start + 1) =~= next);
                assert(next.last() == c);
                assert(digits_value(next) == value * 10 + digit) by (nonlinear_arith)
                    requires
                        digits_value(next) == digits_value(pre) * 10 + digit,
                        value == digits_value(pre),
                ;
                assert(value * 10 + digit > usize::MAX) by (nonlinear_arith)
                    requires
                        value > (usize::MAX - digit) / 10,
                        digit <= 9,
                ;
                if all_digits(d) {
                    lemma_digits_monotone(d, i - start + 1);
                }
            }
            return None;
        }
        proof {
            assert(value * 10 + digit <= usize::MAX) by (nonlinear_arith)
                requires
                    value <= (usize::MAX - digit) / 10,
                    digit <= 9,
            ;
        }
        value = value * 10 + digit;
        i = i + 1;
    }
    proof {
        assert(v@.subrange(start as int, v@.len() as int) == d);
    }
    Some(value)
}

/// A longer run of digits is worth at least as much as its prefix.
proof fn lemma_digits_monotone(d: Seq<char>, k: int)
    requires
        0 <= k <= d.len(),
        all_digits(d),
    ensures
        digits_value(d.subrange(0, k)) <= digits_value(d),
    decreases d.len() - k,
{
    if k == d.len() {
        assert(d.subrange(0, k) =~= d);
    } else {
        lemma_digits_monotone(d, k + 1);
        let a = d.subrange(0, k);
        let b = d.subrange(0, k + 1);
        assert(b.drop_last() =~= a);
        assert(b.last() == d[k]);
        assert('0' <= d[k] <= '9');
        let x = digits_value(a);
        let y = ((d[k] as u32) - 48) as nat;
        assert(digits_value(b) == x * 10 + y);
        assert(x <= x * 10 + y) by (nonlinear_arith);
    }
}

/// The decimal form of a number reads back as that number.
pub proof fn lemma_decimal_parses(n: nat)
    ensures
        all_digits(decimal(n)),
        decimal(n).len() > 0,
        decimal(n)[0] != '+',
        digits_value(decimal(n)) == n,
        decimal(n).len() <= n / 10 + 1,
    decreases n,
{
    let s = decimal(n);
    if n < 10 {
        assert(s == seq![digit_char(n)]);
        assert(s.drop_last() =~= Seq::<char>::empty());
        assert(digits_value(s.drop_last()) == 0);
        assert((digit_char(n) as u32) == 48 + n);
        assert(s.last() == digit_char(n));
        assert(((s.last() as u32) - 48) as nat == n);
        assert(digits_value(s) == digits_value(s.drop_last()) * 10 + ((s.last() as u32) - 48) as nat);
    } else {
        lemma_decimal_parses(n / 10);
        let p = decimal(n / 10);
        assert(s == p.push(digit_char(n % 10)));
        assert(s.drop_last() =~= p);
        assert(s[0] == p[0]);
        assert((digit_char(n % 10) as u32) == 48 + n % 10);
        assert(s.last() == digit_char(n % 10));
        assert(((s.last() as u32) - 48) as nat == n % 10);
        assert(digits_value(s) == digits_value(s.drop_last()) * 10 + ((s.last() as u32) - 48) as nat);
        assert(digits_value(s) == digits_value(p) * 10 + n % 10);
        assert((n / 10) * 10 + n % 10 == n);
        assert(forall|i: int| 0 <= i < s.len() ==> '0' <= #[trigger] s[i] <= '9') by {
            assert forall|i: int| 0 <= i < s.len() implies '0' <= #[trigger] s[i] <= '9' by {
                if i < p.len() {
                    assert(s[i] == p[i]);
                }
            }
        }
        assert(n / 10 / 10 + 2 <= n / 10 + 1);
    }
}

// ---- Pagination ---------------------------------------------------------------

/// The offset that a pagination cursor names: the cursor is standard Base64
/// of the UTF-8 text of a decimal offset. A missing or malformed cursor
/// names offset 0.
pub open spec fn cursor_offset(cursor: Option<Seq<char>>) -> nat {
    match cursor {
        None => 0,
        Some(c) => {
            let t = encode_utf8(c);
            if exists|w: Seq<u8>| b64_standard(w) == t {
                let w = choose|w: Seq<u8>| b64_standard(w) == t;
                if valid_utf8(w) {
                    match parsed_usize(decode_utf8(w)) {
                        Some(n) => n,
                        None => 0,
                    }
                } else {
                    0
                }
            } else {
                0
            }
        },
    }
}

/// The cursor that names `offset`.
pub open spec fn cursor_for(offset: nat) -> Seq<char> {
    ascii_chars(b64_standard(encode_utf8(decimal(offset))))
}

/// The offset a pagination cursor names.
pub fn decode_cursor(cursor: Option<&str>) -> (n: usize)
    ensures
        n as nat == cursor_offset(
            match cursor {
                Some(c) => Some(c@),
                None => None,
            },
        ),
{
    let c = match cursor {
        Some(c) => c,
        None => {
            return 0;
        },
    };
    let ghost t = encode_utf8(c@);
    let bytes = match standard_decode(c.as_bytes()) {
        Ok(b) => b,
        Err(_) => {
            return 0;
        },
    };
    proof {
        let w = choose|w: Seq<u8>| b64_standard(w) == t;
        lemma_encode_injective(bytes@, w, false, true);
    }
    let text = match string_from_utf8(bytes) {
        Ok(s) => s,
        Err(_) => {
            return 0;
        },
    };
    match parse_usize(text.as_str()) {
        Some(n) => n,
        None => 0,
    }
}

/// One page of a list: the items `start..end` and, when more remain, the
/// cursor of the next page.
pub struct Page {
    pub start: usize,
    pub end: usize,
    pub next_cursor: Option<String>,
}

/// The page of `page_size` items starting at `offset` in a list of `len`
/// items. An offset past the end is refused by slicing in the server, so
/// the caller checks it first.
pub fn page_at(len: usize, offset: usize, page_size: usize) -> (p: Page)
    requires
        offset <= len,
        offset + page_size <= usize::MAX,
    ensures
        p.start == offset,
        p.end == if offset + page_size < len {
            (offset + page_size) as usize
        } else {
            len
        },
        p.end < len ==> (p.next_cursor matches Some(c) && c@ == cursor_for(p.end as nat)),
        p.end >= len ==> p.next_cursor is None,
{
    let end = if offset + page_size < len {
        offset + page_size
    } else {
        len
    };
    let next_cursor = if end < len {
        let text = usize_decimal(end);
        let bytes = text.as_str().as_bytes();
        proof {
            lemma_decimal_short(end as nat);
        }
        Some(standard_encode(bytes))
    } else {
        None
    };
    Page { start: offset, end, next_cursor }
}

/// The page of a list of `len` items that `cursor` asks for: its offset is
/// the one the cursor names, and the page holds up to `page_size` items.
/// An offset past the end is not a page of the list.
pub fn paginate(len: usize, cursor: Option<&str>, page_size: usize) -> (p: Page)
    requires
        cursor_offset(
            match cursor {
                Some(c) => Some(c@),
                None => None,
            },
        ) <= len,
        len + page_size <= usize::MAX,
    ensures
        p.start == cursor_offset(
            match cursor {
                Some(c) => Some(c@),
                None => None,
            },
        ),
        p.end == if p.start + page_size < len {
            (p.start + page_size) as usize
        } else {
            len
        },
        p.end < len ==> (p.next_cursor matches Some(c) && c@ == cursor_for(p.end as nat)),
        p.end >= len ==> p.next_cursor is None,
{
    let offset = decode_cursor(cursor);
    page_at(len, offset, page_size)
}

/// The decimal form of a `usize` is short and ASCII.
proof fn lemma_decimal_short(n: nat)
    ensures
        is_ascii_chars(decimal(n)),
        encode_utf8(decimal(n)) == Seq::new(decimal(n).len(), |i: int| decimal(n)[i] as u8),
        decimal(n).len() <= n / 10 + 1,
    decreases n,
{
    lemma_decimal_parses(n);
    let s = decimal(n);
    assert forall|i: int| 0 <= i < s.len() implies (#[trigger] s[i] as u32) < 0x80 by {
        lemma_decimal_parses(n);
    }
    is_ascii_chars_encode_utf8(s);
}

/// The cursor of the next page names the offset where that page starts.
pub proof fn law_next_cursor_names_next_offset(end: nat)
    requires
        end <= usize::MAX,
    ensures
        cursor_offset(Some(cursor_for(end))) == end,
{
    let d = decimal(end);
    let u = encode_utf8(d);
    let t = b64_standard(u);
    let c = ascii_chars(t);
    lemma_encode_ascii(u, false, true);
    assert forall|i: int| 0 <= i < c.len() implies (#[trigger] c[i] as u32) < 0x80 by {
        assert(0x21 <= t[i] <= 0x7a);
    }
    is_ascii_chars_encode_utf8(c);
    assert(encode_utf8(c) =~= t);
    assert(b64_standard(u) == encode_utf8(c));
    assert(exists|w: Seq<u8>| b64_standard(w) == encode_utf8(c));
    let w = choose|w: Seq<u8>| b64_standard(w) == encode_utf8(c);
    lemma_encode_injective(w, u, false, true);
    assert(w == u);
    encode_utf8_valid_utf8(d);
    encode_utf8_decode_utf8(d);
    lemma_decimal_parses(end);
    assert(d.len() > 0 && d[0] != '+');
    assert(parsed_usize(d) == Some(end));
}

// ---- Resource subscriptions ---------------------------------------------------

/// How many clients subscribed to each resource URI. A URI with no
/// subscriber has no entry.
pub struct ResourceSubscribers {
    counts: StringHashMap<usize>,
}

impl ResourceSubscribers {
    #[verifier::type_invariant]
    spec fn positive(self) -> bool {
        forall|k: Seq<char>| #[trigger] self.counts@.contains_key(k) ==> self.counts@[k] > 0
    }

    /// The subscriber count of each URI that has subscribers.
    pub closed spec fn counts(self) -> Map<Seq<char>, usize> {
        self.counts@
    }

    /// Every count held is positive.
    pub open spec fn counts_positive(m: Map<Seq<char>, usize>) -> bool {
        forall|k: Seq<char>| #[trigger] m.contains_key(k) ==> m[k] > 0
    }

    pub fn new() -> (s: Self)
        ensures
            s.counts() == Map::<Seq<char>, usize>::empty(),
            Self::counts_positive(s.counts()),
    {
        ResourceSubscribers { counts: StringHashMap::new() }
    }

    /// The subscriber count of `uri` (0 when it has none).
    pub fn count(&self, uri: &str) -> (n: usize)
        ensures
            n == subscriber_count(self.counts(), uri@),
            Self::counts_positive(self.counts()),
    {
        proof {
            use_type_invariant(self);
        }
        match self.counts.get(uri) {
            Some(c) => *c,
            None => 0,
        }
    }

    /// Records one more subscriber of `uri`.
    pub fn subscribe(&mut self, uri: String)
        requires
            subscriber_count(old(self).counts(), uri@) < usize::MAX,
        ensures
            final(self).counts() == after_subscribe(old(self).counts(), uri@),
            Self::counts_positive(final(self).counts()),
    {
        proof {
            use_type_invariant(&*self);
        }
        let c = self.count(uri.as_str());
        let mut counts = StringHashMap::new();
        std::mem::swap(&mut counts, &mut self.counts);
        counts.insert(uri, c + 1);
        self.counts = counts;
        proof {
            use_type_invariant(&*self);
        }
    }

    /// Records that one subscriber of `uri` left; a count that reaches zero
    /// is removed, and a URI without subscribers is left alone.
    pub fn unsubscribe(&mut self, uri: &str)
        ensures
            final(self).counts() == after_unsubscribe(old(self).counts(), uri@),
            Self::counts_positive(old(self).counts()),
            Self::counts_positive(final(self).counts()),
    {
        proof {
            use_type_invariant(&*self);
        }
        let c = self.count(uri);
        if c == 0 {
            return;
        }
        let mut counts = StringHashMap::new();
        std::mem::swap(&mut counts, &mut self.counts);
        if c - 1 == 0 {
            counts.remove(uri);
        } else {
            counts.insert(uri.to_owned(), c - 1);
        }
        self.counts = counts;
        proof {
            use_type_invariant(&*self);
        }
    }

    /// Whether a change of `uri` must be announced to subscribers.
    pub fn should_notify(&self, uri: &str) -> (b: bool)
        ensures
            b == (subscriber_count(self.counts(), uri@) > 0),
    {
        self.count(uri) > 0
    }
}

/// The subscriber count of `uri` in a map of counts (0 when absent).
pub open spec fn subscriber_count(m: Map<Seq<char>, usize>, uri: Seq<char>) -> usize {
    if m.contains_key(uri) {
        m[uri]
    } else {
        0
    }
}

/// The counts after one more subscriber of `uri`.
pub open spec fn after_subscribe(m: Map<Seq<char>, usize>, uri: Seq<char>) -> Map<Seq<char>, usize> {
    m.insert(uri, (subscriber_count(m, uri) + 1) as usize)
}

/// The counts after one subscriber of `uri` left.
pub open spec fn after_unsubscribe(m: Map<Seq<char>, usize>, uri: Seq<char>) -> Map<Seq<char>, usize> {
    let c = subscriber_count(m, uri);
    if c == 0 {
        m
    } else if c == 1 {
        m.remove(uri)
    } else {
        m.insert(uri, (c - 1) as usize)
    }
}

/// Subscribing and then unsubscribing leaves the counts as they were.
pub proof fn law_unsubscribe_undoes_subscribe(m: Map<Seq<char>, usize>, uri: Seq<char>)
    requires
        ResourceSubscribers::counts_positive(m),
        subscriber_count(m, uri) < usize::MAX,
    ensures
        after_unsubscribe(after_subscribe(m, uri), uri) == m,
{
    let c = subscriber_count(m, uri);
    if c == 0 {
        assert(after_unsubscribe(after_subscribe(m, uri), uri) =~= m);
    } else {
        assert(after_unsubscribe(after_subscribe(m, uri), uri) =~= m);
    }
}

/// A change is announced for a URI exactly while it has a subscriber.
pub proof fn law_notify_while_subscribed(m: Map<Seq<char>, usize>, uri: Seq<char>)
    requires
        subscriber_count(m, uri) < usize::MAX,
    ensures
        subscriber_count(after_subscribe(m, uri), uri) > 0,
        subscriber_count(after_unsubscribe(after_subscribe(m, uri), uri), uri) == subscriber_count(m, uri),
{
}

// ---- Completions ----------------------------------------------------------------

/// What a completion request refers to: a resource by URI or a prompt by
/// name.
pub enum CompletionRef {
    Resource(String),
    Prompt(String),
}

/// Whether a completion request is answered with the names of the available
/// ports: the `port` argument of the ports resource or of the
/// `diagnose_port` prompt. Every other request gets no suggestion.
pub fn completion_lists_ports(reference: &CompletionRef, argument: &str) -> (b: bool)
    ensures
        b == (argument@ == "port"@ && match reference {
            CompletionRef::Resource(u) => u@ == URI_PORTS@,
            CompletionRef::Prompt(n) => n@ == "diagnose_port"@,
        }),
{
    let is_port = chars_eq_str(&chars_of(argument), "port");
    match reference {
        CompletionRef::Resource(u) => is_port && chars_eq_str(&chars_of(u.as_str()), URI_PORTS),
        CompletionRef::Prompt(n) => is_port && chars_eq_str(&chars_of(n.as_str()), "diagnose_port"),
    }
}

// ---- Connection URIs ------------------------------------------------------------

/// The resource URI of a connection: `serial://connections/ID`.
pub fn connection_uri(id: &str) -> (u: String)
    ensures
        u@ == URI_CONNECTION_PREFIX@ + id@,
{
    let mut u = String::from_str(URI_CONNECTION_PREFIX);
    push_str(&mut u, id);
    u
}

} // verus!
