//! The port allowlist: glob patterns that a port name must match before
//! it may be opened. An empty allowlist allows every port.
use crate::text::{chars_of, push_str, string_of, trim_chars, trim_ws};
use vstd::prelude::*;
use vstd::string::*;

verus! {

/// Whether `glob::Pattern::new` accepts this pattern text.
pub uninterp spec fn glob_valid(pattern: Seq<char>) -> bool;

/// Whether the compiled pattern matches the candidate (`Pattern::matches`,
/// default match options).
pub uninterp spec fn glob_matches(pattern: Seq<char>, candidate: Seq<char>) -> bool;

/// `glob::Pattern::new(pattern)` and, when it compiles, `Pattern::matches`
/// on the candidate: `None` when the pattern does not compile, else whether
/// it matches.
#[verifier::external_body]
fn glob_match(pattern: &str, candidate: &str) -> (r: Option<bool>)
    ensures
        r is Some <==> glob_valid(pattern@),
        r matches Some(b) ==> b == glob_matches(pattern@, candidate@),
{
    match glob::Pattern::new(pattern) {
        Ok(p) => Some(p.matches(candidate)),
        Err(_) => None,
    }
}

/// The characters of each string.
pub open spec fn string_views(v: Seq<String>) -> Seq<Seq<char>> {
    Seq::new(v.len(), |i: int| v[i]@)
}

/// The patterns that compile, in order.
pub open spec fn valid_patterns(ps: Seq<Seq<char>>) -> Seq<Seq<char>>
    decreases ps.len(),
{
    if ps.len() == 0 {
        seq![]
    } else if glob_valid(ps.last()) {
        valid_patterns(ps.drop_last()).push(ps.last())
    } else {
        valid_patterns(ps.drop_last())
    }
}

/// The pieces of `s` between occurrences of `sep`, as `str::split` yields
/// them (an empty string is one empty piece).
pub open spec fn split_on(s: Seq<char>, sep: char) -> Seq<Seq<char>>
    decreases s.len(),
{
    if s.len() == 0 {
        seq![seq![]]
    } else {
        let init = split_on(s.drop_last(), sep);
        if s.last() == sep {
            init.push(seq![])
        } else {
            init.update(init.len() - 1, init.last().push(s.last()))
        }
    }
}

/// Each piece trimmed of surrounding whitespace, the empty ones dropped.
pub open spec fn trimmed_nonempty(ps: Seq<Seq<char>>) -> Seq<Seq<char>>
    decreases ps.len(),
{
    if ps.len() == 0 {
        seq![]
    } else if trim_ws(ps.last()).len() > 0 {
        trimmed_nonempty(ps.drop_last()).push(trim_ws(ps.last()))
    } else {
        trimmed_nonempty(ps.drop_last())
    }
}

/// The allowlist that a comma-separated list of patterns gives.
pub open spec fn allowlist_from_list(value: Seq<char>) -> Seq<Seq<char>> {
    valid_patterns(trimmed_nonempty(split_on(value, ',')))
}

/// `parts` joined with `sep` between consecutive parts.
pub open spec fn joined(parts: Seq<Seq<char>>, sep: Seq<char>) -> Seq<char>
    decreases parts.len(),
{
    if parts.len() == 0 {
        seq![]
    } else if parts.len() == 1 {
        parts[0]
    } else {
        joined(parts.drop_last(), sep) + sep + parts.last()
    }
}

/// Whether the allowlist lets `port` be opened.
pub open spec fn allows(patterns: Seq<Seq<char>>, port: Seq<char>) -> bool {
    patterns.len() == 0 || exists|i: int| 0 <= i < patterns.len() && glob_matches(#[trigger] patterns[i], port)
}

proof fn lemma_split_nonempty(s: Seq<char>, sep: char)
    ensures
        split_on(s, sep).len() >= 1,
    decreases s.len(),
{
    if s.len() > 0 {
        lemma_split_nonempty(s.drop_last(), sep);
    }
}

/// Security manager that handles port allowlist checks.
///
/// If the allowlist is empty, all ports are allowed.
pub struct SecurityManager {
    allowlist: Vec<String>,
}

impl SecurityManager {
    /// Every pattern held compiles.
    #[verifier::type_invariant]
    spec fn patterns_compile(self) -> bool {
        forall|i: int| 0 <= i < self.allowlist@.len() ==> glob_valid(#[trigger] self.allowlist@[i]@)
    }

    /// The patterns of the allowlist, in order.
    pub closed spec fn patterns(self) -> Seq<Seq<char>> {
        string_views(self.allowlist@)
    }

    /// A security manager from explicit glob pattern strings.
    /// Invalid patterns are silently ignored.
    pub fn from_patterns(patterns: &Vec<String>) -> (m: Self)
        ensures
            m.patterns() == valid_patterns(string_views(patterns@)),
    {
        let mut allowlist: Vec<String> = Vec::new();
        let mut i: usize = 0;
        while i < patterns.len()
            invariant
                i <= patterns@.len(),
                string_views(allowlist@) == valid_patterns(string_views(patterns@).take(i as int)),
                forall|k: int| 0 <= k < allowlist@.len() ==> glob_valid(#[trigger] allowlist@[k]@),
            decreases patterns@.len() - i,
        {
            let ghost before = allowlist@;
            assert(string_views(patterns@).take(i + 1).drop_last() =~= string_views(patterns@).take(
                i as int,
            ));
            let p = &patterns[i];
            if glob_match(p.as_str(), "").is_some() {
                allowlist.push(p.clone());
                assert(string_views(allowlist@) =~= string_views(before).push(p@));
            }
            i = i + 1;
        }
        assert(string_views(patterns@).take(patterns@.len() as int) =~= string_views(patterns@));
        SecurityManager { allowlist }
    }

    /// A security manager from a comma-separated list of glob patterns, as
    /// the `SERIAL_MCP_ALLOWLIST` environment variable holds it: each piece
    /// is trimmed, empty pieces are skipped and invalid patterns ignored.
    pub fn from_allowlist_value(value: &str) -> (m: Self)
        ensures
            m.patterns() == allowlist_from_list(value@),
    {
        let chars = chars_of(value);
        let mut pieces: Vec<String> = Vec::new();
        let mut current: Vec<char> = Vec::new();
        let mut i: usize = 0;
        proof {
            assert(chars@.take(0) =~= Seq::<char>::empty());
        }
        while i < chars.len()
            invariant
                i <= chars@.len(),
                chars@ == value@,
                trimmed_nonempty(split_on(chars@.take(i as int), ',')) == trimmed_nonempty(
                    split_on(chars@.take(i as int), ',').drop_last(),
                ).push(trim_ws(current@)) || trim_ws(current@).len() == 0,
                trimmed_nonempty(split_on(chars@.take(i as int), ',').drop_last()) == string_views(
                    pieces@,
                ),
                split_on(chars@.take(i as int), ',').last() == current@,
            decreases chars@.len() - i,
        {
            let ghost prefix = chars@.take(i as int);
            let ghost next = chars@.take(i + 1);
            proof {
                assert(next.drop_last() =~= prefix);
                lemma_split_nonempty(prefix, ',');
            }
            if chars[i] == ',' {
                let t = trim_chars(&current);
                if t.len() > 0 {
                    pieces.push(string_of(&t));
                }
                proof {
                    let sp = split_on(prefix, ',');
                    assert(split_on(next, ',') == sp.push(seq![]));
                    assert(split_on(next, ',').drop_last() =~= sp);
                    assert(sp =~= sp.drop_last().push(current@));
                    assert(string_views(pieces@) =~= trimmed_nonempty(sp));
                }
                current = Vec::new();
                proof {
                    assert(trim_ws(current@) =~= Seq::<char>::empty());
                }
            } else {
                let ghost old_current = current@;
                current.push(chars[i]);
                proof {
                    let sp = split_on(prefix, ',');
                    let sn = split_on(next, ',');
                    assert(sn == sp.update(sp.len() - 1, old_current.push(chars@[i as int])));
                    assert(sn.drop_last() =~= sp.drop_last());
                    assert(sn.last() == current@);
                    assert(sn =~= sn.drop_last().push(current@));
                }
            }
            i = i + 1;
        }
        let t = trim_chars(&current);
        if t.len() > 0 {
            pieces.push(string_of(&t));
        }
        proof {
            let sp = split_on(chars@.take(chars@.len() as int), ',');
            lemma_split_nonempty(chars@.take(chars@.len() as int), ',');
            assert(chars@.take(chars@.len() as int) =~= value@);
            assert(sp =~= sp.drop_last().push(current@));
            assert(string_views(pieces@) =~= trimmed_nonempty(sp));
        }
        Self::from_patterns(&pieces)
    }

    /// Check if a port matches the allowlist. Empty allowlist = allow all.
    pub fn is_port_allowed(&self, port: &str) -> (b: bool)
        ensures
            b == allows(self.patterns(), port@),
    {
        proof {
            use_type_invariant(self);
        }
        if self.allowlist.len() == 0 {
            return true;
        }
        let mut i: usize = 0;
        while i < self.allowlist.len()
            invariant
                self.patterns_compile(),
                i <= self.allowlist@.len(),
                self.allowlist@.len() > 0,
                forall|k: int| 0 <= k < i ==> !glob_matches(#[trigger] self.patterns()[k], port@),
            decreases self.allowlist@.len() - i,
        {
            let r = glob_match(self.allowlist[i].as_str(), port);
            proof {
                assert(glob_valid(self.allowlist@[i as int]@));
            }
            if r == Some(true) {
                assert(glob_matches(self.patterns()[i as int], port@));
                return true;
            }
            i = i + 1;
        }
        false
    }

    /// Human-readable summary of allowlist patterns for error messages.
    pub fn allowlist_summary(&self) -> (s: String)
        ensures
            self.patterns().len() == 0 ==> s@ == "(all ports allowed)"@,
            self.patterns().len() > 0 ==> s@ == joined(self.patterns(), ", "@),
    {
        if self.allowlist.len() == 0 {
            return String::from_str("(all ports allowed)");
        }
        let mut s = self.allowlist[0].clone();
        let mut i: usize = 1;
        proof {
            assert(self.patterns().take(1) =~= seq![self.patterns()[0]]);
        }
        while i < self.allowlist.len()
            invariant
                1 <= i <= self.allowlist@.len(),
                s@ == joined(self.patterns().take(i as int), ", "@),
            decreases self.allowlist@.len() - i,
        {
            push_str(&mut s, ", ");
            push_str(&mut s, self.allowlist[i].as_str());
            proof {
                let ps = self.patterns().take(i + 1);
                assert(ps.drop_last() =~= self.patterns().take(i as int));
            }
            i = i + 1;
        }
        proof {
            assert(self.patterns().take(self.allowlist@.len() as int) =~= self.patterns());
        }
        s
    }

    /// The number of patterns in the allowlist.
    pub fn len(&self) -> (n: usize)
        ensures
            n == self.patterns().len(),
    {
        self.allowlist.len()
    }
}

impl Clone for SecurityManager {
    fn clone(&self) -> (c: Self)
        ensures
            c.patterns() == self.patterns(),
    {
        proof {
            use_type_invariant(self);
        }
        let mut allowlist: Vec<String> = Vec::new();
        let mut i: usize = 0;
        while i < self.allowlist.len()
            invariant
                self.patterns_compile(),
                i <= self.allowlist@.len(),
                allowlist@.len() == i,
                forall|k: int| 0 <= k < i ==> #[trigger] allowlist@[k]@ == self.allowlist@[k]@,
            decreases self.allowlist@.len() - i,
        {
            allowlist.push(self.allowlist[i].clone());
            i = i + 1;
        }
        let c = SecurityManager { allowlist };
        assert(c.patterns() =~= self.patterns());
        c
    }
}

/// With an empty allowlist every port is allowed.
pub proof fn law_empty_allowlist_allows_all(port: Seq<char>)
    ensures
        allows(seq![], port),
{
}

/// A port is allowed by a nonempty allowlist exactly when one of its
/// patterns matches it.
pub proof fn law_allowed_iff_some_pattern_matches(patterns: Seq<Seq<char>>, port: Seq<char>)
    requires
        patterns.len() > 0,
    ensures
        allows(patterns, port) <==> exists|i: int|
            0 <= i < patterns.len() && glob_matches(#[trigger] patterns[i], port),
{
}

} // verus!
