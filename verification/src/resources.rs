//! The `serial://` resource URIs and their parsing.
use crate::serial::ConnectionSummary;
use crate::text::{chars_contain, chars_eq_str, chars_of, chars_slice, chars_start_with, string_of};
use vstd::prelude::*;

verus! {

pub const URI_PORTS: &'static str = "serial://ports";

pub const URI_CONNECTIONS: &'static str = "serial://connections";

pub const URI_CONNECTION_PREFIX: &'static str = "serial://connections/";

pub const URI_CONNECTION_TEMPLATE: &'static str = "serial://connections/{id}";

pub const URI_CONNECTION_RAW_TEMPLATE: &'static str = "serial://connections/{id}/raw";

/// The body of the `serial://connections` resource.
#[derive(Debug, Clone)]
pub struct ConnectionsResource {
    pub count: usize,
    pub connections: Vec<ConnectionSummary>,
}

/// What a resource URI designates.
#[derive(Debug, PartialEq, Eq)]
pub enum ResourceUriKind {
    Ports,
    ConnectionsList,
    ConnectionDetail(String),
    ConnectionDetailRaw(String),
    Unknown,
}

/// The suffix that selects the raw bytes of a connection.
pub open spec fn raw_suffix() -> Seq<char> {
    "/raw"@
}

/// Whether `k` is what `uri` designates:
/// - `serial://ports` and `serial://connections` are the two lists;
/// - `serial://connections/{id}/raw` with a nonempty id without `/` is the
///   raw data of that connection;
/// - `serial://connections/{id}` with a nonempty id without `/` is that
///   connection;
/// - anything else is unknown.
pub open spec fn designates(uri: Seq<char>, k: ResourceUriKind) -> bool {
    let prefix = URI_CONNECTION_PREFIX@;
    if uri == URI_PORTS@ {
        k is Ports
    } else if uri == URI_CONNECTIONS@ {
        k is ConnectionsList
    } else if prefix.is_prefix_of(uri) && uri.len() > prefix.len() {
        let rest = uri.subrange(prefix.len() as int, uri.len() as int);
        let id = rest.subrange(0, rest.len() - raw_suffix().len());
        if raw_suffix().is_suffix_of(rest) && id.len() > 0 && !id.contains('/') {
            k matches ResourceUriKind::ConnectionDetailRaw(s) && s@ == id
        } else if rest.contains('/') {
            k is Unknown
        } else {
            k matches ResourceUriKind::ConnectionDetail(s) && s@ == rest
        }
    } else {
        k is Unknown
    }
}

/// Whether `s` is a suffix of `v`.
fn chars_end_with(v: &Vec<char>, s: &Vec<char>) -> (r: bool)
    ensures
        r == s@.is_suffix_of(v@),
{
    if s.len() > v.len() {
        return false;
    }
    let off = v.len() - s.len();
    let mut i: usize = 0;
    while i < s.len()
        invariant
            s@.len() <= v@.len(),
            off == v@.len() - s@.len(),
            off + s@.len() == v.len(),
            i <= s@.len(),
            forall|k: int| 0 <= k < i ==> s@[k] == v@[off + k],
        decreases s@.len() - i,
    {
        if s[i] != v[off + i] {
            return false;
        }
        i = i + 1;
    }
    true
}

/// Classifies a resource URI.
pub fn parse_resource_uri(uri: &str) -> (k: ResourceUriKind)
    ensures
        designates(uri@, k),
{
    let u = chars_of(uri);
    if chars_eq_str(&u, URI_PORTS) {
        return ResourceUriKind::Ports;
    }
    if chars_eq_str(&u, URI_CONNECTIONS) {
        return ResourceUriKind::ConnectionsList;
    }
    let prefix = chars_of(URI_CONNECTION_PREFIX);
    if !chars_start_with(&u, &prefix) || u.len() <= prefix.len() {
        return ResourceUriKind::Unknown;
    }
    let rest = chars_slice(&u, prefix.len(), u.len());
    let suffix = chars_of("/raw");
    if chars_end_with(&rest, &suffix) {
        let id = chars_slice(&rest, 0, rest.len() - suffix.len());
        if id.len() > 0 && !chars_contain(&id, '/') {
            return ResourceUriKind::ConnectionDetailRaw(string_of(&id));
        }
    }
    if chars_contain(&rest, '/') {
        ResourceUriKind::Unknown
    } else {
        ResourceUriKind::ConnectionDetail(string_of(&rest))
    }
}

/// Whether `id` can name a connection in a URI: nonempty, without `/`.
pub open spec fn uri_id(id: Seq<char>) -> bool {
    id.len() > 0 && !id.contains('/')
}

/// The URI of a connection designates that connection.
pub proof fn law_connection_uri_designates_connection(id: Seq<char>, k: ResourceUriKind)
    requires
        uri_id(id),
        designates(URI_CONNECTION_PREFIX@ + id, k),
    ensures
        k matches ResourceUriKind::ConnectionDetail(s) && s@ == id,
{
    reveal_strlit("serial://connections/");
    reveal_strlit("serial://connections");
    reveal_strlit("serial://ports");
    reveal_strlit("/raw");
    let uri = URI_CONNECTION_PREFIX@ + id;
    let prefix = URI_CONNECTION_PREFIX@;
    assert(uri != URI_PORTS@) by {
        assert(uri[9] != URI_PORTS@[9]);
    }
    assert(uri.len() != URI_CONNECTIONS@.len());
    assert(prefix.is_prefix_of(uri));
    let rest = uri.subrange(prefix.len() as int, uri.len() as int);
    assert(rest =~= id);
    if raw_suffix().is_suffix_of(rest) {
        assert(raw_suffix()[0] == '/');
        assert(rest.subrange(rest.len() - 4, rest.len() as int) == raw_suffix());
        assert(rest.subrange(rest.len() - 4, rest.len() as int)[0] == rest[rest.len() - 4]);
        assert(rest[rest.len() - 4] == '/');
        assert(id.contains('/'));
    }
}

/// The raw URI of a connection designates that connection's raw data.
pub proof fn law_raw_uri_designates_raw(id: Seq<char>, k: ResourceUriKind)
    requires
        uri_id(id),
        designates(URI_CONNECTION_PREFIX@ + id + raw_suffix(), k),
    ensures
        k matches ResourceUriKind::ConnectionDetailRaw(s) && s@ == id,
{
    reveal_strlit("serial://connections/");
    reveal_strlit("serial://connections");
    reveal_strlit("serial://ports");
    reveal_strlit("/raw");
    let uri = URI_CONNECTION_PREFIX@ + id + raw_suffix();
    let prefix = URI_CONNECTION_PREFIX@;
    assert(uri != URI_PORTS@) by {
        assert(uri[9] != URI_PORTS@[9]);
    }
    assert(uri.len() != URI_CONNECTIONS@.len());
    assert(prefix.is_prefix_of(uri));
    let rest = uri.subrange(prefix.len() as int, uri.len() as int);
    assert(rest =~= id + raw_suffix());
    assert(raw_suffix().is_suffix_of(rest));
    assert(rest.subrange(0, rest.len() - 4) =~= id);
}

} // verus!
