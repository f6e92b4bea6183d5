use vstd::prelude::*;
use vstd::string::*;
use vstd::utf8::encode_utf8;
use crate::fixture::{params_view, Param};
use crate::path::{
    components_view, first_index, lemma_first_index, lemma_split_keeps_absent,
    lemma_split_rejoins, rejoined, split, split_on, SEPARATOR,
};
use crate::text::{bytes_eq, copy_range, ends_with, matches_at, starts_with};

verus! {

/// The request methods that the catalogue tells apart.
#[derive(Clone, Copy, Debug, PartialEq, Eq, Structural)]
pub enum Method {
    Get,
    Post,
    /// Any other method: only routes that take every method answer it.
    Other,
}

/// The names and values taken from a path, in the order of the pattern.
pub type Bindings = Seq<(Seq<u8>, Seq<u8>)>;

/// What one segment of a pattern makes of one segment of a path. A segment
/// with a `{name}` in it binds `name` to what stands between the text before
/// the brace and the text after it, which must be at least one byte; any
/// other segment matches itself alone. Bytes are compared as they are:
/// nothing in the path is percent-decoded and letters keep their case, so a
/// bound value is a piece of the path's own bytes.
pub open spec fn segment_bindings(pattern: Seq<u8>, actual: Seq<u8>) -> Option<Bindings> {
    let open = first_index(pattern, 0x7b);
    let inner = pattern.skip(open + 1);
    let close = first_index(inner, 0x7d);
    if open < pattern.len() && close < inner.len() {
        let before = pattern.take(open);
        let name = inner.take(close);
        let after = inner.skip(close + 1);
        if before.len() + after.len() < actual.len() && starts_with(actual, before) && ends_with(
            actual,
            after,
        ) {
            Some(seq![(name, actual.subrange(before.len() as int, actual.len() - after.len()))])
        } else {
            None
        }
    } else if actual == pattern {
        Some(Seq::empty())
    } else {
        None
    }
}

/// What the segments of a pattern make of the segments of a path: both have
/// the same number of segments, each pair matches, and the bindings follow
/// one another in the order of the segments.
pub open spec fn segments_bindings(pattern: Seq<Seq<u8>>, actual: Seq<Seq<u8>>) -> Option<Bindings>
    decreases pattern.len(),
{
    if pattern.len() != actual.len() {
        None
    } else if pattern.len() == 0 {
        Some(Seq::empty())
    } else {
        match (
            segments_bindings(pattern.drop_last(), actual.drop_last()),
            segment_bindings(pattern.last(), actual.last()),
        ) {
            (Some(head), Some(last)) => Some(head + last),
            _ => None,
        }
    }
}

/// What a pattern makes of a path: `None` where the path does not match,
/// the bindings of the pattern's named segments where it does. The match
/// is byte-exact, segment by segment: a slash at the end of the pattern or
/// of the path is one more, empty, segment, so `/a/` and `/a` do not match
/// each other.
pub open spec fn path_bindings(pattern: Seq<u8>, path: Seq<u8>) -> Option<Bindings> {
    segments_bindings(split(pattern, SEPARATOR), split(path, SEPARATOR))
}

/// The offset of the first `b` in `s`, or the length of `s`.
pub fn index_of(s: &[u8], b: u8) -> (r: usize)
    ensures
        r == first_index(s@, b),
        r <= s.len(),
{
    let mut i: usize = 0;
    while i < s.len() && s[i] != b
        invariant
            i <= s.len(),
            forall|j: int| 0 <= j < i ==> s@[j] != b,
        decreases s.len() - i,
    {
        i += 1;
    }
    proof {
        lemma_first_index(s@, b, i as int);
    }
    i
}

/// Matches one segment of a path against one segment of a pattern.
pub fn match_segment(pattern: &[u8], actual: &[u8]) -> (r: Option<Vec<Param>>)
    ensures
        r is Some == segment_bindings(pattern@, actual@) is Some,
        r is Some ==> params_view(r->Some_0@) == segment_bindings(pattern@, actual@)->Some_0,
{
    let open = index_of(pattern, 0x7b);
    if open < pattern.len() {
        let inner = copy_range(pattern, open + 1, pattern.len());
        assert(inner@ == pattern@.skip(open + 1));
        let close = index_of(inner.as_slice(), 0x7d);
        if close < inner.len() {
            let before = copy_range(pattern, 0, open);
            let name = copy_range(inner.as_slice(), 0, close);
            let after = copy_range(inner.as_slice(), close + 1, inner.len());
            assert(before@ == pattern@.take(open as int));
            assert(name@ == inner@.take(close as int));
            assert(after@ == inner@.skip(close + 1));
            if before.len() >= actual.len() || after.len() >= actual.len() - before.len() {
                return None;
            }
            assert(actual@.skip(0) == actual@);
            let tail = actual.len() - after.len();
            assert(actual@.skip(tail as int).subrange(0, after.len() as int) == actual@.subrange(
                tail as int,
                actual.len() as int,
            ));
            if matches_at(actual, 0, before.as_slice()) && matches_at(
                actual,
                tail,
                after.as_slice(),
            ) {
                let value = copy_range(actual, before.len(), tail);
                let mut out: Vec<Param> = Vec::new();
                out.push(Param { name, value });
                assert(params_view(out@) == seq![(name@, value@)]);
                return Some(out);
            }
            return None;
        }
    }
    if bytes_eq(actual, pattern) {
        let out: Vec<Param> = Vec::new();
        assert(params_view(out@) == Seq::<(Seq<u8>, Seq<u8>)>::empty());
        Some(out)
    } else {
        None
    }
}

/// Matches a path against a pattern and takes the values of the pattern's
/// named segments from it.
pub fn match_path(pattern: &[u8], path: &[u8]) -> (r: Option<Vec<Param>>)
    ensures
        r is Some == path_bindings(pattern@, path@) is Some,
        r is Some ==> params_view(r->Some_0@) == path_bindings(pattern@, path@)->Some_0,
{
    let wanted = split_on(pattern, SEPARATOR);
    let given = split_on(path, SEPARATOR);
    if wanted.len() != given.len() {
        return None;
    }
    let ghost p = components_view(wanted@);
    let ghost a = components_view(given@);
    let mut out: Vec<Param> = Vec::new();
    let mut i: usize = 0;
    assert(p.take(0).len() == 0 && a.take(0).len() == 0);
    assert(params_view(out@) == Seq::<(Seq<u8>, Seq<u8>)>::empty());
    while i < wanted.len()
        invariant
            i <= wanted.len(),
            wanted.len() == given.len(),
            p == components_view(wanted@),
            a == components_view(given@),
            p == split(pattern@, SEPARATOR),
            a == split(path@, SEPARATOR),
            segments_bindings(p.take(i as int), a.take(i as int)) == Some(params_view(out@)),
        decreases wanted.len() - i,
    {
        assert(p.take(i + 1).drop_last() == p.take(i as int));
        assert(a.take(i + 1).drop_last() == a.take(i as int));
        assert(p.take(i + 1).last() == wanted@[i as int]@);
        assert(a.take(i + 1).last() == given@[i as int]@);
        match match_segment(wanted[i].as_slice(), given[i].as_slice()) {
            Some(mut found) => {
                assert(params_view(out@ + found@) == params_view(out@) + params_view(found@));
                out.append(&mut found);
            },
            None => {
                proof {
                    assert(p[i as int] == wanted@[i as int]@);
                    assert(a[i as int] == given@[i as int]@);
                    lemma_segments_mismatch(p, a, i as int);
                }
                return None;
            },
        }
        i += 1;
    }
    assert(p.take(wanted.len() as int) == p);
    assert(a.take(wanted.len() as int) == a);
    Some(out)
}

/// A pattern does not match where one of its segments does not.
pub proof fn lemma_segments_mismatch(pattern: Seq<Seq<u8>>, actual: Seq<Seq<u8>>, at: int)
    requires
        pattern.len() == actual.len(),
        0 <= at < pattern.len(),
        segment_bindings(pattern[at], actual[at]) is None,
    ensures
        segments_bindings(pattern, actual) is None,
    decreases pattern.len(),
{
    if at < pattern.len() - 1 {
        lemma_segments_mismatch(pattern.drop_last(), actual.drop_last(), at);
    }
}

/// A segment of a pattern without an opening brace matches itself and nothing else.
pub proof fn lemma_literal_segment(pattern: Seq<u8>, actual: Seq<u8>)
    requires
        forall|i: int| 0 <= i < pattern.len() ==> pattern[i] != 0x7b,
    ensures
        segment_bindings(pattern, actual) == if actual == pattern {
            Some(Seq::<(Seq<u8>, Seq<u8>)>::empty())
        } else {
            None
        },
{
    lemma_first_index(pattern, 0x7b, pattern.len() as int);
}

/// A segment that is one name in braces matches every segment that is not
/// empty, and binds the name to the whole of it.
pub proof fn lemma_named_segment(name: Seq<u8>, actual: Seq<u8>)
    requires
        forall|i: int| 0 <= i < name.len() ==> name[i] != 0x7d,
    ensures
        segment_bindings(seq![0x7bu8] + name + seq![0x7du8], actual) == if actual.len() > 0 {
            Some(seq![(name, actual)])
        } else {
            None
        },
{
    let pattern = seq![0x7bu8] + name + seq![0x7du8];
    lemma_first_index(pattern, 0x7b, 0);
    let inner = pattern.skip(1);
    assert(inner == name + seq![0x7du8]);
    lemma_first_index(inner, 0x7d, name.len() as int);
    assert(pattern.take(0) == Seq::<u8>::empty());
    assert(inner.take(name.len() as int) == name);
    assert(inner.skip((name.len() + 1) as int) == Seq::<u8>::empty());
    assert(actual.subrange(0, 0) == Seq::<u8>::empty());
    assert(actual.subrange(actual.len() as int, actual.len() as int) == Seq::<u8>::empty());
    assert(actual.subrange(0, actual.len() as int) == actual);
}

/// A value bound by a segment is a piece of the path's segment, at least
/// one byte long, with only the pattern's own text around it.
pub proof fn lemma_bound_value_is_from_the_path(pattern: Seq<u8>, actual: Seq<u8>)
    requires
        segment_bindings(pattern, actual) is Some,
    ensures
        ({
            let bound = segment_bindings(pattern, actual)->Some_0;
            &&& bound.len() <= 1
            &&& bound.len() == 0 ==> actual == pattern
            &&& bound.len() == 1 ==> bound[0].1.len() > 0 && exists|before: Seq<u8>, after: Seq<u8>|
                #![auto]
                starts_with(pattern, before) && ends_with(pattern, after) && actual == before
                    + bound[0].1 + after
        }),
{
    crate::path::lemma_first_index_is_first(pattern, 0x7b);
    let open = first_index(pattern, 0x7b);
    let inner = pattern.skip(open + 1);
    crate::path::lemma_first_index_is_first(inner, 0x7d);
    let close = first_index(inner, 0x7d);
    if open < pattern.len() && close < inner.len() {
        let before = pattern.take(open);
        let after = inner.skip(close + 1);
        let value = actual.subrange(before.len() as int, actual.len() - after.len());
        assert(pattern.subrange(0, before.len() as int) == before);
        assert(pattern.subrange(pattern.len() - after.len(), pattern.len() as int) == after);
        assert(actual == before + value + after);
        assert(starts_with(pattern, before) && ends_with(pattern, after));
    }
}

/// Segments without an opening brace match the same segments and nothing else.
pub proof fn lemma_literal_segments(pattern: Seq<Seq<u8>>, actual: Seq<Seq<u8>>)
    requires
        forall|i: int, j: int|
            0 <= i < pattern.len() && 0 <= j < pattern[i].len() ==> pattern[i][j] != 0x7b,
    ensures
        segments_bindings(pattern, actual) == if actual == pattern {
            Some(Seq::<(Seq<u8>, Seq<u8>)>::empty())
        } else {
            None
        },
    decreases pattern.len(),
{
    if pattern.len() == actual.len() && pattern.len() > 0 {
        lemma_literal_segments(pattern.drop_last(), actual.drop_last());
        lemma_literal_segment(pattern.last(), actual.last());
        if actual.drop_last() == pattern.drop_last() && actual.last() == pattern.last() {
            assert(actual == actual.drop_last().push(actual.last()));
            assert(pattern == pattern.drop_last().push(pattern.last()));
            assert(Seq::<(Seq<u8>, Seq<u8>)>::empty() + Seq::<(Seq<u8>, Seq<u8>)>::empty()
                == Seq::<(Seq<u8>, Seq<u8>)>::empty());
        }
    } else if pattern.len() == actual.len() {
        assert(actual == pattern);
    }
}

/// A pattern without an opening brace matches the path that is equal to it
/// byte for byte, and no other.
pub proof fn lemma_literal_pattern(pattern: Seq<u8>, path: Seq<u8>)
    requires
        forall|i: int| 0 <= i < pattern.len() ==> pattern[i] != 0x7b,
    ensures
        path_bindings(pattern, path) == if path == pattern {
            Some(Seq::<(Seq<u8>, Seq<u8>)>::empty())
        } else {
            None
        },
{
    lemma_split_keeps_absent(pattern, SEPARATOR, 0x7b);
    lemma_literal_segments(split(pattern, SEPARATOR), split(path, SEPARATOR));
    lemma_split_rejoins(pattern, SEPARATOR);
    lemma_split_rejoins(path, SEPARATOR);
    if split(path, SEPARATOR) == split(pattern, SEPARATOR) {
        assert(rejoined(split(path, SEPARATOR), SEPARATOR) == rejoined(
            split(pattern, SEPARATOR),
            SEPARATOR,
        ));
    }
}

/// What answers a route.
#[derive(Clone, Copy, Debug)]
pub enum Handler {
    /// An empty `200 OK`.
    Liveness,
    /// The upgrade to a WebSocket connection.
    WebSocket,
    /// The save-slot synchronisation.
    Sync,
    /// The fixture in the named file; `random_number` says whether a fresh
    /// number is put in for the placeholder of that name.
    Fixture { file: &'static str, random_number: bool },
}

/// One line of the catalogue: the method (`None` takes every method), the
/// path pattern and what answers it.
#[derive(Clone, Copy, Debug)]
pub struct RouteEntry {
    pub method: Option<Method>,
    pub pattern: &'static str,
    pub handler: Handler,
}

/// The route that answers `method` on `pattern` with the fixture in `file`.
pub open spec fn spec_fixture_route(
    method: Method,
    pattern: &'static str,
    file: &'static str,
) -> RouteEntry {
    RouteEntry {
        method: Some(method),
        pattern,
        handler: Handler::Fixture { file, random_number: false },
    }
}

/// The route that answers `method` on `pattern` with the fixture in `file`.
#[verifier::when_used_as_spec(spec_fixture_route)]
pub fn fixture_route(method: Method, pattern: &'static str, file: &'static str) -> (r: RouteEntry)
    ensures
        r == spec_fixture_route(method, pattern, file),
{
    RouteEntry {
        method: Some(method),
        pattern,
        handler: Handler::Fixture { file, random_number: false },
    }
}

/// The catalogue: every route that the server declares, in the order in which they are tried.
pub open spec fn declared_routes() -> Seq<RouteEntry> {
    seq![
        RouteEntry { method: None, pattern: "/200", handler: Handler::Liveness },
        RouteEntry { method: Some(Method::Get), pattern: "/ws", handler: Handler::WebSocket },
        RouteEntry { method: Some(Method::Post), pattern: "/hunter/sync", handler: Handler::Sync },
        fixture_route(Method::Post, "/auth/login", "auth-login.base64"),
        fixture_route(Method::Post, "/delivery_data/get", "delivery-data.base64"),
        fixture_route(Method::Post, "/hunter/delete", "hunter-delete.base64"),
        fixture_route(Method::Post, "/hunter/profile/update", "hunter-profile-update.base64"),
        fixture_route(Method::Post, "/obt/play", "obt-play.base64"),
        fixture_route(Method::Post, "/hunter/character_creation/upload", "hunter-character-creation-upload.base64"),
        fixture_route(Method::Post, "/auth/ticket", "auth-ticket.base64"),
        fixture_route(Method::Post, "/follow/total_list", "follow-total_list.base64"),
        fixture_route(Method::Post, "/offline/notification_list", "offline-notification_list.base64"),
        fixture_route(Method::Post, "/community/invitation/received_list", "community-invitation-received_list.base64"),
        fixture_route(Method::Post, "/block/list", "block-list.base64"),
        fixture_route(Method::Post, "/friend/list", "friend-list.base64"),
        fixture_route(Method::Get, "/systems/EAR-B-WW/00002/system.json", "system.json"),
        fixture_route(Method::Get, "/consents/EAR-B-WW/analysis/1/{language}.json", "analysis-languages.json"),
        fixture_route(Method::Post, "/v1/steam-steam/sign/EAR-B-WW", "EAR-B-WW.json"),
        fixture_route(Method::Get, "/v1/consent/restrictions/{country}", "consent-restrictions.json"),
        fixture_route(Method::Get, "/v1/consent/countries/{language}", "consent-countries.json"),
        fixture_route(Method::Get, "/v1/consent/documents/EAR-B-WW/{country}/{language}/over", "consent-documents.json"),
        fixture_route(Method::Get, "/v1/token/refresh/", "token-refresh.json"),
        fixture_route(Method::Post, "/MultiplayerServer/ListPartyQosServers", "PartyQosServers.json"),
        RouteEntry {
            method: Some(Method::Post),
            pattern: "/v1/projects/earth-analysis-obt/topics/analysis-client-log:publish",
            handler: Handler::Fixture { file: "earth-analysis-obt.json", random_number: true },
        },
    ]
}

/// The catalogue, built once at startup.
pub fn route_table() -> (r: Vec<RouteEntry>)
    ensures
        r@ == declared_routes(),
{
    let table = vec![
        RouteEntry { method: None, pattern: "/200", handler: Handler::Liveness },
        RouteEntry { method: Some(Method::Get), pattern: "/ws", handler: Handler::WebSocket },
        RouteEntry { method: Some(Method::Post), pattern: "/hunter/sync", handler: Handler::Sync },
        fixture_route(Method::Post, "/auth/login", "auth-login.base64"),
        fixture_route(Method::Post, "/delivery_data/get", "delivery-data.base64"),
        fixture_route(Method::Post, "/hunter/delete", "hunter-delete.base64"),
        fixture_route(Method::Post, "/hunter/profile/update", "hunter-profile-update.base64"),
        fixture_route(Method::Post, "/obt/play", "obt-play.base64"),
        fixture_route(Method::Post, "/hunter/character_creation/upload", "hunter-character-creation-upload.base64"),
        fixture_route(Method::Post, "/auth/ticket", "auth-ticket.base64"),
        fixture_route(Method::Post, "/follow/total_list", "follow-total_list.base64"),
        fixture_route(Method::Post, "/offline/notification_list", "offline-notification_list.base64"),
        fixture_route(Method::Post, "/community/invitation/received_list", "community-invitation-received_list.base64"),
        fixture_route(Method::Post, "/block/list", "block-list.base64"),
        fixture_route(Method::Post, "/friend/list", "friend-list.base64"),
        fixture_route(Method::Get, "/systems/EAR-B-WW/00002/system.json", "system.json"),
        fixture_route(Method::Get, "/consents/EAR-B-WW/analysis/1/{language}.json", "analysis-languages.json"),
        fixture_route(Method::Post, "/v1/steam-steam/sign/EAR-B-WW", "EAR-B-WW.json"),
        fixture_route(Method::Get, "/v1/consent/restrictions/{country}", "consent-restrictions.json"),
        fixture_route(Method::Get, "/v1/consent/countries/{language}", "consent-countries.json"),
        fixture_route(Method::Get, "/v1/consent/documents/EAR-B-WW/{country}/{language}/over", "consent-documents.json"),
        fixture_route(Method::Get, "/v1/token/refresh/", "token-refresh.json"),
        fixture_route(Method::Post, "/MultiplayerServer/ListPartyQosServers", "PartyQosServers.json"),
        RouteEntry {
            method: Some(Method::Post),
            pattern: "/v1/projects/earth-analysis-obt/topics/analysis-client-log:publish",
            handler: Handler::Fixture { file: "earth-analysis-obt.json", random_number: true },
        },
    ];
    assert(table@ =~= declared_routes());
    table
}

/// What a route makes of a request: `None` where the method or the path
/// does not match, the bindings of the path's named segments where both do.
pub open spec fn entry_bindings(entry: RouteEntry, method: Method, path: Seq<u8>) -> Option<
    Bindings,
> {
    if entry.method is None || entry.method == Some(method) {
        path_bindings(encode_utf8(entry.pattern@), path)
    } else {
        None
    }
}

/// Where a request goes: to a route of the catalogue, with the values of
/// its path parameters, or to the handler for everything else.
#[derive(Debug)]
pub enum Dispatch {
    /// The route at `index` of the catalogue, what answers it, and the
    /// values of its path parameters.
    Route { index: usize, handler: Handler, params: Vec<Param> },
    /// No route matches.
    Default,
}

/// Whether `d` is the first match of the request in `table`: the route at
/// `index` matches with these bindings and none before it matches; the
/// default stands for a request that no route matches.
pub open spec fn is_first_match(
    d: Dispatch,
    table: Seq<RouteEntry>,
    method: Method,
    path: Seq<u8>,
) -> bool {
    match d {
        Dispatch::Route { index, handler, params } => {
            &&& index < table.len()
            &&& handler == table[index as int].handler
            &&& entry_bindings(table[index as int], method, path) == Some(params_view(params@))
            &&& forall|j: int|
                0 <= j < index ==> (#[trigger] entry_bindings(table[j], method, path)) is None
        },
        Dispatch::Default => forall|j: int|
            0 <= j < table.len() ==> (#[trigger] entry_bindings(table[j], method, path)) is None,
    }
}

/// Matches a request against one route.
pub fn match_entry(entry: &RouteEntry, method: Method, path: &[u8]) -> (r: Option<Vec<Param>>)
    ensures
        r is Some == entry_bindings(*entry, method, path@) is Some,
        r is Some ==> params_view(r->Some_0@) == entry_bindings(*entry, method, path@)->Some_0,
{
    let method_fits = match entry.method {
        None => true,
        Some(wanted) => wanted == method,
    };
    if method_fits {
        match_path(entry.pattern.as_bytes(), path)
    } else {
        None
    }
}

/// Finds the first route of `table` that takes the request. Paths are
/// matched byte for byte against the patterns; the caller hands in the path
/// as it came, without the query.
pub fn dispatch(table: &Vec<RouteEntry>, method: Method, path: &[u8]) -> (r: Dispatch)
    ensures
        is_first_match(r, table@, method, path@),
{
    let mut i: usize = 0;
    while i < table.len()
        invariant
            i <= table.len(),
            forall|j: int| 0 <= j < i ==> (#[trigger] entry_bindings(table@[j], method, path@)) is None,
        decreases table.len() - i,
    {
        match match_entry(&table[i], method, path) {
            Some(params) => {
                return Dispatch::Route { index: i, handler: table[i].handler, params };
            },
            None => {},
        }
        i += 1;
    }
    Dispatch::Default
}

} // verus!
