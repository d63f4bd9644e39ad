//! HTTP headers and methods as they cross the tunnel.

use crate::text;
use http::{HeaderMap, HeaderName, HeaderValue, Method, StatusCode};
use vstd::prelude::*;
use vstd::utf8::*;

verus! {

// ---------------------------------------------------------------------------
// The `http` crate
// ---------------------------------------------------------------------------

/// The header map of the `http` crate.
#[verifier::external_type_specification]
#[verifier::external_body]
#[verifier::reject_recursive_types(T)]
pub struct ExHeaderMap<T>(HeaderMap<T>);

/// The header value of the `http` crate.
#[verifier::external_type_specification]
#[verifier::external_body]
pub struct ExHeaderValue(HeaderValue);

/// A header: its name and the bytes of its value.
pub type Entry = (Seq<char>, Seq<u8>);

/// A header as text.
pub type Pair = (Seq<char>, Seq<char>);

/// The headers of a map in the order in which it is walked, each name once
/// per value.
pub uninterp spec fn header_entries(map: HeaderMap<HeaderValue>) -> Seq<Entry>;

/// The names that occur among some headers.
pub open spec fn names_of(entries: Seq<Entry>) -> Set<Seq<char>> {
    entries.map_values(|e: Entry| e.0).to_set()
}

/// The values of one name, in order.
pub open spec fn values_of(entries: Seq<Entry>, name: Seq<char>) -> Seq<Seq<u8>>
    decreases entries.len(),
{
    if entries.len() == 0 {
        Seq::empty()
    } else if entries.last().0 == name {
        values_of(entries.drop_last(), name).push(entries.last().1)
    } else {
        values_of(entries.drop_last(), name)
    }
}

/// Where another value of a name goes: behind the last value of that name,
/// or at the end if the name is new.
pub open spec fn slot(entries: Seq<Entry>, name: Seq<char>) -> nat
    decreases entries.len(),
{
    if entries.len() == 0 || !names_of(entries).contains(name) || entries.last().0 == name {
        entries.len()
    } else {
        slot(entries.drop_last(), name)
    }
}

/// Some headers after one more was appended.
pub open spec fn entry_appended(
    entries: Seq<Entry>,
    name: Seq<char>,
    value: Seq<u8>,
) -> Seq<Entry> {
    entries.insert(slot(entries, name) as int, (name, value))
}

/// Whether a character may stand in an HTTP token.
pub open spec fn token_char(c: char) -> bool {
    ||| 'a' <= c && c <= 'z'
    ||| 'A' <= c && c <= 'Z'
    ||| '0' <= c && c <= '9'
    ||| c == '!' || c == '#' || c == '$' || c == '%' || c == '&' || c == '\'' || c == '*' || c == '+'
    ||| c == '-' || c == '.' || c == '^' || c == '_' || c == '`' || c == '|' || c == '~'
}

/// Whether a text is made of token characters alone.
pub open spec fn token_text(s: Seq<char>) -> bool {
    forall|i: int| 0 <= i < s.len() ==> token_char(#[trigger] s[i])
}

/// Whether a text is a header name, in whatever case: a token of at most
/// 65535 characters.
pub open spec fn valid_header_name(s: Seq<char>) -> bool {
    0 < s.len() <= 0xffff && token_text(s)
}

/// Whether a text is a header value: no control character but the tab.
pub open spec fn valid_header_value(s: Seq<char>) -> bool {
    forall|i: int|
        0 <= i < s.len() ==> (#[trigger] s[i] as u32 >= 32 && s[i] as u32 != 127) || s[i] == '\t'
}

/// Whether bytes are visible ASCII, with blanks and tabs.
pub open spec fn visible(bytes: Seq<u8>) -> bool {
    forall|i: int| 0 <= i < bytes.len() ==> (32 <= #[trigger] bytes[i] < 127 || bytes[i] == 9)
}

/// ASCII bytes as text.
pub open spec fn ascii_text(bytes: Seq<u8>) -> Seq<char> {
    bytes.map_values(|b: u8| b as char)
}

/// A header map with at most this many names takes another header.
pub const SAFE_HEADER_NAMES: usize = 6553;

/// `http::HeaderMap::new`: a map without headers.
#[verifier::external_body]
fn new_header_map() -> (map: HeaderMap<HeaderValue>)
    ensures
        header_entries(map) == Seq::<Entry>::empty(),
{
    HeaderMap::new()
}

/// `http::HeaderMap::try_append` of a valid name and value: the value goes
/// behind the others of its name, which is kept in lower case. It fails only
/// on a map that holds more than 6553 names, where the map's own hashing
/// decides; what the map then holds is not stated.
#[verifier::external_body]
fn append_header(map: &mut HeaderMap<HeaderValue>, name: &str, value: &str) -> (ok: bool)
    requires
        valid_header_name(name@),
        valid_header_value(value@),
    ensures
        ok ==> header_entries(*final(map)) == entry_appended(
            header_entries(*old(map)),
            text::lowered(name@),
            encode_utf8(value@),
        ),
        !ok ==> names_of(header_entries(*old(map))).len() > SAFE_HEADER_NAMES,
{
    let name = HeaderName::from_bytes(name.as_bytes()).unwrap();
    let value = HeaderValue::from_str(value).unwrap();
    map.try_append(name, value).is_ok()
}

/// Whether headers stand as in a header map: their names in lower case, and
/// the values of a name side by side.
pub open spec fn in_map_order(entries: Seq<Entry>) -> bool {
    &&& forall|i: int|
        0 <= i < entries.len() ==> text::lowered((#[trigger] entries[i]).0) == entries[i].0
    &&& forall|i: int, j: int, k: int|
        0 <= i < j < k < entries.len() && (#[trigger] entries[i]).0 == (#[trigger] entries[k]).0
            ==> (#[trigger] entries[j]).0 == entries[i].0
}

/// Walking a `http::HeaderMap`: its headers in order, each name in lower case
/// and with its values one after the other. A name need not be one that
/// `http::HeaderName::from_bytes` accepts: `http::HeaderName::from_static` and
/// `http::HeaderName::from_lowercase` let a double quote pass.
#[verifier::external_body]
fn walk_headers(map: &HeaderMap<HeaderValue>) -> (out: Vec<(String, Vec<u8>)>)
    ensures
        entry_views(out@) == header_entries(*map),
        in_map_order(entry_views(out@)),
{
    map.iter().map(|(n, v)| (n.as_str().to_string(), v.as_bytes().to_vec())).collect()
}

/// `http::HeaderMap::get_all`: the values of one name, in order.
#[verifier::external_body]
fn all_values(map: &HeaderMap<HeaderValue>, name: &str) -> (out: Vec<Vec<u8>>)
    requires
        valid_header_name(name@),
    ensures
        out@.map_values(|v: Vec<u8>| v@) == values_of(header_entries(*map), text::lowered(name@)),
{
    map.get_all(name).iter().map(|v| v.as_bytes().to_vec()).collect()
}

/// `http::HeaderName::from_bytes`: accepts the header names, and puts them in
/// lower case.
#[verifier::external_body]
fn read_header_name(name: &str) -> (out: Option<String>)
    ensures
        out is Some <==> valid_header_name(name@),
        out matches Some(s) ==> s@ == text::lowered(name@),
{
    HeaderName::from_bytes(name.as_bytes()).ok().map(|n| n.as_str().to_string())
}

/// `http::HeaderValue::from_str`: accepts the header values.
#[verifier::external_body]
fn is_header_value(value: &str) -> (r: bool)
    ensures
        r == valid_header_value(value@),
{
    HeaderValue::from_str(value).is_ok()
}

/// `http::Method::from_bytes`: accepts every token.
#[verifier::external_body]
pub(crate) fn is_method(method: &str) -> (r: bool)
    ensures
        r == (method@.len() > 0 && token_text(method@)),
{
    Method::from_bytes(method.as_bytes()).is_ok()
}

/// `http::StatusCode::from_u16`: accepts the numbers of three digits.
#[verifier::external_body]
pub(crate) fn is_status(code: u16) -> (r: bool)
    ensures
        r == (100 <= code <= 999),
{
    StatusCode::from_u16(code).is_ok()
}

// ---------------------------------------------------------------------------
// Hop-by-hop headers
// ---------------------------------------------------------------------------

/// Whether a header concerns one connection only and does not cross the
/// tunnel.
pub open spec fn hop_by_hop(name: Seq<char>) -> bool {
    ||| name == "connection"@
    ||| name == "keep-alive"@
    ||| name == "proxy-authenticate"@
    ||| name == "proxy-authorization"@
    ||| name == "te"@
    ||| name == "trailer"@
    ||| name == "transfer-encoding"@
    ||| name == "upgrade"@
    ||| name == "host"@
    ||| name == "content-length"@
}

/// Whether the header of that lower-case name does not cross the tunnel.
pub fn is_hop_by_hop_header(name: &str) -> (r: bool)
    ensures
        r == hop_by_hop(name@),
{
    text::same(name, "connection") || text::same(name, "keep-alive") || text::same(
        name,
        "proxy-authenticate",
    ) || text::same(name, "proxy-authorization") || text::same(name, "te") || text::same(
        name,
        "trailer",
    ) || text::same(name, "transfer-encoding") || text::same(name, "upgrade") || text::same(
        name,
        "host",
    ) || text::same(name, "content-length")
}

/// Whether a request of that method is forwarded.
pub open spec fn supported_method(method: Seq<char>) -> bool {
    ||| method == "GET"@
    ||| method == "POST"@
    ||| method == "PUT"@
    ||| method == "PATCH"@
    ||| method == "DELETE"@
    ||| method == "HEAD"@
    ||| method == "OPTIONS"@
}

/// Whether a request of that method is forwarded.
pub fn is_supported_method(method: &str) -> (r: bool)
    ensures
        r == supported_method(method@),
{
    text::same(method, "GET") || text::same(method, "POST") || text::same(method, "PUT")
        || text::same(method, "PATCH") || text::same(method, "DELETE") || text::same(method, "HEAD")
        || text::same(method, "OPTIONS")
}

// ---------------------------------------------------------------------------
// From a header map to pairs
// ---------------------------------------------------------------------------

/// The content of a list of headers.
pub open spec fn entry_views(list: Seq<(String, Vec<u8>)>) -> Seq<Entry> {
    list.map_values(|e: (String, Vec<u8>)| (e.0@, e.1@))
}

/// The content of a list of pairs.
pub open spec fn pair_views(list: Seq<(String, String)>) -> Seq<Pair> {
    list.map_values(|p: (String, String)| (p.0@, p.1@))
}

/// Whether one value of a `connection` header names the header `name`.
pub open spec fn value_nominates(value: Seq<u8>, name: Seq<char>) -> bool {
    &&& visible(value)
    &&& exists|j: int|
        0 <= j < text::pieces(ascii_text(value), ',').len() && text::lowered(
            text::trimmed(#[trigger] text::pieces(ascii_text(value), ',')[j]),
        ) == name
}

/// Whether the `connection` headers name the header `name`.
pub open spec fn nominated(entries: Seq<Entry>, name: Seq<char>) -> bool {
    exists|i: int|
        0 <= i < values_of(entries, "connection"@).len() && value_nominates(
            #[trigger] values_of(entries, "connection"@)[i],
            name,
        )
}

/// Whether a header crosses the tunnel, given all headers it came with.
pub open spec fn crosses(all: Seq<Entry>, entry: Entry) -> bool {
    !hop_by_hop(entry.0) && !nominated(all, entry.0) && visible(entry.1)
}

/// The headers of `entries` that cross the tunnel, in order and as text.
pub open spec fn crossing(all: Seq<Entry>, entries: Seq<Entry>) -> Seq<Pair>
    decreases entries.len(),
{
    if entries.len() == 0 {
        Seq::empty()
    } else {
        let front = crossing(all, entries.drop_last());
        if crosses(all, entries.last()) {
            front.push((entries.last().0, ascii_text(entries.last().1)))
        } else {
            front
        }
    }
}

/// The bytes as text, if they are visible ASCII.
fn visible_text(bytes: &Vec<u8>) -> (out: Option<String>)
    ensures
        out is Some <==> visible(bytes@),
        out matches Some(s) ==> s@ == ascii_text(bytes@),
{
    let mut s = String::new();
    for i in 0..bytes.len()
        invariant
            s@ == ascii_text(bytes@).take(i as int),
            forall|j: int| 0 <= j < i ==> (32 <= #[trigger] bytes@[j] < 127 || bytes@[j] == 9),
    {
        let b = bytes[i];
        if !((b >= 32 && b < 127) || b == 9) {
            return None;
        }
        s.push(b as char);
    }
    proof {
        assert(ascii_text(bytes@).take(bytes@.len() as int) =~= ascii_text(bytes@));
    }
    Some(s)
}

/// The names in a comma-separated list, trimmed and in lower case.
fn listed_names(value: &str) -> (out: Vec<String>)
    ensures
        out@.len() == text::pieces(value@, ',').len(),
        forall|j: int|
            0 <= j < out@.len() ==> (#[trigger] out@[j])@ == text::lowered(
                text::trimmed(text::pieces(value@, ',')[j]),
            ),
{
    let parts = text::split(value, ',');
    let mut out: Vec<String> = Vec::new();
    for i in 0..parts.len()
        invariant
            text::texts(parts@) == text::pieces(value@, ','),
            out@.len() == i,
            forall|j: int|
                0 <= j < i ==> (#[trigger] out@[j])@ == text::lowered(
                    text::trimmed(text::pieces(value@, ',')[j]),
                ),
    {
        proof {
            assert(text::texts(parts@)[i as int] == parts@[i as int]@);
        }
        out.push(text::to_lower(text::trim(parts[i].as_str()).as_str()));
    }
    out
}

/// Whether one of some `connection` values names `name`.
fn is_nominated(values: &Vec<Vec<u8>>, name: &str) -> (r: bool)
    ensures
        r == exists|i: int| 0 <= i < values@.len() && value_nominates(#[trigger] values@[i]@, name@),
{
    for i in 0..values.len()
        invariant
            forall|k: int| 0 <= k < i ==> !value_nominates(#[trigger] values@[k]@, name@),
    {
        if let Some(value) = visible_text(&values[i]) {
            let names = listed_names(value.as_str());
            for j in 0..names.len()
                invariant
                    i < values@.len(),
                    value@ == ascii_text(values@[i as int]@),
                    visible(values@[i as int]@),
                    names@.len() == text::pieces(value@, ',').len(),
                    forall|k: int|
                        0 <= k < names@.len() ==> (#[trigger] names@[k])@ == text::lowered(
                            text::trimmed(text::pieces(value@, ',')[k]),
                        ),
                    forall|k: int| 0 <= k < j ==> (#[trigger] names@[k])@ != name@,
            {
                if text::same(names[j].as_str(), name) {
                    proof {
                        let piece = text::pieces(value@, ',')[j as int];
                        assert(text::lowered(text::trimmed(piece)) == name@);
                        assert(value_nominates(values@[i as int]@, name@));
                    }
                    return true;
                }
            }
            proof {
                if value_nominates(values@[i as int]@, name@) {
                    let j = choose|j: int|
                        0 <= j < text::pieces(value@, ',').len() && text::lowered(
                            text::trimmed(#[trigger] text::pieces(value@, ',')[j]),
                        ) == name@;
                    assert(names@[j]@ == name@);
                }
            }
        }
    }
    false
}

proof fn lemma_connection_is_a_name()
    ensures
        valid_header_name("connection"@),
        text::lowered("connection"@) == "connection"@,
{
    reveal_strlit("connection");
    assert("connection"@ =~= seq!['c', 'o', 'n', 'n', 'e', 'c', 't', 'i', 'o', 'n']);
    assert(text::lowered("connection"@) =~= "connection"@);
}

/// The headers that cross the tunnel: none that is hop-by-hop, none that a
/// `connection` header names, and none whose value is not visible ASCII.
pub fn headers_to_pairs(headers: &HeaderMap<HeaderValue>) -> (out: Vec<(String, String)>)
    ensures
        pair_views(out@) == crossing(header_entries(*headers), header_entries(*headers)),
        in_map_order(header_entries(*headers)),
        tidy_pairs(pair_views(out@)),
{
    proof {
        lemma_connection_is_a_name();
    }
    let ghost all = header_entries(*headers);
    let entries = walk_headers(headers);
    let values = all_values(headers, "connection");
    assert forall|i: int| 0 <= i < values@.len() implies (#[trigger] values@[i])@ == values_of(
        all,
        "connection"@,
    )[i] by {
        assert(values@.map_values(|v: Vec<u8>| v@)[i] == values@[i]@);
    }
    assert(values@.len() == values_of(all, "connection"@).len());
    let mut out: Vec<(String, String)> = Vec::new();
    for i in 0..entries.len()
        invariant
            entry_views(entries@) == all,
            values@.len() == values_of(all, "connection"@).len(),
            forall|k: int|
                0 <= k < values@.len() ==> (#[trigger] values@[k])@ == values_of(
                    all,
                    "connection"@,
                )[k],
            pair_views(out@) == crossing(all, all.take(i as int)),
    {
        let name = &entries[i].0;
        let ghost entry = all[i as int];
        proof {
            assert(entry_views(entries@)[i as int] == (entries@[i as int].0@, entries@[i as int].1@));
            assert(all.take(i + 1).drop_last() =~= all.take(i as int));
            assert(all.take(i + 1).last() == entry);
        }
        let skip = is_nominated(&values, name.as_str());
        proof {
            if skip {
                let k = choose|k: int|
                    0 <= k < values@.len() && value_nominates(#[trigger] values@[k]@, name@);
                assert(value_nominates(values_of(all, "connection"@)[k], name@));
            } else if nominated(all, name@) {
                let k = choose|k: int|
                    0 <= k < values_of(all, "connection"@).len() && value_nominates(
                        #[trigger] values_of(all, "connection"@)[k],
                        name@,
                    );
                assert(value_nominates(values@[k]@, name@));
            }
            assert(skip == nominated(all, entry.0));
        }
        if !is_hop_by_hop_header(name.as_str()) && !skip {
            if let Some(value) = visible_text(&entries[i].1) {
                let ghost before = out@;
                out.push((name.clone(), value));
                proof {
                    assert(pair_views(out@) =~= pair_views(before).push((entry.0, value@)));
                }
            }
        }
    }
    proof {
        assert(all.take(all.len() as int) =~= all);
        lemma_crossing_is_tidy(all, all);
    }
    out
}

// ---------------------------------------------------------------------------
// From pairs to a header map
// ---------------------------------------------------------------------------

/// The error of more header names than a header map can hold.
#[derive(Debug, Clone, Copy, PartialEq, Eq, Structural)]
pub struct TooManyHeaders;

/// Whether a pair is a header.
pub open spec fn valid_pair(pair: Pair) -> bool {
    valid_header_name(pair.0) && valid_header_value(pair.1)
}

/// The headers of a map to which some pairs were appended in order; pairs
/// that are no headers are left out.
pub open spec fn map_of(pairs: Seq<Pair>) -> Seq<Entry>
    decreases pairs.len(),
{
    if pairs.len() == 0 {
        Seq::empty()
    } else {
        let front = map_of(pairs.drop_last());
        let last = pairs.last();
        if valid_pair(last) {
            entry_appended(front, text::lowered(last.0), encode_utf8(last.1))
        } else {
            front
        }
    }
}

/// The header names among some pairs, in lower case.
pub open spec fn valid_names(pairs: Seq<Pair>) -> Set<Seq<char>>
    decreases pairs.len(),
{
    if pairs.len() == 0 {
        Set::empty()
    } else if valid_pair(pairs.last()) {
        valid_names(pairs.drop_last()).insert(text::lowered(pairs.last().0))
    } else {
        valid_names(pairs.drop_last())
    }
}

proof fn lemma_names_of(entries: Seq<Entry>, name: Seq<char>)
    ensures
        names_of(entries).contains(name) <==> exists|i: int|
            0 <= i < entries.len() && (#[trigger] entries[i]).0 == name,
{
    let names = entries.map_values(|e: Entry| e.0);
    if names_of(entries).contains(name) {
        let i = choose|i: int| 0 <= i < names.len() && names[i] == name;
        assert(entries[i].0 == name);
    }
    if exists|i: int| 0 <= i < entries.len() && (#[trigger] entries[i]).0 == name {
        let i = choose|i: int| 0 <= i < entries.len() && (#[trigger] entries[i]).0 == name;
        assert(names[i] == name);
        assert(names.contains(name));
    }
}

proof fn lemma_slot_bound(entries: Seq<Entry>, name: Seq<char>)
    ensures
        slot(entries, name) <= entries.len(),
    decreases entries.len(),
{
    if !(entries.len() == 0 || !names_of(entries).contains(name) || entries.last().0 == name) {
        lemma_slot_bound(entries.drop_last(), name);
    }
}

proof fn lemma_appended_names(entries: Seq<Entry>, name: Seq<char>, value: Seq<u8>)
    ensures
        names_of(entry_appended(entries, name, value)) == names_of(entries).insert(name),
{
    lemma_slot_bound(entries, name);
    let k = slot(entries, name) as int;
    let after = entry_appended(entries, name, value);
    assert forall|n: Seq<char>| names_of(after).contains(n) <==> names_of(entries).insert(
        name,
    ).contains(n) by {
        lemma_names_of(entries, n);
        lemma_names_of(after, n);
        if names_of(after).contains(n) {
            let i = choose|i: int| 0 <= i < after.len() && (#[trigger] after[i]).0 == n;
            if i < k {
                assert(entries[i] == after[i]);
            } else if i > k {
                assert(entries[i - 1] == after[i]);
            }
        }
        if names_of(entries).contains(n) {
            let i = choose|i: int| 0 <= i < entries.len() && (#[trigger] entries[i]).0 == n;
            if i < k {
                assert(after[i] == entries[i]);
            } else {
                assert(after[i + 1] == entries[i]);
            }
        }
        if n == name {
            assert(after[k].0 == name);
        }
    }
    assert(names_of(after) =~= names_of(entries).insert(name));
}

proof fn lemma_map_names(pairs: Seq<Pair>)
    ensures
        names_of(map_of(pairs)) == valid_names(pairs),
        valid_names(pairs).finite(),
    decreases pairs.len(),
{
    if pairs.len() == 0 {
        assert forall|n: Seq<char>| !names_of(map_of(pairs)).contains(n) by {
            lemma_names_of(map_of(pairs), n);
        }
        assert(names_of(map_of(pairs)) =~= Set::empty());
    } else {
        lemma_map_names(pairs.drop_last());
        if valid_pair(pairs.last()) {
            lemma_appended_names(
                map_of(pairs.drop_last()),
                text::lowered(pairs.last().0),
                encode_utf8(pairs.last().1),
            );
        }
    }
}

proof fn lemma_valid_names_grow(pairs: Seq<Pair>, k: int)
    requires
        0 <= k <= pairs.len(),
    ensures
        valid_names(pairs.take(k)).subset_of(valid_names(pairs)),
    decreases pairs.len() - k,
{
    if k == pairs.len() {
        assert(pairs.take(k) =~= pairs);
    } else {
        lemma_valid_names_grow(pairs, k + 1);
        assert(pairs.take(k + 1).drop_last() =~= pairs.take(k));
    }
}

/// The header map of some pairs. Pairs that are no headers are left out. At
/// most 6553 different names always fit; of more, the map may refuse some.
pub fn pairs_to_headers(pairs: Vec<(String, String)>) -> (out: Result<
    HeaderMap<HeaderValue>,
    TooManyHeaders,
>)
    ensures
        out matches Ok(map) ==> header_entries(map) == map_of(pair_views(pairs@)),
        valid_names(pair_views(pairs@)).len() <= SAFE_HEADER_NAMES ==> out is Ok,
{
    let ghost views = pair_views(pairs@);
    let mut headers = new_header_map();
    for i in 0..pairs.len()
        invariant
            views == pair_views(pairs@),
            header_entries(headers) == map_of(views.take(i as int)),
    {
        let pair = &pairs[i];
        proof {
            assert(views.take(i + 1).drop_last() =~= views.take(i as int));
            assert(views.take(i + 1).last() == (pair.0@, pair.1@));
        }
        if read_header_name(pair.0.as_str()).is_some() && is_header_value(pair.1.as_str()) {
            if !append_header(&mut headers, pair.0.as_str(), pair.1.as_str()) {
                proof {
                    lemma_map_names(views.take(i as int));
                    lemma_map_names(views);
                    lemma_valid_names_grow(views, i as int);
                    vstd::set_lib::lemma_len_subset(
                        valid_names(views.take(i as int)),
                        valid_names(views),
                    );
                }
                return Err(TooManyHeaders);
            }
        }
    }
    proof {
        assert(views.take(views.len() as int) =~= views);
    }
    Ok(headers)
}

/// The headers of a response that are handed to the local client: those that
/// are not hop-by-hop, in the order of their map.
pub open spec fn end_to_end(entries: Seq<Entry>) -> Seq<Entry>
    decreases entries.len(),
{
    if entries.len() == 0 {
        Seq::empty()
    } else if hop_by_hop(entries.last().0) {
        end_to_end(entries.drop_last())
    } else {
        end_to_end(entries.drop_last()).push(entries.last())
    }
}

/// The headers for the local client, of the pairs in a tunnel response.
pub fn response_headers(pairs: Vec<(String, String)>) -> (out: Result<
    Vec<(String, Vec<u8>)>,
    TooManyHeaders,
>)
    ensures
        out matches Ok(list) ==> entry_views(list@) == end_to_end(map_of(pair_views(pairs@))),
        valid_names(pair_views(pairs@)).len() <= SAFE_HEADER_NAMES ==> out is Ok,
{
    let headers = match pairs_to_headers(pairs) {
        Ok(headers) => headers,
        Err(e) => return Err(e),
    };
    let entries = walk_headers(&headers);
    let ghost all = entry_views(entries@);
    let mut out: Vec<(String, Vec<u8>)> = Vec::new();
    for i in 0..entries.len()
        invariant
            all == entry_views(entries@),
            entry_views(out@) == end_to_end(all.take(i as int)),
    {
        proof {
            assert(all.take(i + 1).drop_last() =~= all.take(i as int));
            assert(all.take(i + 1).last() == (entries@[i as int].0@, entries@[i as int].1@));
        }
        if !is_hop_by_hop_header(entries[i].0.as_str()) {
            let ghost before = out@;
            let name = entries[i].0.clone();
            let value = vstd::slice::slice_to_vec(entries[i].1.as_slice());
            out.push((name, value));
            proof {
                assert(entry_views(out@) =~= entry_views(before).push((name@, value@)));
            }
        }
    }
    proof {
        assert(all.take(all.len() as int) =~= all);
    }
    Ok(out)
}

/// The pairs that are headers and not hop-by-hop, in order, with their names
/// in lower case.
pub open spec fn upstream_pairs(pairs: Seq<Pair>) -> Seq<Pair>
    decreases pairs.len(),
{
    if pairs.len() == 0 {
        Seq::empty()
    } else {
        let front = upstream_pairs(pairs.drop_last());
        let last = pairs.last();
        if valid_pair(last) && !hop_by_hop(text::lowered(last.0)) {
            front.push((text::lowered(last.0), last.1))
        } else {
            front
        }
    }
}

/// The headers that a host sends upstream for the pairs of a tunnel request.
pub fn upstream_headers(pairs: &Vec<(String, String)>) -> (out: Vec<(String, String)>)
    ensures
        pair_views(out@) == upstream_pairs(pair_views(pairs@)),
{
    let ghost views = pair_views(pairs@);
    let mut out: Vec<(String, String)> = Vec::new();
    for i in 0..pairs.len()
        invariant
            views == pair_views(pairs@),
            pair_views(out@) == upstream_pairs(views.take(i as int)),
    {
        let pair = &pairs[i];
        proof {
            assert(views.take(i + 1).drop_last() =~= views.take(i as int));
            assert(views.take(i + 1).last() == (pair.0@, pair.1@));
        }
        if let Some(name) = read_header_name(pair.0.as_str()) {
            if is_header_value(pair.1.as_str()) && !is_hop_by_hop_header(name.as_str()) {
                let ghost before = out@;
                let ghost added = (name@, pair.1@);
                out.push((name, pair.1.clone()));
                proof {
                    assert(pair_views(out@) =~= pair_views(before).push(added));
                }
            }
        }
    }
    proof {
        assert(views.take(views.len() as int) =~= views);
    }
    out
}

// ---------------------------------------------------------------------------
// Laws
// ---------------------------------------------------------------------------

/// What crosses the tunnel is exactly the headers that are neither
/// hop-by-hop nor named by a `connection` header and whose value is visible.
pub proof fn law_crossing_headers(all: Seq<Entry>, entries: Seq<Entry>, pair: Pair)
    ensures
        crossing(all, entries).contains(pair) <==> exists|i: int|
            0 <= i < entries.len() && crosses(all, #[trigger] entries[i]) && pair == (
                entries[i].0,
                ascii_text(entries[i].1),
            ),
    decreases entries.len(),
{
    if entries.len() > 0 {
        let front = entries.drop_last();
        law_crossing_headers(all, front, pair);
        let before = crossing(all, front);
        let after = crossing(all, entries);
        if after.contains(pair) {
            let k = choose|k: int| 0 <= k < after.len() && after[k] == pair;
            if k < before.len() {
                assert(before[k] == pair);
                let i = choose|i: int|
                    0 <= i < front.len() && crosses(all, #[trigger] front[i]) && pair == (
                        front[i].0,
                        ascii_text(front[i].1),
                    );
                assert(entries[i] == front[i]);
            } else {
                assert(crosses(all, entries[entries.len() - 1]));
            }
        }
        if exists|i: int|
            0 <= i < entries.len() && crosses(all, #[trigger] entries[i]) && pair == (
                entries[i].0,
                ascii_text(entries[i].1),
            ) {
            let i = choose|i: int|
                0 <= i < entries.len() && crosses(all, #[trigger] entries[i]) && pair == (
                    entries[i].0,
                    ascii_text(entries[i].1),
                );
            if i < front.len() {
                assert(front[i] == entries[i]);
                assert(before.contains(pair));
                let k = choose|k: int| 0 <= k < before.len() && before[k] == pair;
                assert(after[k] == pair);
            } else {
                assert(after[after.len() - 1] == pair);
            }
        }
    }
}

/// No hop-by-hop header reaches the local client.
pub proof fn law_responses_are_end_to_end(entries: Seq<Entry>, i: int)
    requires
        0 <= i < end_to_end(entries).len(),
    ensures
        !hop_by_hop(end_to_end(entries)[i].0),
    decreases entries.len(),
{
    let front = end_to_end(entries.drop_last());
    if i < front.len() {
        law_responses_are_end_to_end(entries.drop_last(), i);
    }
}

/// No hop-by-hop header, and nothing but headers, reaches the upstream.
pub proof fn law_upstream_headers(pairs: Seq<Pair>, i: int)
    requires
        0 <= i < upstream_pairs(pairs).len(),
    ensures
        !hop_by_hop(upstream_pairs(pairs)[i].0),
        exists|j: int|
            0 <= j < pairs.len() && valid_pair(#[trigger] pairs[j]) && upstream_pairs(pairs)[i] == (
                text::lowered(pairs[j].0),
                pairs[j].1,
            ),
    decreases pairs.len(),
{
    let rest = pairs.drop_last();
    let front = upstream_pairs(rest);
    if i < front.len() {
        law_upstream_headers(rest, i);
        let j = choose|j: int|
            0 <= j < rest.len() && valid_pair(#[trigger] rest[j]) && front[i] == (
                text::lowered(rest[j].0),
                rest[j].1,
            );
        assert(pairs[j] == rest[j]);
    } else {
        assert(valid_pair(pairs[pairs.len() - 1]));
    }
}

/// Appending a header adds its value behind those of the same name and leaves
/// the values of every other name alone.
pub proof fn law_append_keeps_other_values(
    entries: Seq<Entry>,
    name: Seq<char>,
    value: Seq<u8>,
    other: Seq<char>,
)
    ensures
        values_of(entry_appended(entries, name, value), other) == if other == name {
            values_of(entries, other).push(value)
        } else {
            values_of(entries, other)
        },
    decreases entries.len(),
{
    lemma_slot_bound(entries, name);
    let after = entry_appended(entries, name, value);
    if entries.len() == 0 || !names_of(entries).contains(name) || entries.last().0 == name {
        assert(after.drop_last() =~= entries);
        assert(after.last() == (name, value));
    } else {
        let front = entries.drop_last();
        law_append_keeps_other_values(front, name, value, other);
        lemma_slot_bound(front, name);
        assert(after.drop_last() =~= entry_appended(front, name, value));
        assert(after.last() == entries.last());
    }
}

/// Whether pairs are such as cross the tunnel: lower-case end-to-end names
/// with visible values, the values of a name side by side.
pub open spec fn tidy_pairs(pairs: Seq<Pair>) -> bool {
    &&& forall|i: int|
        0 <= i < pairs.len() ==> {
            &&& text::lowered((#[trigger] pairs[i]).0) == pairs[i].0
            &&& !hop_by_hop(pairs[i].0)
            &&& visible_chars(pairs[i].1)
        }
    &&& forall|i: int, j: int, k: int|
        0 <= i < j < k < pairs.len() && (#[trigger] pairs[i]).0 == (#[trigger] pairs[k]).0 ==> (
        #[trigger] pairs[j]).0 == pairs[i].0
}

/// Whether all names of some pairs are header names.
pub open spec fn well_named(pairs: Seq<Pair>) -> bool {
    forall|i: int| 0 <= i < pairs.len() ==> valid_header_name((#[trigger] pairs[i]).0)
}

/// Whether pairs are headers that cross unchanged.
pub open spec fn plain_pairs(pairs: Seq<Pair>) -> bool {
    tidy_pairs(pairs) && well_named(pairs)
}

/// Whether a text is visible ASCII, with blanks and tabs.
pub open spec fn visible_chars(s: Seq<char>) -> bool {
    forall|i: int| 0 <= i < s.len() ==> (' ' <= #[trigger] s[i] && s[i] <= '~') || s[i] == '\t'
}

proof fn lemma_visible_chars(s: Seq<char>)
    requires
        visible_chars(s),
    ensures
        valid_header_value(s),
        visible(encode_utf8(s)),
        ascii_text(encode_utf8(s)) == s,
{
    assert(is_ascii_chars(s));
    is_ascii_chars_encode_utf8(s);
    let bytes = encode_utf8(s);
    assert forall|i: int| 0 <= i < bytes.len() implies (32 <= #[trigger] bytes[i] < 127 || bytes[i]
        == 9) && bytes[i] as char == s[i] by {
        assert((' ' <= s[i] && s[i] <= '~') || s[i] == '\t');
    }
    assert(ascii_text(bytes) =~= s);
}

/// The headers that plain pairs are.
pub open spec fn plain_entries(pairs: Seq<Pair>) -> Seq<Entry> {
    pairs.map_values(|p: Pair| (p.0, encode_utf8(p.1)))
}

proof fn lemma_plain_front(pairs: Seq<Pair>)
    requires
        plain_pairs(pairs),
        pairs.len() > 0,
    ensures
        plain_pairs(pairs.drop_last()),
{
    let front = pairs.drop_last();
    assert forall|i: int| 0 <= i < front.len() implies {
        &&& text::lowered((#[trigger] front[i]).0) == front[i].0
        &&& valid_header_name(front[i].0)
        &&& !hop_by_hop(front[i].0)
        &&& visible_chars(front[i].1)
    } by {
        assert(pairs[i] == front[i]);
    }
    assert forall|i: int, j: int, k: int|
        0 <= i < j < k < front.len() && (#[trigger] front[i]).0 == (
        #[trigger] front[k]).0 implies (#[trigger] front[j]).0 == front[i].0 by {
        assert(pairs[i] == front[i] && pairs[j] == front[j] && pairs[k] == front[k]);
    }
}

proof fn lemma_plain_map(pairs: Seq<Pair>)
    requires
        plain_pairs(pairs),
    ensures
        map_of(pairs) == plain_entries(pairs),
    decreases pairs.len(),
{
    if pairs.len() == 0 {
        assert(map_of(pairs) =~= plain_entries(pairs));
    } else {
        let front = pairs.drop_last();
        let last = pairs.last();
        lemma_plain_front(pairs);
        lemma_plain_map(front);
        assert(pairs[pairs.len() - 1] == last);
        lemma_visible_chars(last.1);
        let entries = plain_entries(front);
        lemma_names_of(entries, last.0);
        if names_of(entries).contains(last.0) {
            let i = choose|i: int| 0 <= i < entries.len() && (#[trigger] entries[i]).0 == last.0;
            assert(pairs[i].0 == last.0);
            let m = front.len() - 1;
            if i < m {
                assert(pairs[m].0 == pairs[i].0);
            }
            assert(entries.last().0 == last.0);
        }
        assert(slot(entries, last.0) == entries.len());
        assert(map_of(pairs) =~= plain_entries(pairs));
    }
}

proof fn lemma_no_connection(entries: Seq<Entry>)
    requires
        forall|i: int| 0 <= i < entries.len() ==> (#[trigger] entries[i]).0 != "connection"@,
    ensures
        values_of(entries, "connection"@).len() == 0,
    decreases entries.len(),
{
    if entries.len() > 0 {
        assert(entries[entries.len() - 1].0 != "connection"@);
        assert forall|i: int| 0 <= i < entries.drop_last().len() implies (
        #[trigger] entries.drop_last()[i]).0 != "connection"@ by {
            assert(entries[i] == entries.drop_last()[i]);
        }
        lemma_no_connection(entries.drop_last());
    }
}

proof fn lemma_plain_crossing(all: Seq<Entry>, pairs: Seq<Pair>)
    requires
        values_of(all, "connection"@).len() == 0,
        forall|i: int|
            0 <= i < pairs.len() ==> !hop_by_hop((#[trigger] pairs[i]).0) && visible_chars(
                pairs[i].1,
            ),
    ensures
        crossing(all, plain_entries(pairs)) == pairs,
    decreases pairs.len(),
{
    let entries = plain_entries(pairs);
    if pairs.len() == 0 {
        assert(crossing(all, entries) =~= pairs);
    } else {
        let front = pairs.drop_last();
        assert forall|i: int| 0 <= i < front.len() implies !hop_by_hop((#[trigger] front[i]).0)
            && visible_chars(front[i].1) by {
            assert(pairs[i] == front[i]);
        }
        lemma_plain_crossing(all, front);
        assert(pairs[pairs.len() - 1] == pairs.last());
        lemma_visible_chars(pairs.last().1);
        assert(entries.drop_last() =~= plain_entries(front));
        assert(entries.last() == (pairs.last().0, encode_utf8(pairs.last().1)));
        assert(crosses(all, entries.last()));
        assert(crossing(all, entries) =~= pairs);
    }
}

/// The headers of `entries` that cross the tunnel, in order.
pub open spec fn crossing_entries(all: Seq<Entry>, entries: Seq<Entry>) -> Seq<Entry> {
    entries.filter(|e: Entry| crosses(all, e))
}

proof fn lemma_ascii_text(bytes: Seq<u8>)
    requires
        visible(bytes),
    ensures
        visible_chars(ascii_text(bytes)),
        encode_utf8(ascii_text(bytes)) == bytes,
{
    let s = ascii_text(bytes);
    assert forall|i: int| 0 <= i < s.len() implies (' ' <= #[trigger] s[i] && s[i] <= '~') || s[i]
        == '\t' by {
        assert(32 <= bytes[i] < 127 || bytes[i] == 9);
    }
    assert(is_ascii_chars(s));
    is_ascii_chars_encode_utf8(s);
    assert(encode_utf8(s) =~= bytes);
}

/// Where the pairs that cross stand among the headers they come from.
proof fn lemma_crossing_places(all: Seq<Entry>, entries: Seq<Entry>) -> (places: Seq<int>)
    ensures
        places.len() == crossing(all, entries).len(),
        forall|i: int|
            0 <= i < places.len() ==> {
                &&& 0 <= #[trigger] places[i] < entries.len()
                &&& crosses(all, entries[places[i]])
                &&& crossing(all, entries)[i] == (
                    entries[places[i]].0,
                    ascii_text(entries[places[i]].1),
                )
            },
        forall|i: int, j: int| 0 <= i < j < places.len() ==> places[i] < places[j],
    decreases entries.len(),
{
    if entries.len() == 0 {
        Seq::empty()
    } else {
        let front = entries.drop_last();
        let before = lemma_crossing_places(all, front);
        let pairs = crossing(all, entries);
        assert forall|i: int| 0 <= i < before.len() implies {
            &&& 0 <= #[trigger] before[i] < front.len()
            &&& crosses(all, entries[before[i]])
            &&& pairs[i] == (entries[before[i]].0, ascii_text(entries[before[i]].1))
        } by {
            assert(front[before[i]] == entries[before[i]]);
            assert(crossing(all, front)[i] == pairs[i]);
        }
        if crosses(all, entries.last()) {
            before.push(entries.len() - 1)
        } else {
            before
        }
    }
}

proof fn lemma_crossing_is_tidy(all: Seq<Entry>, entries: Seq<Entry>)
    requires
        in_map_order(entries),
    ensures
        tidy_pairs(crossing(all, entries)),
{
    let pairs = crossing(all, entries);
    let places = lemma_crossing_places(all, entries);
    assert forall|i: int| 0 <= i < pairs.len() implies {
        &&& text::lowered((#[trigger] pairs[i]).0) == pairs[i].0
        &&& !hop_by_hop(pairs[i].0)
        &&& visible_chars(pairs[i].1)
    } by {
        let entry = entries[places[i]];
        assert(crosses(all, entry));
        lemma_ascii_text(entry.1);
    }
    assert forall|i: int, j: int, k: int|
        0 <= i < j < k < pairs.len() && (#[trigger] pairs[i]).0 == (
        #[trigger] pairs[k]).0 implies (#[trigger] pairs[j]).0 == pairs[i].0 by {
        assert(places[i] < places[j] && places[j] < places[k]);
        assert(entries[places[i]].0 == entries[places[k]].0);
        assert(entries[places[j]].0 == entries[places[i]].0);
    }
}

proof fn lemma_crossing_entries(all: Seq<Entry>, entries: Seq<Entry>)
    ensures
        plain_entries(crossing(all, entries)) == crossing_entries(all, entries),
    decreases entries.len(),
{
    reveal(Seq::filter);
    let after = plain_entries(crossing(all, entries));
    if entries.len() == 0 {
        assert(after =~= crossing_entries(all, entries));
    } else {
        let front = entries.drop_last();
        let last = entries.last();
        lemma_crossing_entries(all, front);
        if crosses(all, last) {
            lemma_ascii_text(last.1);
            assert(after =~= plain_entries(crossing(all, front)).push(last));
        }
    }
}

/// Pairs that came out of a header map lose nothing on the way into another
/// one and out again: a second filtering removes nothing, and the order stays.
/// Only a name that is no header name, such as one with a double quote, is
/// left out of the second map.
pub proof fn law_filtering_again_removes_nothing(entries: Seq<Entry>)
    requires
        in_map_order(entries),
        well_named(crossing(entries, entries)),
    ensures
        ({
            let pairs = crossing(entries, entries);
            crossing(map_of(pairs), map_of(pairs)) == pairs
        }),
{
    lemma_crossing_is_tidy(entries, entries);
    law_headers_round_trip(crossing(entries, entries));
}

proof fn lemma_end_to_end(entries: Seq<Entry>)
    requires
        forall|i: int| 0 <= i < entries.len() ==> !hop_by_hop((#[trigger] entries[i]).0),
    ensures
        end_to_end(entries) == entries,
    decreases entries.len(),
{
    if entries.len() == 0 {
        assert(end_to_end(entries) =~= entries);
    } else {
        let front = entries.drop_last();
        assert forall|i: int| 0 <= i < front.len() implies !hop_by_hop((#[trigger] front[i]).0) by {
            assert(front[i] == entries[i]);
        }
        lemma_end_to_end(front);
        assert(!hop_by_hop(entries[entries.len() - 1].0));
        assert(end_to_end(entries) =~= entries);
    }
}

/// A local client is given the headers that crossed the tunnel, with the very
/// values that they had: none is lost, changed, or moved.
pub proof fn law_client_gets_what_crossed(entries: Seq<Entry>)
    requires
        in_map_order(entries),
        well_named(crossing(entries, entries)),
    ensures
        ({
            let pairs = crossing(entries, entries);
            &&& end_to_end(map_of(pairs)) == crossing_entries(entries, entries)
            &&& valid_names(pairs) == names_of(crossing_entries(entries, entries))
        }),
{
    let pairs = crossing(entries, entries);
    lemma_crossing_is_tidy(entries, entries);
    lemma_plain_map(pairs);
    lemma_map_names(pairs);
    lemma_crossing_entries(entries, entries);
    assert forall|i: int| 0 <= i < map_of(pairs).len() implies !hop_by_hop(
        (#[trigger] map_of(pairs)[i]).0,
    ) by {
        assert(!hop_by_hop(pairs[i].0));
    }
    lemma_end_to_end(map_of(pairs));
}

/// An upstream is given the headers that crossed the tunnel as they are.
pub proof fn law_upstream_gets_what_crossed(pairs: Seq<Pair>)
    requires
        plain_pairs(pairs),
    ensures
        upstream_pairs(pairs) == pairs,
    decreases pairs.len(),
{
    if pairs.len() == 0 {
        assert(upstream_pairs(pairs) =~= pairs);
    } else {
        let front = pairs.drop_last();
        lemma_plain_front(pairs);
        law_upstream_gets_what_crossed(front);
        assert(pairs[pairs.len() - 1] == pairs.last());
        lemma_visible_chars(pairs.last().1);
        assert(upstream_pairs(pairs) =~= pairs);
    }
}

/// Plain pairs come out of the header map they were put into as they were.
pub proof fn law_headers_round_trip(pairs: Seq<Pair>)
    requires
        plain_pairs(pairs),
    ensures
        crossing(map_of(pairs), map_of(pairs)) == pairs,
{
    lemma_plain_map(pairs);
    let entries = map_of(pairs);
    assert forall|i: int| 0 <= i < entries.len() implies (#[trigger] entries[i]).0
        != "connection"@ by {
        assert(!hop_by_hop(pairs[i].0));
    }
    lemma_no_connection(entries);
    lemma_plain_crossing(entries, pairs);
}

/// The headers that cross are those of the map for which that holds, each with
/// its value, in the order of the map.
pub proof fn law_crossing_order(entries: Seq<Entry>)
    ensures
        plain_entries(crossing(entries, entries)) == entries.filter(
            |e: Entry| crosses(entries, e),
        ),
        forall|i: int|
            0 <= i < crossing(entries, entries).len() ==> visible_chars(
                (#[trigger] crossing(entries, entries)[i]).1,
            ),
{
    lemma_crossing_entries(entries, entries);
    let pairs = crossing(entries, entries);
    let places = lemma_crossing_places(entries, entries);
    assert forall|i: int| 0 <= i < pairs.len() implies visible_chars((#[trigger] pairs[i]).1) by {
        let entry = entries[places[i]];
        assert(crosses(entries, entry));
        lemma_ascii_text(entry.1);
    }
}

/// The headers that concern one connection only are these ten.
pub proof fn law_hop_by_hop_names(name: Seq<char>)
    ensures
        hop_by_hop(name) <==> seq![
            "connection"@,
            "keep-alive"@,
            "proxy-authenticate"@,
            "proxy-authorization"@,
            "te"@,
            "trailer"@,
            "transfer-encoding"@,
            "upgrade"@,
            "host"@,
            "content-length"@,
        ].contains(name),
{
    let names = seq![
        "connection"@,
        "keep-alive"@,
        "proxy-authenticate"@,
        "proxy-authorization"@,
        "te"@,
        "trailer"@,
        "transfer-encoding"@,
        "upgrade"@,
        "host"@,
        "content-length"@,
    ];
    if hop_by_hop(name) {
        assert(names[0] == name || names[1] == name || names[2] == name || names[3] == name
            || names[4] == name || names[5] == name || names[6] == name || names[7] == name
            || names[8] == name || names[9] == name);
    }
}

/// The methods that are forwarded are these seven.
pub proof fn law_supported_methods(method: Seq<char>)
    ensures
        supported_method(method) <==> seq![
            "GET"@,
            "POST"@,
            "PUT"@,
            "PATCH"@,
            "DELETE"@,
            "HEAD"@,
            "OPTIONS"@,
        ].contains(method),
{
    let methods = seq!["GET"@, "POST"@, "PUT"@, "PATCH"@, "DELETE"@, "HEAD"@, "OPTIONS"@];
    if supported_method(method) {
        assert(methods[0] == method || methods[1] == method || methods[2] == method || methods[3]
            == method || methods[4] == method || methods[5] == method || methods[6] == method);
    }
}

/// The values of a name are those of its headers, in order.
pub proof fn law_values_of(entries: Seq<Entry>, name: Seq<char>)
    ensures
        values_of(entries, name) == entries.filter(|e: Entry| e.0 == name).map_values(
            |e: Entry| e.1,
        ),
    decreases entries.len(),
{
    reveal(Seq::filter);
    let kept = entries.filter(|e: Entry| e.0 == name).map_values(|e: Entry| e.1);
    if entries.len() == 0 {
        assert(values_of(entries, name) =~= kept);
    } else {
        let front = entries.drop_last();
        law_values_of(front, name);
        assert(values_of(entries, name) =~= kept);
    }
}

/// A header is named by the `connection` headers exactly if one of them names
/// it.
pub proof fn law_nominated(entries: Seq<Entry>, name: Seq<char>)
    ensures
        nominated(entries, name) <==> exists|i: int|
            0 <= i < entries.len() && (#[trigger] entries[i]).0 == "connection"@
                && value_nominates(entries[i].1, name),
    decreases entries.len(),
{
    let values = values_of(entries, "connection"@);
    if entries.len() > 0 {
        let front = entries.drop_last();
        let last = entries.last();
        let before = values_of(front, "connection"@);
        law_nominated(front, name);
        if nominated(front, name) {
            let i = choose|i: int| 0 <= i < before.len() && value_nominates(before[i], name);
            assert(values[i] == before[i]);
            let j = choose|j: int|
                0 <= j < front.len() && (#[trigger] front[j]).0 == "connection"@
                    && value_nominates(front[j].1, name);
            assert(entries[j] == front[j]);
        }
        if last.0 == "connection"@ && value_nominates(last.1, name) {
            assert(values[values.len() - 1] == last.1);
            assert(entries[entries.len() - 1] == last);
        }
        if nominated(entries, name) && !nominated(front, name) {
            let i = choose|i: int| 0 <= i < values.len() && value_nominates(values[i], name);
            if i < before.len() {
                assert(before[i] == values[i]);
            }
            assert(entries[entries.len() - 1] == last);
        }
        if exists|i: int|
            0 <= i < entries.len() && (#[trigger] entries[i]).0 == "connection"@
                && value_nominates(entries[i].1, name) {
            let i = choose|i: int|
                0 <= i < entries.len() && (#[trigger] entries[i]).0 == "connection"@
                    && value_nominates(entries[i].1, name);
            if i < front.len() {
                assert(front[i] == entries[i]);
            }
        }
    }
}

/// A `connection` header with names between commas names these headers and no
/// others, in whatever case and with whatever blanks around them.
pub proof fn law_listed_names_are_nominated(list: Seq<Seq<char>>, name: Seq<char>)
    requires
        list.len() > 0,
        forall|i: int|
            0 <= i < list.len() ==> !(#[trigger] list[i]).contains(',') && visible_chars(list[i]),
    ensures
        value_nominates(encode_utf8(text::joined(list, seq![','])), name) <==> exists|i: int|
            0 <= i < list.len() && text::lowered(text::trimmed(#[trigger] list[i])) == name,
{
    let value = text::joined(list, seq![',']);
    text::law_split_of_joined(list, ',');
    lemma_joined_is_visible(list);
    lemma_visible_chars(value);
    let read = text::pieces(ascii_text(encode_utf8(value)), ',');
    assert(read == list);
    if exists|i: int|
        0 <= i < list.len() && text::lowered(text::trimmed(#[trigger] list[i])) == name {
        let i = choose|i: int|
            0 <= i < list.len() && text::lowered(text::trimmed(#[trigger] list[i])) == name;
        assert(text::lowered(text::trimmed(read[i])) == name);
    }
}

proof fn lemma_joined_is_visible(list: Seq<Seq<char>>)
    requires
        forall|i: int| 0 <= i < list.len() ==> visible_chars(#[trigger] list[i]),
    ensures
        visible_chars(text::joined(list, seq![','])),
    decreases list.len(),
{
    if list.len() == 1 {
        assert(visible_chars(list[0]));
    } else if list.len() > 1 {
        let front = list.drop_last();
        assert forall|i: int| 0 <= i < front.len() implies visible_chars(#[trigger] front[i]) by {
            assert(front[i] == list[i]);
        }
        lemma_joined_is_visible(front);
        let start = text::joined(front, seq![',']);
        assert(visible_chars(list[list.len() - 1]));
        let all = start + seq![','] + list.last();
        assert forall|i: int| 0 <= i < all.len() implies (' ' <= #[trigger] all[i] && all[i] <= '~')
            || all[i] == '\t' by {
            if i < start.len() {
                assert(all[i] == start[i]);
            } else if i > start.len() {
                assert(all[i] == list.last()[i - start.len() - 1]);
            }
        }
    }
}

/// A header crosses the tunnel exactly if it is not hop-by-hop, no `connection`
/// header of the same map names it, and its value is visible ASCII.
pub proof fn law_what_crosses(all: Seq<Entry>, entry: Entry)
    ensures
        crosses(all, entry) <==> {
            &&& !hop_by_hop(entry.0)
            &&& forall|i: int|
                0 <= i < all.len() && (#[trigger] all[i]).0 == "connection"@ ==> !value_nominates(
                    all[i].1,
                    entry.0,
                )
            &&& forall|i: int|
                0 <= i < entry.1.len() ==> 32 <= #[trigger] entry.1[i] <= 126 || entry.1[i] == 9
        },
{
    law_nominated(all, entry.0);
}

/// The pairs that go upstream are those that are headers and not hop-by-hop,
/// in order, with their names in lower case and their values as they are.
pub proof fn law_upstream_pairs(pairs: Seq<Pair>)
    ensures
        upstream_pairs(pairs) == pairs.filter(
            |p: Pair| valid_pair(p) && !hop_by_hop(text::lowered(p.0)),
        ).map_values(|p: Pair| (text::lowered(p.0), p.1)),
    decreases pairs.len(),
{
    reveal(Seq::filter);
    let kept = pairs.filter(
        |p: Pair| valid_pair(p) && !hop_by_hop(text::lowered(p.0)),
    ).map_values(|p: Pair| (text::lowered(p.0), p.1));
    if pairs.len() == 0 {
        assert(upstream_pairs(pairs) =~= kept);
    } else {
        law_upstream_pairs(pairs.drop_last());
        assert(upstream_pairs(pairs) =~= kept);
    }
}

/// The headers that a local client is given are those that are not hop-by-hop,
/// in order.
pub proof fn law_end_to_end(entries: Seq<Entry>)
    ensures
        end_to_end(entries) == entries.filter(|e: Entry| !hop_by_hop(e.0)),
    decreases entries.len(),
{
    reveal(Seq::filter);
    let kept = entries.filter(|e: Entry| !hop_by_hop(e.0));
    if entries.len() == 0 {
        assert(end_to_end(entries) =~= kept);
    } else {
        law_end_to_end(entries.drop_last());
    }
}

/// The map of some pairs holds, for every name, the values of the pairs that
/// are headers of that name, in order, and nothing else.
pub proof fn law_map_of_pairs(pairs: Seq<Pair>, name: Seq<char>)
    ensures
        values_of(map_of(pairs), name) == pairs.filter(
            |p: Pair| valid_pair(p) && text::lowered(p.0) == name,
        ).map_values(|p: Pair| encode_utf8(p.1)),
    decreases pairs.len(),
{
    reveal(Seq::filter);
    let kept = pairs.filter(
        |p: Pair| valid_pair(p) && text::lowered(p.0) == name,
    ).map_values(|p: Pair| encode_utf8(p.1));
    if pairs.len() == 0 {
        assert(values_of(map_of(pairs), name) =~= kept);
    } else {
        let front = pairs.drop_last();
        let last = pairs.last();
        law_map_of_pairs(front, name);
        if valid_pair(last) {
            law_append_keeps_other_values(
                map_of(front),
                text::lowered(last.0),
                encode_utf8(last.1),
                name,
            );
        }
        assert(values_of(map_of(pairs), name) =~= kept);
    }
}

} // verus!
