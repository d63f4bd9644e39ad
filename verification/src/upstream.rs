//! Upstream URLs of HTTP services.

use crate::text;
use vstd::prelude::*;
use vstd::utf8::*;

verus! {

/// What the library reads of a URL. The port is absent where it is the default
/// of the scheme.
pub struct UrlView {
    pub text: Seq<char>,
    pub scheme: Seq<char>,
    pub username: Seq<char>,
    pub password: Option<Seq<char>>,
    pub host: Option<Seq<char>>,
    pub port: Option<u16>,
}

/// What `url::Url::parse` makes of a text: nothing if it is no absolute URL.
pub uninterp spec fn url_parse(text: Seq<char>) -> Option<UrlView>;

/// The URL that `text` denotes, after `url::Url::set_path` with `path` and
/// then `url::Url::set_query` with `query`.
pub uninterp spec fn url_edit(text: Seq<char>, path: Seq<char>, query: Option<Seq<char>>) -> Option<
    UrlView,
>;

type UrlParts = (String, String, String, Option<String>, Option<String>, Option<u16>);

/// The characters of an optional string.
pub open spec fn opt_text(s: Option<String>) -> Option<Seq<char>> {
    match s {
        Some(s) => Some(s@),
        None => None,
    }
}

spec fn parts_view(parts: Option<UrlParts>) -> Option<UrlView> {
    match parts {
        Some(p) => Some(
            UrlView {
                text: p.0@,
                scheme: p.1@,
                username: p.2@,
                password: opt_text(p.3),
                host: opt_text(p.4),
                port: p.5,
            },
        ),
        None => None,
    }
}

/// The most bytes of a text that is read as a URL, whose characters are
/// counted in 31 bits.
pub const MAX_TEXT_LEN: usize = 0x7fff_ffff;

/// The most bytes a URL and what is put into it may have together. A `Url`
/// keeps its offsets in 32 bits, percent-encoding makes three bytes of one, and
/// the mapping of a host makes more.
pub const MAX_URL_LEN: usize = 0x1000_0000;

/// Whether the parts are those of an HTTPS URL with a host.
pub open spec fn https_with_host(parts: UrlView) -> bool {
    parts.scheme == "https"@ && parts.host is Some
}

/// Whether two URLs lead to the same place: they have the same scheme, user,
/// password, host, and port.
pub open spec fn same_authority(a: UrlView, b: UrlView) -> bool {
    &&& a.scheme == b.scheme
    &&& a.username == b.username
    &&& a.password == b.password
    &&& a.host == b.host
    &&& a.port == b.port
}

/// Whether a URL leads where it led before its path and query were set.
pub open spec fn authority_kept(before: UrlView, after: UrlView) -> bool {
    &&& after.scheme == before.scheme
    &&& after.host == before.host
    &&& after.port == before.port
    &&& before.host is Some ==> same_authority(after, before)
}

/// `url::Url::parse`: the parts of the URL that a text denotes.
#[verifier::external_body]
fn parse_url(text: &str) -> (out: Option<UrlParts>)
    requires
        encode_utf8(text@).len() <= MAX_TEXT_LEN,
    ensures
        parts_view(out) == url_parse(text@),
{
    let url = url::Url::parse(text).ok()?;
    let password = url.password().map(|p| p.to_string());
    let host = url.host_str().map(|h| h.to_string());
    let (text, scheme) = (url.to_string(), url.scheme().to_string());
    Some((text, scheme, url.username().to_string(), password, host, url.port()))
}

/// `url::Url::set_path` followed by `url::Url::set_query`, on the URL that
/// `text` denotes: both change only what stands behind the authority, so that
/// the scheme, the host, and the port stay as they are, and the user and the
/// password of a URL with a host. Both calls are made on one `Url`, since the
/// text between them need not denote it: the blank in `mailto:b ` would be
/// lost.
#[verifier::external_body]
fn edit_url(text: &str, path: &str, query: Option<&str>) -> (out: Option<UrlParts>)
    requires
        encode_utf8(text@).len() + encode_utf8(path@).len() + (match query {
            Some(q) => encode_utf8(q@).len(),
            None => 0,
        }) <= MAX_URL_LEN,
    ensures
        parts_view(out) == url_edit(
            text@,
            path@,
            match query {
                Some(q) => Some(q@),
                None => None,
            },
        ),
        out is Some <==> url_parse(text@) is Some,
        parts_view(out) matches Some(after) ==> (url_parse(text@) matches Some(before)
            && authority_kept(before, after)),
{
    let mut url = url::Url::parse(text).ok()?;
    url.set_path(path);
    url.set_query(query);
    let password = url.password().map(|p| p.to_string());
    let host = url.host_str().map(|h| h.to_string());
    let (text, scheme) = (url.to_string(), url.scheme().to_string());
    Some((text, scheme, url.username().to_string(), password, host, url.port()))
}

// ---------------------------------------------------------------------------
// Request targets
// ---------------------------------------------------------------------------

/// Whether a request path may be put on an upstream: it starts with `/` and
/// holds no backslash.
pub open spec fn valid_target(target: Seq<char>) -> bool {
    target.len() > 0 && target[0] == '/' && !target.contains('\\')
}

/// The path of a request target: what stands before the first `?`.
pub open spec fn target_path(target: Seq<char>) -> Seq<char> {
    target.take(text::first_at(target, '?') as int)
}

/// The query of a request target: what stands behind the first `?`, if that
/// is not empty.
pub open spec fn target_query(target: Seq<char>) -> Option<Seq<char>> {
    let k = text::first_at(target, '?') as int;
    if k + 1 < target.len() {
        Some(target.skip(k + 1))
    } else {
        None
    }
}

/// The URL that a request target denotes on an upstream.
pub open spec fn joined_url(upstream: Seq<char>, target: Seq<char>) -> Option<UrlView> {
    url_edit(upstream, target_path(target), target_query(target))
}

proof fn lemma_encoded_parts(s: Seq<char>, k: int)
    requires
        0 <= k <= s.len(),
    ensures
        encode_utf8(s.take(k)).len() + encode_utf8(s.skip(k)).len() == encode_utf8(s).len(),
    decreases k,
{
    if k == 0 {
        assert(s.take(0) =~= Seq::<char>::empty());
        assert(s.skip(0) =~= s);
    } else {
        let rest = s.drop_first();
        lemma_encoded_parts(rest, k - 1);
        assert(s.take(k).drop_first() =~= rest.take(k - 1));
        assert(s.take(k)[0] == s[0]);
        assert(rest.skip(k - 1) =~= s.skip(k));
    }
}

/// The path and the query of a request target.
pub fn target_parts(target: &str) -> (out: (String, Option<String>))
    ensures
        out.0@ == target_path(target@),
        opt_text(out.1) == target_query(target@),
        encode_utf8(out.0@).len() + (match out.1 {
            Some(query) => encode_utf8(query@).len(),
            None => 0,
        }) <= encode_utf8(target@).len(),
{
    let ghost k = text::first_at(target@, '?') as int;
    match text::split_once(target, '?') {
        Some((path, query)) => {
            proof {
                lemma_encoded_parts(target@, k);
                lemma_encoded_parts(target@.skip(k), 1);
                assert(target@.skip(k).skip(1) =~= target@.skip(k + 1));
            }
            if query.as_str().is_empty() {
                (path, None)
            } else {
                (path, Some(query))
            }
        },
        None => {
            proof {
                assert(target@.take(k) =~= target@);
            }
            (target.to_owned(), None)
        },
    }
}

// ---------------------------------------------------------------------------
// Upstreams
// ---------------------------------------------------------------------------

/// The URL of an HTTP upstream. It is known by the text that it was read from,
/// and by the request target that was put on it since.
#[derive(Debug)]
pub struct UpstreamUrl {
    source: String,
    target: Option<String>,
    text: String,
    scheme: String,
    username: String,
    password: Option<String>,
    host: Option<String>,
    port: Option<u16>,
}

/// The content of the URL of an upstream.
pub struct UpstreamView {
    pub source: Seq<char>,
    pub target: Option<Seq<char>>,
    pub url: UrlView,
}

/// The URL that a text denotes, with a request target put on it if there is
/// one.
pub open spec fn denoted(source: Seq<char>, target: Option<Seq<char>>) -> Option<UrlView> {
    match target {
        Some(target) => joined_url(source, target),
        None => url_parse(source),
    }
}

impl View for UpstreamUrl {
    type V = UpstreamView;

    closed spec fn view(&self) -> UpstreamView {
        UpstreamView {
            source: self.source@,
            target: opt_text(self.target),
            url: UrlView {
                text: self.text@,
                scheme: self.scheme@,
                username: self.username@,
                password: opt_text(self.password),
                host: opt_text(self.host),
                port: self.port,
            },
        }
    }
}

fn clone_text(text: &Option<String>) -> (out: Option<String>)
    ensures
        opt_text(out) == opt_text(*text),
{
    match text {
        Some(text) => Some(text.clone()),
        None => None,
    }
}

impl Clone for UpstreamUrl {
    fn clone(&self) -> (out: UpstreamUrl)
        ensures
            out@ == self@,
    {
        proof {
            use_type_invariant(self);
        }
        UpstreamUrl {
            source: self.source.clone(),
            target: clone_text(&self.target),
            text: self.text.clone(),
            scheme: self.scheme.clone(),
            username: self.username.clone(),
            password: clone_text(&self.password),
            host: clone_text(&self.host),
            port: self.port,
        }
    }
}

impl UpstreamUrl {
    #[verifier::type_invariant]
    spec fn inv(self) -> bool {
        &&& denoted(self@.source, self@.target) == Some(self@.url)
        &&& url_parse(self@.source) matches Some(before) && authority_kept(before, self@.url)
    }

    /// Reads an absolute URL.
    pub fn parse(text: &str) -> (out: Option<UpstreamUrl>)
        ensures
            out is Some <==> encode_utf8(text@).len() <= MAX_TEXT_LEN && url_parse(text@) is Some,
            out matches Some(url) ==> url@.source == text@ && url@.target is None && Some(url@.url)
                == url_parse(text@),
    {
        if text.as_bytes().len() > MAX_TEXT_LEN {
            return None;
        }
        match parse_url(text) {
            Some((serialized, scheme, username, password, host, port)) => Some(
                UpstreamUrl {
                    source: text.to_owned(),
                    target: None,
                    text: serialized,
                    scheme,
                    username,
                    password,
                    host,
                    port,
                },
            ),
            None => None,
        }
    }

    /// The text that the URL was read from.
    pub fn source(&self) -> (out: &str)
        ensures
            out@ == self@.source,
    {
        self.source.as_str()
    }

    /// The request target that was put on the URL.
    pub fn target(&self) -> (out: Option<&str>)
        ensures
            match out {
                Some(target) => self@.target == Some(target@),
                None => self@.target is None,
            },
    {
        match &self.target {
            Some(target) => Some(target.as_str()),
            None => None,
        }
    }

    /// The serialisation of the URL.
    pub fn as_str(&self) -> (out: &str)
        ensures
            out@ == self@.url.text,
    {
        self.text.as_str()
    }

    /// The scheme, in lower case and without the colon.
    pub fn scheme(&self) -> (out: &str)
        ensures
            out@ == self@.url.scheme,
    {
        self.scheme.as_str()
    }

    /// Whether the URL names a host.
    pub fn has_host(&self) -> (out: bool)
        ensures
            out == self@.url.host is Some,
    {
        self.host.is_some()
    }
}

/// Why a request path cannot be put on an upstream.
#[derive(Debug, Clone, Copy, PartialEq, Eq, Structural)]
pub enum JoinError {
    /// The path does not start with `/`, or holds a backslash.
    InvalidPath,
}

/// Puts the path and query of a request on an upstream URL, in place of its
/// own.
///
/// Every valid path succeeds. Where the upstream has a host, the result has
/// the scheme, the user, the password, the host, and the port of the upstream.
pub fn join_upstream_url(upstream: &UpstreamUrl, path_and_query: &str) -> (out: Result<
    UpstreamUrl,
    JoinError,
>)
    requires
        encode_utf8(upstream@.source).len() + encode_utf8(path_and_query@).len() <= MAX_URL_LEN,
    ensures
        out is Ok <==> valid_target(path_and_query@),
        out matches Err(e) ==> e == JoinError::InvalidPath,
        out matches Ok(url) ==> url@.source == upstream@.source && url@.target == Some(
            path_and_query@,
        ) && Some(url@.url) == joined_url(upstream@.source, path_and_query@),
        upstream@.url.host is Some ==> (out matches Ok(url) ==> same_authority(
            url@.url,
            upstream@.url,
        )),
{
    proof {
        use_type_invariant(upstream);
    }
    let chars = text::chars_of(path_and_query);
    if chars.len() == 0 || chars[0] != '/' || text::contains_char(path_and_query, '\\') {
        return Err(JoinError::InvalidPath);
    }
    let (path, query) = target_parts(path_and_query);
    let edited = match &query {
        Some(query) => edit_url(upstream.source.as_str(), path.as_str(), Some(query.as_str())),
        None => edit_url(upstream.source.as_str(), path.as_str(), None),
    };
    let (text, scheme, username, password, host, port) = edited.unwrap();
    Ok(
        UpstreamUrl {
            source: upstream.source.clone(),
            target: Some(path_and_query.to_owned()),
            text,
            scheme,
            username,
            password,
            host,
            port,
        },
    )
}

// ---------------------------------------------------------------------------
// Laws
// ---------------------------------------------------------------------------

/// The path and the query of a target make it up again. The path ends before
/// the first `?`, and the query is all that stands behind it, unless that is
/// nothing.
pub proof fn law_target_is_made_up_of_its_parts(target: Seq<char>)
    ensures
        !target_path(target).contains('?'),
        match target_query(target) {
            Some(query) => query.len() > 0 && target == target_path(target) + seq!['?'] + query,
            None => target == target_path(target) || target == target_path(target) + seq!['?'],
        },
{
    text::law_first_at(target, '?');
    let k = text::first_at(target, '?') as int;
    match target_query(target) {
        Some(query) => {
            assert(target =~= target_path(target) + seq!['?'] + query);
        },
        None => {
            if k == target.len() {
                assert(target =~= target_path(target));
            } else {
                assert(target =~= target_path(target) + seq!['?']);
            }
        },
    }
}

/// A path and a query that are written with a `?` between them are set as they
/// are, whatever else the query holds. Without a query, or with an empty one,
/// none is set.
pub proof fn law_parts_of_a_target(upstream: Seq<char>, path: Seq<char>, query: Seq<char>)
    requires
        !path.contains('?'),
    ensures
        joined_url(upstream, path) == url_edit(upstream, path, None),
        joined_url(upstream, path + seq!['?']) == url_edit(upstream, path, None),
        query.len() > 0 ==> joined_url(upstream, path + seq!['?'] + query) == url_edit(
            upstream,
            path,
            Some(query),
        ),
{
    lemma_parts(path, Seq::empty());
    assert(path + seq!['?'] + Seq::<char>::empty() =~= path + seq!['?']);
    lemma_parts(path, query);
    text::law_first_at(path, '?');
    assert(path.take(path.len() as int) =~= path);
}

proof fn lemma_parts(path: Seq<char>, query: Seq<char>)
    requires
        !path.contains('?'),
    ensures
        target_path(path + seq!['?'] + query) == path,
        target_query(path + seq!['?'] + query) == if query.len() > 0 {
            Some(query)
        } else {
            None
        },
{
    let target = path + seq!['?'] + query;
    text::law_first_at(target, '?');
    let k = text::first_at(target, '?') as int;
    assert(target[path.len() as int] == '?');
    if k > path.len() {
        assert(target.take(k)[path.len() as int] == '?');
    }
    if k < path.len() {
        assert(path[k] == '?');
    }
    assert(target_path(target) =~= path);
    if query.len() > 0 {
        assert(target.skip(k + 1) =~= query);
    }
}

/// A target is valid exactly if it starts with `/` and no character of it is a
/// backslash.
pub proof fn law_valid_target(target: Seq<char>)
    ensures
        valid_target(target) <==> "/"@.is_prefix_of(target) && forall|i: int|
            0 <= i < target.len() ==> #[trigger] target[i] != '\\',
{
    reveal_strlit("/");
    if valid_target(target) {
        assert("/"@ =~= target.subrange(0, 1));
    }
    if "/"@.is_prefix_of(target) {
        assert(target.subrange(0, 1)[0] == '/');
    }
}

/// Two URLs lead to the same place only if nothing in front of their paths
/// differs, and an HTTPS upstream has the scheme and a host.
pub proof fn law_authority(a: UrlView, b: UrlView)
    ensures
        same_authority(a, b) <==> (a.scheme, a.username, a.password, a.host, a.port) == (
            b.scheme,
            b.username,
            b.password,
            b.host,
            b.port,
        ),
        authority_kept(a, b) && a.host is Some ==> same_authority(a, b),
        authority_kept(a, b) ==> a.scheme == b.scheme && a.host == b.host && a.port == b.port,
        https_with_host(a) <==> a.scheme == "https"@ && a.host is Some,
{
}

} // verus!
