//! Login callbacks: `vibedev://auth-callback?payload=...`.

use vstd::prelude::*;
use vstd::string::*;

use crate::lists;
use crate::text;

verus! {

/// Counts the login callbacks that were relayed; observers look for a change.
#[derive(Clone, Copy, Debug, PartialEq, Eq, Structural)]
pub struct VibedevAccountUpdated {
    pub revision: u64,
}

impl Default for VibedevAccountUpdated {
    fn default() -> (r: VibedevAccountUpdated)
        ensures
            r.revision == 0,
    {
        VibedevAccountUpdated { revision: 0 }
    }
}

/// The signal after one more relayed callback: one past the last revision, which
/// stays at the greatest number once it is there.
pub fn next_revision(last: Option<VibedevAccountUpdated>) -> (r: VibedevAccountUpdated)
    ensures
        r.revision == revision_after(last),
        r.revision == (match last {
            Some(s) => if s.revision < u64::MAX {
                s.revision + 1
            } else {
                u64::MAX as int
            },
            None => 1,
        }),
{
    match last {
        Some(s) => VibedevAccountUpdated { revision: s.revision.saturating_add(1) },
        None => VibedevAccountUpdated { revision: 1 },
    }
}

/// Why a URL is not a login callback.
#[derive(Debug, PartialEq, Eq)]
pub enum CallbackError {
    /// It does not begin with `vibedev://`.
    NotVibedev,
    /// It has no query.
    MissingQuery,
    /// It leads elsewhere; with the route.
    UnexpectedRoute(String),
    /// The query has no `payload`, or an empty one.
    MissingPayload,
}

impl CallbackError {
    /// The error in words.
    pub fn message(&self) -> (r: String)
        ensures
            r@ == (match *self {
                CallbackError::NotVibedev => "not a vibedev:// URL"@,
                CallbackError::MissingQuery => "missing query string on vibedev:// URL"@,
                CallbackError::UnexpectedRoute(route) => "unexpected vibedev:// route: "@
                    + text::debugged(route@) + " (expected `auth-callback`)"@,
                CallbackError::MissingPayload =>
                    "vibedev://auth-callback missing `payload` query parameter"@,
            }),
    {
        match self {
            CallbackError::NotVibedev => "not a vibedev:// URL".to_owned(),
            CallbackError::MissingQuery => "missing query string on vibedev:// URL".to_owned(),
            CallbackError::UnexpectedRoute(route) => {
                let shown = text::debug_text(route.as_str());
                let mut s = text::join("unexpected vibedev:// route: ", shown.as_str());
                s.append(" (expected `auth-callback`)");
                s
            },
            CallbackError::MissingPayload =>
                "vibedev://auth-callback missing `payload` query parameter".to_owned(),
        }
    }
}

// ---------------------------------------------------------------------------
// Decoding
// ---------------------------------------------------------------------------

/// What `urlencoding::decode` makes of a text.
pub uninterp spec fn percent_decoded(s: Seq<char>) -> Option<Seq<char>>;

/// The pairs that `form_urlencoded::parse` yields for a query.
pub uninterp spec fn form_pairs(query: Seq<char>) -> Seq<(Seq<char>, Seq<char>)>;

/// `urlencoding::decode`: the text with its percent escapes decoded, or `None`
/// where the decoded bytes are not UTF-8. A text without a percent sign is
/// returned as it is.
#[verifier::external_body]
fn percent_decode(s: &str) -> (r: Option<String>)
    ensures
        match r {
            Some(t) => percent_decoded(s@) == Some(t@),
            None => percent_decoded(s@) is None,
        },
        !s@.contains('%') ==> r is Some && (r->0)@ == s@,
{
    urlencoding::decode(s).ok().map(|t| t.into_owned())
}

pub open spec fn pair_texts(pairs: Seq<(String, String)>) -> Seq<(Seq<char>, Seq<char>)> {
    pairs.map_values(|p: (String, String)| (p.0@, p.1@))
}

/// The text means nothing but itself in a query.
pub open spec fn is_plain(s: Seq<char>) -> bool {
    !s.contains('&') && !s.contains('%') && !s.contains('+')
}

/// `url::form_urlencoded::parse`: the decoded names and values of a query, in
/// order. A query of one name and one value, joined by an equals sign and neither
/// of them escaped, yields that pair.
#[verifier::external_body]
fn query_pairs(query: &str) -> (r: Vec<(String, String)>)
    ensures
        pair_texts(r@) == form_pairs(query@),
        forall|name: Seq<char>, value: Seq<char>|
            is_plain(name) && !name.contains('=') && is_plain(value) && query@ == #[trigger] (name
                + seq!['='] + value) ==> pair_texts(r@) == seq![(name, value)],
{
    url::form_urlencoded::parse(query.as_bytes()).into_owned().collect()
}

/// The value of the first pair with the name, from `from` on.
pub open spec fn first_value(
    pairs: Seq<(Seq<char>, Seq<char>)>,
    name: Seq<char>,
    from: int,
) -> Option<Seq<char>>
    decreases pairs.len() - from,
{
    if from < 0 || from >= pairs.len() {
        None
    } else if pairs[from].0 == name {
        Some(pairs[from].1)
    } else {
        first_value(pairs, name, from + 1)
    }
}

/// The payload of a parsed query: the first value named `payload`, unless that is
/// empty.
pub open spec fn payload_of(pairs: Seq<(Seq<char>, Seq<char>)>) -> Option<Seq<char>> {
    match first_value(pairs, "payload"@, 0) {
        Some(v) => if v.len() == 0 {
            None
        } else {
            Some(v)
        },
        None => None,
    }
}

/// The payload among the decoded pairs of a query.
pub fn payload_in(pairs: &Vec<(String, String)>) -> (r: Option<String>)
    ensures
        lists::text_of(r) == payload_of(pair_texts(pairs@)),
{
    let ghost all = pair_texts(pairs@);
    let mut i: usize = 0;
    while i < pairs.len()
        invariant
            i <= pairs.len(),
            all == pair_texts(pairs@),
            first_value(all, "payload"@, 0) == first_value(all, "payload"@, i as int),
        decreases pairs.len() - i,
    {
        assert(all[i as int] == (pairs@[i as int].0@, pairs@[i as int].1@));
        if text::same(pairs[i].0.as_str(), "payload") {
            if pairs[i].1.as_str().is_empty() {
                return None;
            }
            return Some(pairs[i].1.clone());
        }
        i += 1;
    }
    None
}

/// Decodes the percent escapes of a payload; `None` where what they stand for is
/// not UTF-8. A payload without a percent sign is its own decoding.
pub fn decode_payload(raw: &str) -> (r: Option<String>)
    ensures
        lists::text_of(r) == percent_decoded(raw@),
        !raw@.contains('%') ==> lists::text_of(r) == Some(raw@),
{
    percent_decode(raw)
}

// ---------------------------------------------------------------------------
// The callback URL
// ---------------------------------------------------------------------------

/// A callback URL taken apart.
pub ghost enum CallbackModel {
    NotVibedev,
    MissingQuery,
    UnexpectedRoute(Seq<char>),
    Query(Seq<char>),
}

/// The query of a callback URL, or what stands in the way of it: the scheme, then
/// the question mark, then the route with slashes at its end left out.
pub open spec fn taken_apart(url: Seq<char>) -> CallbackModel {
    let scheme = "vibedev://"@;
    if !text::begins_with(url, scheme) {
        CallbackModel::NotVibedev
    } else {
        let rest = url.skip(scheme.len() as int);
        let mark = text::index_from(rest, '?', 0);
        if mark >= rest.len() {
            CallbackModel::MissingQuery
        } else {
            let route = text::without_trailing(rest.take(mark), '/');
            if route != "auth-callback"@ {
                CallbackModel::UnexpectedRoute(route)
            } else {
                CallbackModel::Query(rest.skip(mark + 1))
            }
        }
    }
}

/// What the callback URL gives, with the pairs of its query.
pub open spec fn callback_result(url: Seq<char>, r: Result<String, CallbackError>) -> bool {
    match taken_apart(url) {
        CallbackModel::NotVibedev => r matches Err(CallbackError::NotVibedev),
        CallbackModel::MissingQuery => r matches Err(CallbackError::MissingQuery),
        CallbackModel::UnexpectedRoute(route) => r matches Err(
            CallbackError::UnexpectedRoute(x),
        ) && x@ == route,
        CallbackModel::Query(query) => match payload_of(form_pairs(query)) {
            Some(p) => r matches Ok(x) && x@ == p,
            None => r matches Err(CallbackError::MissingPayload),
        },
    }
}

/// The result is this payload.
pub open spec fn gives(r: Result<String, CallbackError>, payload: Seq<char>) -> bool {
    match r {
        Ok(p) => p@ == payload,
        Err(_) => false,
    }
}

/// The query of a callback URL.
pub fn callback_query(url: &str) -> (r: Result<String, CallbackError>)
    ensures
        match taken_apart(url@) {
            CallbackModel::NotVibedev => r matches Err(CallbackError::NotVibedev),
            CallbackModel::MissingQuery => r matches Err(CallbackError::MissingQuery),
            CallbackModel::UnexpectedRoute(route) => r matches Err(
                CallbackError::UnexpectedRoute(x),
            ) && x@ == route,
            CallbackModel::Query(query) => r matches Ok(x) && x@ == query,
        },
{
    let rest = match text::after_prefix(url, "vibedev://") {
        Some(rest) => rest,
        None => return Err(CallbackError::NotVibedev),
    };
    let v = text::chars_of(rest.as_str());
    let mark = text::index_of(&v, '?', 0);
    if mark >= v.len() {
        return Err(CallbackError::MissingQuery);
    }
    let host = text::string_of(&v, 0, mark);
    assert(host@ =~= rest@.take(mark as int));
    let route = text::trim_end_char(host.as_str(), '/');
    if !text::same(route.as_str(), "auth-callback") {
        return Err(CallbackError::UnexpectedRoute(route));
    }
    let query = text::string_of(&v, mark + 1, v.len());
    assert(query@ =~= rest@.skip(mark + 1));
    Ok(query)
}

/// The payload of a login callback.
pub fn parse_callback_url(url: &str) -> (r: Result<String, CallbackError>)
    ensures
        callback_result(url@, r),
        forall|slashes: Seq<char>, payload: Seq<char>|
            is_plain(payload) && payload.len() > 0 && (forall|i: int|
                0 <= i < slashes.len() ==> slashes[i] == '/') && url@ == #[trigger] callback_url(
                slashes,
                payload,
            ) ==> gives(r, payload),
{
    let query = match callback_query(url) {
        Ok(query) => query,
        Err(e) => {
            proof {
                assert forall|slashes: Seq<char>, payload: Seq<char>|
                    (forall|i: int| 0 <= i < slashes.len() ==> slashes[i] == '/') && url@
                        == #[trigger] callback_url(slashes, payload) implies false by {
                    law_slashes_before_query_are_tolerated(slashes, payload);
                }
            }
            return Err(e);
        },
    };
    let pairs = query_pairs(query.as_str());
    proof {
        assert forall|slashes: Seq<char>, payload: Seq<char>|
            is_plain(payload) && payload.len() > 0 && (forall|i: int|
                0 <= i < slashes.len() ==> slashes[i] == '/') && url@ == #[trigger] callback_url(
                slashes,
                payload,
            ) implies payload_of(pair_texts(pairs@)) == Some(payload) by {
            law_slashes_before_query_are_tolerated(slashes, payload);
            lemma_payload_name();
            assert(query@ == "payload"@ + seq!['='] + payload);
            assert(pair_texts(pairs@) == seq![("payload"@, payload)]);
            assert(first_value(seq![("payload"@, payload)], "payload"@, 0) == Some(payload));
        }
    }
    match payload_in(&pairs) {
        Some(p) => Ok(p),
        None => Err(CallbackError::MissingPayload),
    }
}

/// The callback URL of a payload, with a number of slashes before the query.
pub open spec fn callback_url(slashes: Seq<char>, payload: Seq<char>) -> Seq<char> {
    "vibedev://auth-callback"@ + slashes + "?payload="@ + payload
}

proof fn lemma_payload_name()
    ensures
        is_plain("payload"@),
        !"payload"@.contains('='),
        "payload"@.len() == 7,
        "?payload="@ == seq!['?'] + "payload"@ + seq!['='],
{
    reveal_strlit("payload");
    reveal_strlit("?payload=");
    assert("?payload="@ =~= seq!['?'] + "payload"@ + seq!['=']);
}

proof fn lemma_trailing(s: Seq<char>, slashes: Seq<char>)
    requires
        forall|i: int| 0 <= i < slashes.len() ==> slashes[i] == '/',
        s.len() > 0,
        s.last() != '/',
    ensures
        text::without_trailing(s + slashes, '/') == s,
    decreases slashes.len(),
{
    if slashes.len() == 0 {
        assert(s + slashes =~= s);
    } else {
        assert((s + slashes).drop_last() =~= s + slashes.drop_last());
        assert((s + slashes).last() == '/');
        lemma_trailing(s, slashes.drop_last());
    }
}

proof fn lemma_index(s: Seq<char>, c: char, from: int, at: int)
    requires
        0 <= from <= at < s.len(),
        s[at] == c,
        forall|i: int| from <= i < at ==> s[i] != c,
    ensures
        text::index_from(s, c, from) == at,
    decreases at - from,
{
    if from < at {
        lemma_index(s, c, from + 1, at);
    }
}

/// The query of a callback URL is what follows the question mark, whatever number
/// of slashes stands before it.
pub proof fn law_slashes_before_query_are_tolerated(slashes: Seq<char>, payload: Seq<char>)
    requires
        forall|i: int| 0 <= i < slashes.len() ==> slashes[i] == '/',
    ensures
        taken_apart(callback_url(slashes, payload)) == CallbackModel::Query(
            "payload"@ + seq!['='] + payload,
        ),
{
    let url = callback_url(slashes, payload);
    let scheme = "vibedev://"@;
    let name = "auth-callback"@;
    reveal_strlit("vibedev://");
    reveal_strlit("auth-callback");
    reveal_strlit("vibedev://auth-callback");
    lemma_payload_name();
    assert("vibedev://auth-callback"@ =~= scheme + name);
    assert(url.take(10) =~= scheme);
    let rest = url.skip(10);
    let tail = "payload"@ + seq!['='] + payload;
    assert(rest =~= name + slashes + seq!['?'] + tail);
    let mark = (name.len() + slashes.len()) as int;
    lemma_index(rest, '?', 0, mark);
    assert(rest.take(mark) =~= name + slashes);
    lemma_trailing(name, slashes);
    assert(rest.skip(mark + 1) =~= tail);
}

/// An address of another scheme is no callback; one without a question mark has no query;
/// one with another route is refused with that route.
pub proof fn law_other_addresses_are_refused(url: Seq<char>, route: Seq<char>, query: Seq<char>)
    ensures
        !text::begins_with(url, "vibedev://"@) ==> taken_apart(url) == CallbackModel::NotVibedev,
        !route.contains('?') ==> taken_apart("vibedev://"@ + route) == CallbackModel::MissingQuery,
        !route.contains('?') && (route.len() > 0 ==> route.last() != '/') && route
            != "auth-callback"@ ==> taken_apart("vibedev://"@ + route + seq!['?'] + query)
            == CallbackModel::UnexpectedRoute(route),
        taken_apart("vibedev://auth-callback?"@ + query) == CallbackModel::Query(query),
{
    let scheme = "vibedev://"@;
    reveal_strlit("vibedev://");
    reveal_strlit("auth-callback");
    reveal_strlit("vibedev://auth-callback?");
    if !route.contains('?') {
        assert forall|i: int| 0 <= i < route.len() implies #[trigger] route[i] != '?' by {
            assert(route.contains(route[i]));
        }
        let bare = scheme + route;
        assert(bare.take(scheme.len() as int) =~= scheme);
        assert(bare.skip(scheme.len() as int) =~= route);
        lemma_absent(route, '?', 0);
        let full = scheme + route + seq!['?'] + query;
        assert(full.take(scheme.len() as int) =~= scheme);
        let rest = route + seq!['?'] + query;
        assert(full.skip(scheme.len() as int) =~= rest);
        lemma_index(rest, '?', 0, route.len() as int);
        assert(rest.take(route.len() as int) =~= route);
    }
    let name = "auth-callback"@;
    let url = "vibedev://auth-callback?"@ + query;
    let rest = name + seq!['?'] + query;
    assert(url.take(scheme.len() as int) =~= scheme);
    assert(url.skip(scheme.len() as int) =~= rest);
    lemma_index(rest, '?', 0, name.len() as int);
    assert(rest.take(name.len() as int) =~= name);
    assert(rest.skip((name.len() + 1) as int) =~= query);
    assert(text::without_trailing(name, '/') == name);
}

proof fn lemma_absent(s: Seq<char>, c: char, from: int)
    requires
        0 <= from <= s.len(),
        forall|i: int| from <= i < s.len() ==> s[i] != c,
    ensures
        text::index_from(s, c, from) == s.len(),
    decreases s.len() - from,
{
    if from < s.len() {
        lemma_absent(s, c, from + 1);
    }
}

/// The first value that is named `payload` is the payload, wherever it stands; an empty one
/// is none, and so is a query without it.
pub proof fn law_first_payload_counts(pairs: Seq<(Seq<char>, Seq<char>)>, at: int)
    ensures
        0 <= at < pairs.len() && pairs[at].0 == "payload"@ && (forall|i: int|
            0 <= i < at ==> (#[trigger] pairs[i]).0 != "payload"@) ==> payload_of(pairs) == (
        if pairs[at].1.len() == 0 {
            None
        } else {
            Some(pairs[at].1)
        }),
        (forall|i: int| 0 <= i < pairs.len() ==> (#[trigger] pairs[i]).0 != "payload"@)
            ==> payload_of(pairs) is None,
{
    if 0 <= at < pairs.len() && pairs[at].0 == "payload"@ && (forall|i: int|
        0 <= i < at ==> (#[trigger] pairs[i]).0 != "payload"@) {
        lemma_first_value(pairs, "payload"@, 0, at);
    }
    if forall|i: int| 0 <= i < pairs.len() ==> (#[trigger] pairs[i]).0 != "payload"@ {
        lemma_no_value(pairs, "payload"@, 0);
    }
}

proof fn lemma_first_value(
    pairs: Seq<(Seq<char>, Seq<char>)>,
    name: Seq<char>,
    from: int,
    at: int,
)
    requires
        0 <= from <= at < pairs.len(),
        pairs[at].0 == name,
        forall|i: int| from <= i < at ==> (#[trigger] pairs[i]).0 != name,
    ensures
        first_value(pairs, name, from) == Some(pairs[at].1),
    decreases at - from,
{
    if from < at {
        lemma_first_value(pairs, name, from + 1, at);
    }
}

proof fn lemma_no_value(pairs: Seq<(Seq<char>, Seq<char>)>, name: Seq<char>, from: int)
    requires
        0 <= from,
        forall|i: int| from <= i < pairs.len() ==> (#[trigger] pairs[i]).0 != name,
    ensures
        first_value(pairs, name, from) is None,
    decreases pairs.len() - from,
{
    if from < pairs.len() {
        lemma_no_value(pairs, name, from + 1);
    }
}

/// Every address that is not the login's own is refused for what is wrong with it, and the
/// login's is taken where its query has a payload.
pub proof fn law_callback_answers_the_address(url: Seq<char>, r: Result<String, CallbackError>)
    requires
        callback_result(url, r),
    ensures
        taken_apart(url) is NotVibedev ==> r matches Err(CallbackError::NotVibedev),
        taken_apart(url) is MissingQuery ==> r matches Err(CallbackError::MissingQuery),
        taken_apart(url) is UnexpectedRoute ==> r matches Err(CallbackError::UnexpectedRoute(_)),
        (taken_apart(url) matches CallbackModel::Query(q) && payload_of(form_pairs(q)) is Some)
            ==> (r matches Ok(p) && payload_of(form_pairs(taken_apart(url)->Query_0)) == Some(
            p@,
        )),
        (taken_apart(url) matches CallbackModel::Query(q) && payload_of(form_pairs(q)) is None)
            ==> r matches Err(CallbackError::MissingPayload),
{
}

/// A payload that is given is handed out as it is.
pub proof fn law_payload_is_handed_out(r: Result<String, CallbackError>, payload: Seq<char>)
    ensures
        gives(r, payload) <==> (r matches Ok(p) && p@ == payload),
{
}

/// The number of a change: one more than that of the last, until no higher one fits.
pub open spec fn revision_after(last: Option<VibedevAccountUpdated>) -> int {
    match last {
        Some(s) => if s.revision == u64::MAX {
            s.revision as int
        } else {
            s.revision + 1
        },
        None => 1,
    }
}

/// Changes are numbered from one on, without a gap.
pub proof fn law_changes_are_numbered(last: VibedevAccountUpdated)
    ensures
        revision_after(None) == 1,
        last.revision < u64::MAX ==> revision_after(Some(last)) == last.revision + 1,
        last.revision == u64::MAX ==> revision_after(Some(last)) == u64::MAX,
{
}

} // verus!
