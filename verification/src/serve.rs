//! What a request is answered that no other route takes.
use vstd::prelude::*;

use axum::http::HeaderValue;

use crate::query;
use crate::query::{clean_target, has_marker};
use crate::target;
use crate::target::parse_target;
use crate::text;
use crate::text::starts_with;

verus! {

/// What game clients begin their `User-Agent` with.
pub const GAME_AGENT: &'static str = "JackboxGames";

/// What a game is told that asks for an endpoint that does not exist, as JSON: that
/// all is well, with nothing in it.
pub const UNKNOWN_ENDPOINT_BODY: &'static str = "{\"body\":{},\"ok\":true}";

/// Scheme and authority of an absolute URI.
#[derive(Debug, Clone)]
pub struct Origin {
    pub scheme: String,
    pub authority: String,
}

/// The URI that was asked for.
#[derive(Debug, Clone)]
pub struct RequestUri {
    /// Where the URI is absolute, what stands before its path.
    pub origin: Option<Origin>,
    pub path: String,
    pub query: Option<String>,
}

/// How a request is answered.
#[derive(Debug, PartialEq, Eq)]
pub enum Reply {
    /// The client is sent on to another location.
    Redirect { location: String },
    /// A game asks for an endpoint that does not exist: it is told that all is well.
    UnknownEndpoint,
    /// A page, out of the cache.
    Page,
}

/// Why a request cannot be answered.
#[derive(Debug, PartialEq, Eq)]
pub enum ServeError {
    /// What is left of the target is none.
    InvalidTarget { target: String },
    /// The `User-Agent` is not made of visible characters.
    InvalidUserAgent,
}

/// [`Reply`] with its text as characters.
pub enum ReplyView {
    Redirect { location: Seq<char> },
    UnknownEndpoint,
    Page,
}

/// [`ServeError`] with its text as characters.
pub enum ServeErrorView {
    InvalidTarget { target: Seq<char> },
    InvalidUserAgent,
}

impl View for Reply {
    type V = ReplyView;

    open spec fn view(&self) -> ReplyView {
        match *self {
            Reply::Redirect { location } => ReplyView::Redirect { location: location@ },
            Reply::UnknownEndpoint => ReplyView::UnknownEndpoint,
            Reply::Page => ReplyView::Page,
        }
    }
}

impl View for ServeError {
    type V = ServeErrorView;

    open spec fn view(&self) -> ServeErrorView {
        match *self {
            ServeError::InvalidTarget { target } => ServeErrorView::InvalidTarget {
                target: target@,
            },
            ServeError::InvalidUserAgent => ServeErrorView::InvalidUserAgent,
        }
    }
}

/// An outcome with its texts as characters.
pub open spec fn outcome_view(outcome: Result<Reply, ServeError>) -> Result<
    ReplyView,
    ServeErrorView,
> {
    match outcome {
        Ok(reply) => Ok(reply@),
        Err(error) => Err(error@),
    }
}

/// A URI as text: `scheme://authority` where it is absolute, then its target.
pub open spec fn uri_text(
    origin: Option<Origin>,
    path: Seq<char>,
    query: Option<Seq<char>>,
) -> Seq<char> {
    match origin {
        Some(origin) => origin.scheme@ + seq![':', '/', '/'] + origin.authority@
            + target::target_text(path, query),
        None => target::target_text(path, query),
    }
}

/// `b` is a visible ASCII character, a space or a tab.
pub open spec fn is_visible(b: u8) -> bool {
    32 <= b < 127 || b == 9
}

/// The text of a header whose bytes are `value`, where all of them are visible.
pub open spec fn header_text(value: Seq<u8>) -> Option<Seq<char>> {
    if forall|i: int| 0 <= i < value.len() ==> is_visible(#[trigger] value[i]) {
        Some(Seq::new(value.len(), |i: int| value[i] as char))
    } else {
        None
    }
}

/// The answer to a client that is sent on to `target`, under `origin`.
pub open spec fn redirect_to(origin: Option<Origin>, target: Seq<char>) -> Result<
    ReplyView,
    ServeErrorView,
> {
    match target::parsed_target(target) {
        Some((path, query)) => Ok(ReplyView::Redirect { location: uri_text(origin, path, query) }),
        None => Err(ServeErrorView::InvalidTarget { target }),
    }
}

/// The answer to a client that is not sent on, by its `User-Agent`.
pub open spec fn answer_by_agent(user_agent: Option<Seq<u8>>) -> Result<
    ReplyView,
    ServeErrorView,
> {
    match user_agent {
        None => Ok(ReplyView::Page),
        Some(value) => match header_text(value) {
            None => Err(ServeErrorView::InvalidUserAgent),
            Some(agent) => if text::has_prefix(agent, GAME_AGENT@) {
                Ok(ReplyView::UnknownEndpoint)
            } else {
                Ok(ReplyView::Page)
            },
        },
    }
}

/// The answer to a request for `uri` that comes with `user_agent`.
pub open spec fn answer(uri: RequestUri, user_agent: Option<Seq<u8>>) -> Result<
    ReplyView,
    ServeErrorView,
> {
    match target::opt_chars(uri.query) {
        Some(query) if query::is_marked(query) => redirect_to(
            uri.origin,
            query::cleaned_target(uri.path@, query),
        ),
        _ => answer_by_agent(user_agent),
    }
}

/// The bytes of an optional header.
pub open spec fn opt_bytes(value: Option<&[u8]>) -> Option<Seq<u8>> {
    match value {
        Some(value) => Some(value@),
        None => None,
    }
}

/// `HeaderValue::to_str` of the `http` crate, which `axum` re-exports, on the
/// header that `HeaderValue::from_bytes` makes of `value`. It gives a text
/// exactly where every byte is visible ASCII, a space or a tab, and the text
/// has those bytes for characters.
#[verifier::external_body]
fn header_to_str(value: &[u8]) -> (agent: Option<String>)
    ensures
        target::opt_chars(agent) == header_text(value@),
{
    let header = HeaderValue::from_bytes(value).ok()?;
    header.to_str().ok().map(|agent| agent.to_string())
}

/// A URI as text, as the `http` crate writes it where the path is not empty.
pub fn uri_to_string(origin: &Option<Origin>, path: &str, query: &Option<String>) -> (uri: String)
    ensures
        uri@ == uri_text(*origin, path@, target::opt_chars(*query)),
{
    let mut uri = String::new();
    if let Some(origin) = origin {
        uri.append(&origin.scheme);
        uri.push(':');
        uri.push('/');
        uri.push('/');
        uri.append(&origin.authority);
        assert(uri@ =~= origin.scheme@ + seq![':', '/', '/'] + origin.authority@);
    }
    let ghost front = uri@;
    uri.append(path);
    if let Some(query) = query {
        uri.push('?');
        uri.append(query);
        assert(uri@ =~= front + (path@ + seq!['?'] + query@));
    }
    assert(origin is None ==> uri@ =~= target::target_text(path@, target::opt_chars(*query)));
    uri
}

/// The answer to a request that no other route takes.
///
/// Where `&s=` stands in its query, the client is sent on to the same path
/// without the `s` parameters. Other requests are answered by who asks: a game
/// gets [`Reply::UnknownEndpoint`], all else gets a page.
pub fn serve_jb_tv(uri: &RequestUri, user_agent: Option<&[u8]>) -> (outcome: Result<
    Reply,
    ServeError,
>)
    ensures
        outcome_view(outcome) == answer(*uri, opt_bytes(user_agent)),
{
    if let Some(query) = &uri.query {
        if has_marker(query) {
            let target = clean_target(&uri.path, query);
            return match parse_target(&target) {
                Ok((path, query)) => Ok(
                    Reply::Redirect { location: uri_to_string(&uri.origin, &path, &query) },
                ),
                Err(_) => Err(ServeError::InvalidTarget { target }),
            };
        }
    }
    match user_agent {
        None => Ok(Reply::Page),
        Some(value) => match header_to_str(value) {
            None => Err(ServeError::InvalidUserAgent),
            Some(agent) => if starts_with(&agent, GAME_AGENT) {
                Ok(Reply::UnknownEndpoint)
            } else {
                Ok(Reply::Page)
            },
        },
    }
}

impl Reply {
    /// The status that the reply comes with. That of a page is up to the cache.
    pub fn status_code(&self) -> (status: Option<u16>)
        ensures
            status == match *self {
                Reply::Redirect { .. } => Some(303u16),
                Reply::UnknownEndpoint => Some(200u16),
                Reply::Page => None,
            },
    {
        match self {
            Reply::Redirect { .. } => Some(303),
            Reply::UnknownEndpoint => Some(200),
            Reply::Page => None,
        }
    }

    /// The body that the reply comes with: none to speak of for a redirect, JSON
    /// for a game. That of a page is up to the cache.
    pub fn body(&self) -> (body: Option<String>)
        ensures
            target::opt_chars(body) == match *self {
                Reply::Redirect { .. } => Some(Seq::<char>::empty()),
                Reply::UnknownEndpoint => Some(UNKNOWN_ENDPOINT_BODY@),
                Reply::Page => None,
            },
    {
        match self {
            Reply::Redirect { .. } => Some(String::new()),
            Reply::UnknownEndpoint => Some(UNKNOWN_ENDPOINT_BODY.to_owned()),
            Reply::Page => None,
        }
    }
}

impl ServeError {
    /// The status that the error is answered with.
    pub fn status_code(&self) -> (status: u16)
        ensures
            status == match *self {
                ServeError::InvalidTarget { .. } => 500u16,
                ServeError::InvalidUserAgent => 422u16,
            },
    {
        match self {
            ServeError::InvalidTarget { .. } => 500,
            ServeError::InvalidUserAgent => 422,
        }
    }

    /// The error in words.
    pub fn message(&self) -> (message: String)
        ensures
            message@ == match self@ {
                ServeErrorView::InvalidTarget { target } => "Generated query `"@ + target
                    + "` was not valid"@,
                ServeErrorView::InvalidUserAgent => "UserAgent was not valid UTF-8"@,
            },
    {
        match self {
            ServeError::InvalidTarget { target } => {
                let mut message = "Generated query `".to_owned();
                message.append(target);
                message.append("` was not valid");
                message
            },
            ServeError::InvalidUserAgent => "UserAgent was not valid UTF-8".to_owned(),
        }
    }
}

/// `uri` is one that a request can carry, with `query` for its query: its path
/// begins with `/`, path and query hold only what may stand there, and together
/// they are no longer than a target. The path may be one byte longer than it was
/// sent, for an empty one is read as `/`.
pub open spec fn is_request(uri: RequestUri, query: Seq<char>) -> bool {
    &&& target::opt_chars(uri.query) == Some(query)
    &&& uri.path@.len() > 0
    &&& uri.path@[0] == '/'
    &&& target::is_path(uri.path@)
    &&& target::is_query(query)
    &&& vstd::utf8::encode_utf8(target::target_text(uri.path@, Some(query))).len()
        <= target::MAX_TARGET_LEN + 1
}

/// The query that a client is sent on with.
pub open spec fn query_left(query: Seq<char>) -> Option<Seq<char>> {
    if query::without_s(query::params(query)).len() == 0 {
        None
    } else {
        Some(query::cleaned_query(query))
    }
}

/// A request whose query is marked is always sent on, whoever asks, and never
/// refused: to the same origin and path, with the parameters that are no `s`
/// parameters.
pub proof fn law_marked_request_is_sent_on(
    uri: RequestUri,
    query: Seq<char>,
    user_agent: Option<Seq<u8>>,
)
    requires
        is_request(uri, query),
        query::is_marked(query),
    ensures
        answer(uri, user_agent) == Ok::<ReplyView, ServeErrorView>(
            ReplyView::Redirect { location: uri_text(uri.origin, uri.path@, query_left(query)) },
        ),
{
    target::law_cleaned_target_is_target(uri.path@, query);
}

/// A request whose query is not marked is answered by its `User-Agent` alone.
pub proof fn law_unmarked_request_is_not_sent_on(uri: RequestUri, user_agent: Option<Seq<u8>>)
    requires
        target::opt_chars(uri.query) matches Some(query) ==> !query::is_marked(query),
    ensures
        answer(uri, user_agent) == answer_by_agent(user_agent),
        !(answer(uri, user_agent) matches Ok(ReplyView::Redirect { .. })),
{
}

/// Who follows a redirect is not sent on again: with the query that is left, the
/// request is answered by its `User-Agent`.
pub proof fn law_sent_on_once(uri: RequestUri, query: Seq<char>, user_agent: Option<Seq<u8>>)
    requires
        target::opt_chars(uri.query) == query_left(query),
    ensures
        answer(uri, user_agent) == answer_by_agent(user_agent),
{
    query::law_cleaned_is_not_marked(query);
}

/// A URI as text is its path, with a `?` and its query behind it where it has one,
/// and with scheme, `://` and authority before it where it is absolute. Nothing of
/// them is left out, however long they are.
pub proof fn law_uri_is_origin_path_and_query(
    origin: Origin,
    path: Seq<char>,
    query: Seq<char>,
)
    ensures
        uri_text(None, path, None) == path,
        uri_text(None, path, Some(query)) == path + seq!['?'] + query,
        uri_text(Some(origin), path, None) == origin.scheme@ + seq![':', '/', '/']
            + origin.authority@ + path,
        uri_text(Some(origin), path, Some(query)) == origin.scheme@ + seq![':', '/', '/']
            + origin.authority@ + path + seq!['?'] + query,
{
    let front = origin.scheme@ + seq![':', '/', '/'] + origin.authority@;
    assert(front + (path + seq!['?'] + query) =~= front + path + seq!['?'] + query);
}

/// Whoever asks with `&s=` in the query is sent on to the origin and the path that
/// were asked for, then a `?` and, with `&`s between them, the parameters that do
/// not begin with `s=`; without a `?` where there is none of these. Read as a
/// target, what stands behind the origin gives that path and those parameters.
pub proof fn law_location_is_request_without_s(
    uri: RequestUri,
    query: Seq<char>,
    at: int,
    user_agent: Option<Seq<u8>>,
    front: Seq<char>,
)
    requires
        uri.query matches Some(text) && text@ == query,
        0 <= at && at + 2 < query.len(),
        query[at] == '&' && query[at + 1] == 's' && query[at + 2] == '=',
        uri.path@.len() > 0,
        uri.path@[0] == '/',
        target::is_path(uri.path@),
        target::is_query(query),
        vstd::utf8::encode_utf8(uri.path@ + seq!['?'] + query).len() <= 65535,
        front == match uri.origin {
            Some(origin) => origin.scheme@ + seq![':', '/', '/'] + origin.authority@,
            None => Seq::empty(),
        },
    ensures
        answer(uri, user_agent) matches Ok(ReplyView::Redirect { location }) && {
            let kept = query::without_s(query::params(query));
            let behind = location.skip(front.len() as int);
            &&& location == front + behind
            &&& kept.len() == 0 ==> {
                &&& behind == uri.path@
                &&& target::parsed_target(behind) == Some((uri.path@, None::<Seq<char>>))
            }
            &&& kept.len() > 0 ==> {
                &&& behind == uri.path@ + seq!['?'] + query::join(kept)
                &&& target::parsed_target(behind) == Some((uri.path@, Some(query::join(kept))))
                &&& query::params(query::join(kept)) == kept
            }
        },
{
    let kept = query::without_s(query::params(query));
    assert(query::marked_at(query, at));
    target::law_cleaned_target_is_target(uri.path@, query);
    let target = query::cleaned_target(uri.path@, query);
    if kept.len() > 0 {
        query::law_cleaned_params(query);
    }
    assert((front + target).skip(front.len() as int) =~= target);
    let location = uri_text(uri.origin, uri.path@, query_left(query));
    assert(location =~= front + target);
}

/// Whatever is asked for with `&s=` in the query: where what is left of it is no
/// target, it is refused and named, and else the client is sent on to the path
/// and the query that it is read as.
pub proof fn law_marked_request_is_refused_or_sent_on(
    uri: RequestUri,
    query: Seq<char>,
    at: int,
    user_agent: Option<Seq<u8>>,
    front: Seq<char>,
)
    requires
        uri.query matches Some(text) && text@ == query,
        0 <= at && at + 2 < query.len(),
        query[at] == '&' && query[at + 1] == 's' && query[at + 2] == '=',
        front == match uri.origin {
            Some(origin) => origin.scheme@ + seq![':', '/', '/'] + origin.authority@,
            None => Seq::empty(),
        },
    ensures
        match target::parsed_target(query::cleaned_target(uri.path@, query)) {
            None => answer(uri, user_agent) == Err::<ReplyView, ServeErrorView>(
                ServeErrorView::InvalidTarget {
                    target: query::cleaned_target(uri.path@, query),
                },
            ),
            Some((path, None)) => answer(uri, user_agent) == Ok::<ReplyView, ServeErrorView>(
                ReplyView::Redirect { location: front + path },
            ),
            Some((path, Some(left))) => answer(uri, user_agent) == Ok::<
                ReplyView,
                ServeErrorView,
            >(ReplyView::Redirect { location: front + path + seq!['?'] + left }),
        },
{
    assert(query::marked_at(query, at));
    match target::parsed_target(query::cleaned_target(uri.path@, query)) {
        None => {},
        Some((path, None)) => {
            assert(uri_text(uri.origin, path, None) =~= front + path);
        },
        Some((path, Some(left))) => {
            assert(uri_text(uri.origin, path, Some(left)) =~= front + path + seq!['?'] + left);
        },
    }
}

/// A request without `&s=` in its query is answered by the bytes of its
/// `User-Agent`. Without one it gets a page. With one that holds a byte that is
/// neither visible nor a space or a tab, it is refused. With any other it is taken
/// for a game exactly where the first twelve bytes spell `JackboxGames`, and gets
/// a page else.
pub proof fn law_games_are_told_by_twelve_bytes(uri: RequestUri, agent: Seq<u8>)
    requires
        uri.query matches Some(text) ==> forall|i: int|
            0 <= i && i + 2 < text@.len() ==> !(#[trigger] text@[i] == '&' && text@[i + 1] == 's'
                && text@[i + 2] == '='),
    ensures
        answer(uri, None) == Ok::<ReplyView, ServeErrorView>(ReplyView::Page),
        (exists|i: int|
            0 <= i < agent.len() && (#[trigger] agent[i] > 126 || (agent[i] < 32 && agent[i]
                != 9))) ==> answer(uri, Some(agent)) == Err::<ReplyView, ServeErrorView>(
            ServeErrorView::InvalidUserAgent,
        ),
        (forall|i: int|
            0 <= i < agent.len() ==> 32 <= #[trigger] agent[i] <= 126 || agent[i] == 9) ==> answer(
            uri,
            Some(agent),
        ) == Ok::<ReplyView, ServeErrorView>(
            if agent.len() >= 12 && agent[0] == 'J' as u8 && agent[1] == 'a' as u8 && agent[2]
                == 'c' as u8 && agent[3] == 'k' as u8 && agent[4] == 'b' as u8 && agent[5]
                == 'o' as u8 && agent[6] == 'x' as u8 && agent[7] == 'G' as u8 && agent[8]
                == 'a' as u8 && agent[9] == 'm' as u8 && agent[10] == 'e' as u8 && agent[11]
                == 's' as u8 {
                ReplyView::UnknownEndpoint
            } else {
                ReplyView::Page
            },
        ),
{
    if let Some(query) = target::opt_chars(uri.query) {
        query::law_marked_by_characters(query);
    }
    reveal_strlit("JackboxGames");
    if header_text(agent) is Some {
        let shown = Seq::new(agent.len(), |i: int| agent[i] as char);
        text::law_prefix_by_characters(shown, GAME_AGENT@);
        assert(forall|i: int| 0 <= i < agent.len() ==> shown[i] == agent[i] as char);
        if text::has_prefix(shown, GAME_AGENT@) {
            assert(shown[0] == 'J' && shown[1] == 'a' && shown[2] == 'c' && shown[3] == 'k');
            assert(shown[4] == 'b' && shown[5] == 'o' && shown[6] == 'x' && shown[7] == 'G');
            assert(shown[8] == 'a' && shown[9] == 'm' && shown[10] == 'e' && shown[11] == 's');
        }
    }
}

/// A header is read byte by byte, and only where every byte is visible, a space or
/// a tab.
pub proof fn law_headers_are_read_byte_by_byte(value: Seq<u8>)
    ensures
        header_text(value) is Some <==> forall|i: int|
            0 <= i < value.len() ==> 32 <= #[trigger] value[i] <= 126 || value[i] == 9,
        header_text(value) matches Some(shown) ==> shown.len() == value.len() && forall|i: int|
            0 <= i < value.len() ==> #[trigger] shown[i] as int == value[i] as int,
{
}

/// What a reply, an error and a header are is what the values say: none stands for
/// another.
pub proof fn law_replies_are_what_they_say(text: String, header: &[u8])
    ensures
        outcome_view(Ok(Reply::Redirect { location: text })) == Ok::<ReplyView, ServeErrorView>(
            ReplyView::Redirect { location: text@ },
        ),
        outcome_view(Ok(Reply::UnknownEndpoint)) == Ok::<ReplyView, ServeErrorView>(
            ReplyView::UnknownEndpoint,
        ),
        outcome_view(Ok(Reply::Page)) == Ok::<ReplyView, ServeErrorView>(ReplyView::Page),
        outcome_view(Err(ServeError::InvalidTarget { target: text })) == Err::<
            ReplyView,
            ServeErrorView,
        >(ServeErrorView::InvalidTarget { target: text@ }),
        outcome_view(Err(ServeError::InvalidUserAgent)) == Err::<ReplyView, ServeErrorView>(
            ServeErrorView::InvalidUserAgent,
        ),
        opt_bytes(Some(header)) == Some(header@),
        opt_bytes(None) is None,
{
}

/// What a game is told is a JSON object of an empty body and that all is well.
pub proof fn law_unknown_endpoint_body()
    ensures
        UNKNOWN_ENDPOINT_BODY@ == seq![
            '{', '"', 'b', 'o', 'd', 'y', '"', ':', '{', '}', ',', '"', 'o', 'k', '"', ':', 't',
            'r', 'u', 'e', '}',
        ],
{
    reveal_strlit("{\"body\":{},\"ok\":true}");
    assert(UNKNOWN_ENDPOINT_BODY@ =~= seq![
        '{', '"', 'b', 'o', 'd', 'y', '"', ':', '{', '}', ',', '"', 'o', 'k', '"', ':', 't', 'r',
        'u', 'e', '}',
    ]);
}

} // verus!
