//! The target of a request: its path and query as one text.
use vstd::prelude::*;
use vstd::utf8;

use axum::http::uri::{InvalidUri, PathAndQuery};

use crate::query;

verus! {

/// The longest target, in bytes.
pub const MAX_TARGET_LEN: usize = 65534;

/// `c` may stand in a path.
pub open spec fn is_path_char(c: char) -> bool {
    ||| c == '!'
    ||| c == '"'
    ||| '$' <= c && c <= ';'
    ||| c == '='
    ||| '@' <= c && c <= '_'
    ||| 'a' <= c && c <= '~'
    ||| c >= '\u{80}'
}

/// `c` may stand in a query.
pub open spec fn is_query_char(c: char) -> bool {
    ||| c == '!'
    ||| '$' <= c && c <= ';'
    ||| c == '='
    ||| '?' <= c && c <= '~'
    ||| c >= '\u{80}'
}

/// Every character of `path` may stand in a path.
pub open spec fn is_path(path: Seq<char>) -> bool {
    forall|i: int| 0 <= i < path.len() ==> is_path_char(#[trigger] path[i])
}

/// Every character of `query` may stand in a query.
pub open spec fn is_query(query: Seq<char>) -> bool {
    forall|i: int| 0 <= i < query.len() ==> is_query_char(#[trigger] query[i])
}

/// What stands in `text` before the first `stop`; all of it where there is none.
pub open spec fn before(text: Seq<char>, stop: char) -> Seq<char>
    decreases text.len(),
{
    if text.len() == 0 || text[0] == stop {
        Seq::empty()
    } else {
        seq![text[0]] + before(text.drop_first(), stop)
    }
}

/// The path and the query that `text` is read as, if it is a target at all.
///
/// A target is `*`, or it begins with its path, its query or its fragment. The
/// path ends at the first `?`, and where a `#` follows, all from there on is
/// dropped unread. An empty path is read as `/`.
pub open spec fn parsed_target(text: Seq<char>) -> Option<(Seq<char>, Option<Seq<char>>)> {
    let shown = before(text, '#');
    let path = before(shown, '?');
    let rest = shown.skip(path.len() as int);
    if text.len() == 0 || utf8::encode_utf8(text).len() > MAX_TARGET_LEN {
        None
    } else if text == seq!['*'] {
        Some((text, None))
    } else if text[0] != '/' && text[0] != '?' && text[0] != '#' {
        None
    } else if !is_path(path) || !is_query(rest) {
        None
    } else {
        Some(
            (
                if path.len() == 0 {
                    seq!['/']
                } else {
                    path
                },
                if rest.len() == 0 {
                    None
                } else {
                    Some(rest.drop_first())
                },
            ),
        )
    }
}

/// The characters of an optional text.
pub open spec fn opt_chars(text: Option<String>) -> Option<Seq<char>> {
    match text {
        Some(text) => Some(text@),
        None => None,
    }
}

/// Why a text is no target, as the `http` crate says it.
#[verifier::external_type_specification]
#[verifier::external_body]
pub struct ExInvalidUri(InvalidUri);

/// `PathAndQuery::try_from` of the `http` crate, which `axum` re-exports, with
/// `PathAndQuery::path` and `PathAndQuery::query` of what it makes. It accepts
/// exactly the texts that are targets in the sense of [`parsed_target`], and
/// the path and the query are those that are named there.
#[verifier::external_body]
pub(crate) fn parse_target(text: &str) -> (parsed: Result<(String, Option<String>), InvalidUri>)
    ensures
        match parsed {
            Ok((path, query)) => parsed_target(text@) == Some((path@, opt_chars(query))),
            Err(_) => parsed_target(text@) is None,
        },
{
    let target = PathAndQuery::try_from(text)?;
    Ok((target.path().to_string(), target.query().map(|query| query.to_string())))
}

/// The bytes of two texts, one behind the other, are those of each.
proof fn lemma_utf8_len_concat(a: Seq<char>, b: Seq<char>)
    ensures
        utf8::encode_utf8(a + b).len() == utf8::encode_utf8(a).len() + utf8::encode_utf8(b).len(),
    decreases a.len(),
{
    if a.len() == 0 {
        assert(a + b =~= b);
    } else {
        assert((a + b).drop_first() =~= a.drop_first() + b);
        lemma_utf8_len_concat(a.drop_first(), b);
    }
}

/// One ASCII character takes one byte.
proof fn lemma_utf8_len_ascii(c: char)
    requires
        c < '\u{80}',
    ensures
        utf8::encode_utf8(seq![c]).len() == 1,
{
    assert(seq![c].drop_first() =~= Seq::empty());
    reveal_with_fuel(utf8::encode_utf8, 2);
}

/// The bytes of parameters, each counted with one `&`.
spec fn weight(parts: Seq<Seq<char>>) -> nat
    decreases parts.len(),
{
    if parts.len() == 0 {
        0
    } else {
        weight(parts.drop_last()) + utf8::encode_utf8(parts.last()).len() + 1
    }
}

proof fn lemma_weight_of_join(parts: Seq<Seq<char>>)
    requires
        parts.len() > 0,
    ensures
        utf8::encode_utf8(query::join(parts)).len() + 1 == weight(parts),
    decreases parts.len(),
{
    if parts.len() == 1 {
        assert(parts.drop_last() =~= Seq::empty());
        assert(weight(parts.drop_last()) == 0);
    } else {
        lemma_weight_of_join(parts.drop_last());
        lemma_utf8_len_concat(query::join(parts.drop_last()) + seq!['&'], parts.last());
        lemma_utf8_len_concat(query::join(parts.drop_last()), seq!['&']);
        lemma_utf8_len_ascii('&');
    }
}

/// Taking a parameter away makes a list of parameters lighter.
proof fn lemma_weight_without_s(parts: Seq<Seq<char>>)
    ensures
        weight(query::without_s(parts)) <= weight(parts),
        (exists|k: int| 0 <= k < parts.len() && query::is_s_param(#[trigger] parts[k])) ==> weight(
            query::without_s(parts),
        ) < weight(parts),
    decreases parts.len(),
{
    reveal(Seq::filter);
    if parts.len() > 0 {
        let shorter = parts.drop_last();
        lemma_weight_without_s(shorter);
        if query::is_s_param(parts.last()) {
            assert(query::without_s(parts) == query::without_s(shorter));
        } else {
            assert(query::without_s(parts) == query::without_s(shorter).push(parts.last()));
            let kept = query::without_s(shorter);
            assert(kept.push(parts.last()).drop_last() =~= kept);
            if exists|k: int| 0 <= k < parts.len() && query::is_s_param(#[trigger] parts[k]) {
                let k = choose|k: int|
                    0 <= k < parts.len() && query::is_s_param(#[trigger] parts[k]);
                assert(shorter[k] == parts[k]);
            }
        }
    }
}

/// Where there is no `stop`, all stands before it.
proof fn lemma_before_all(text: Seq<char>, stop: char)
    requires
        forall|i: int| 0 <= i < text.len() ==> text[i] != stop,
    ensures
        before(text, stop) == text,
    decreases text.len(),
{
    if text.len() > 0 {
        lemma_before_all(text.drop_first(), stop);
        assert(seq![text[0]] + text.drop_first() =~= text);
    } else {
        assert(text =~= Seq::empty());
    }
}

/// The first `stop` is the one that a text without any is followed by.
proof fn lemma_before_first(front: Seq<char>, stop: char, back: Seq<char>)
    requires
        forall|i: int| 0 <= i < front.len() ==> front[i] != stop,
    ensures
        before(front + seq![stop] + back, stop) == front,
    decreases front.len(),
{
    let text = front + seq![stop] + back;
    if front.len() > 0 {
        lemma_before_first(front.drop_first(), stop, back);
        assert(text.drop_first() =~= front.drop_first() + seq![stop] + back);
        assert(seq![front[0]] + front.drop_first() =~= front);
    } else {
        assert(front =~= Seq::empty());
    }
}

/// A path and a query, each of its own characters, are read back from the
/// target that they make together.
pub proof fn law_target_is_read_back(path: Seq<char>, query: Option<Seq<char>>)
    requires
        path.len() > 0,
        path[0] == '/',
        is_path(path),
        query matches Some(q) ==> is_query(q),
        utf8::encode_utf8(target_text(path, query)).len() <= MAX_TARGET_LEN,
    ensures
        parsed_target(target_text(path, query)) == Some((path, query)),
{
    let text = target_text(path, query);
    match query {
        None => {
            lemma_before_all(text, '#');
            lemma_before_all(text, '?');
            assert(text.skip(path.len() as int) =~= Seq::empty());
        },
        Some(q) => {
            assert forall|i: int| 0 <= i < text.len() implies text[i] != '#' by {
                if i < path.len() {
                    assert(is_path_char(path[i]));
                } else if i > path.len() {
                    assert(text[i] == q[i - path.len() - 1]);
                    assert(is_query_char(q[i - path.len() - 1]));
                }
            }
            lemma_before_all(text, '#');
            assert forall|i: int| 0 <= i < path.len() implies path[i] != '?' by {
                assert(is_path_char(path[i]));
            }
            lemma_before_first(path, '?', q);
            let rest = text.skip(path.len() as int);
            assert(rest =~= seq!['?'] + q);
            assert(rest.drop_first() =~= q);
            assert(is_query(rest)) by {
                assert forall|i: int| 0 <= i < rest.len() implies is_query_char(
                    #[trigger] rest[i],
                ) by {
                    if i > 0 {
                        assert(rest[i] == q[i - 1]);
                    }
                }
            }
        },
    }
    assert(text != seq!['*']) by {
        assert(text[0] == '/');
        assert(seq!['*'][0] == '*');
    }
}

/// A path and a query as one text.
pub open spec fn target_text(path: Seq<char>, query: Option<Seq<char>>) -> Seq<char> {
    match query {
        None => path,
        Some(query) => path + seq!['?'] + query,
    }
}

/// What the parameters of a query hold may stand in a query.
proof fn lemma_params_are_queries(query: Seq<char>)
    requires
        is_query(query),
    ensures
        forall|k: int|
            0 <= k < query::params(query).len() ==> is_query(#[trigger] query::params(query)[k]),
    decreases query.len(),
{
    if query.len() > 0 {
        let shorter = query.drop_last();
        let parts = query::params(query);
        lemma_params_are_queries(shorter);
        query::lemma_params_are_params(shorter);
        assert(is_query_char(query.last()));
        assert forall|k: int| 0 <= k < parts.len() implies is_query(#[trigger] parts[k]) by {
            if k < query::params(shorter).len() {
                assert(is_query(query::params(shorter)[k]));
            }
        }
    }
}

/// What may stand in a query still may when it is joined.
proof fn lemma_join_is_query(parts: Seq<Seq<char>>)
    requires
        forall|k: int| 0 <= k < parts.len() ==> is_query(#[trigger] parts[k]),
    ensures
        is_query(query::join(parts)),
    decreases parts.len(),
{
    if parts.len() > 1 {
        let shorter = parts.drop_last();
        assert forall|k: int| 0 <= k < shorter.len() implies is_query(#[trigger] shorter[k]) by {
            assert(shorter[k] == parts[k]);
        }
        lemma_join_is_query(shorter);
        assert(is_query(parts[parts.len() - 1]));
    }
}

/// The target that is left of a well formed one whose query is marked is well
/// formed again, with the same path and with the parameters that were kept.
/// So cleaning a request's target never yields a text that is no target.
///
/// The path of a request may be one byte longer than it was sent, for an empty
/// one is read as `/`.
pub proof fn law_cleaned_target_is_target(path: Seq<char>, query: Seq<char>)
    requires
        path.len() > 0,
        path[0] == '/',
        is_path(path),
        is_query(query),
        utf8::encode_utf8(target_text(path, Some(query))).len() <= MAX_TARGET_LEN + 1,
        query::is_marked(query),
    ensures
        parsed_target(query::cleaned_target(path, query)) == Some(
            (
                path,
                if query::without_s(query::params(query)).len() == 0 {
                    None
                } else {
                    Some(query::cleaned_query(query))
                },
            ),
        ),
{
    let parts = query::params(query);
    let kept = query::without_s(parts);
    query::law_marked_by_later_s_param(query);
    query::law_join_of_params(query);
    let k = choose|k: int| 1 <= k < parts.len() && query::is_s_param(#[trigger] parts[k]);
    assert(0 <= k < parts.len() && query::is_s_param(parts[k]));
    lemma_weight_without_s(parts);
    lemma_weight_of_join(parts);
    lemma_utf8_len_ascii('?');
    lemma_utf8_len_concat(path, seq!['?']);
    lemma_utf8_len_concat(path + seq!['?'], query);
    if kept.len() == 0 {
        law_target_is_read_back(path, None);
    } else {
        lemma_weight_of_join(kept);
        lemma_utf8_len_concat(path + seq!['?'], query::join(kept));
        lemma_params_are_queries(query);
        query::lemma_without_s(parts);
        assert forall|m: int| 0 <= m < kept.len() implies is_query(#[trigger] kept[m]) by {
            assert(parts.contains(kept[m]));
        }
        lemma_join_is_query(kept);
        law_target_is_read_back(path, Some(query::join(kept)));
    }
}

/// What may not stand in a path: what is not visible, and ``# < > ? ` ``. What may
/// not stand in a query: what is not visible, and `" # < >`.
pub proof fn law_characters_of_targets(c: char, path: Seq<char>, query: Seq<char>)
    ensures
        is_path_char(c) <==> !(c as u32 <= 0x20 || c as u32 == 0x7f || c == '#' || c == '<' || c
            == '>' || c == '?' || c == '`'),
        is_query_char(c) <==> !(c as u32 <= 0x20 || c as u32 == 0x7f || c == '"' || c == '#' || c
            == '<' || c == '>'),
        is_path(path) <==> forall|i: int|
            0 <= i < path.len() ==> is_path_char(#[trigger] path[i]),
        is_query(query) <==> forall|i: int|
            0 <= i < query.len() ==> is_query_char(#[trigger] query[i]),
{
}

/// What stands before the first `stop` is the longest beginning of a text that
/// does not hold it.
pub proof fn law_before_first_stop(text: Seq<char>, stop: char)
    ensures
        before(text, stop).len() <= text.len(),
        before(text, stop) == text.take(before(text, stop).len() as int),
        forall|i: int| 0 <= i < before(text, stop).len() ==> #[trigger] text[i] != stop,
        before(text, stop).len() < text.len() ==> text[before(text, stop).len() as int] == stop,
    decreases text.len(),
{
    let front = before(text, stop);
    if text.len() > 0 && text[0] != stop {
        let rest = text.drop_first();
        let front_rest = before(rest, stop);
        law_before_first_stop(rest, stop);
        assert(front =~= text.take(front.len() as int)) by {
            assert forall|i: int| 0 <= i < front.len() implies front[i] == text[i] by {
                if i > 0 {
                    assert(front[i] == front_rest[i - 1]);
                    assert(front_rest[i - 1] == rest.take(front_rest.len() as int)[i - 1]);
                }
            }
        }
        assert forall|i: int| 0 <= i < front.len() implies #[trigger] text[i] != stop by {
            if i > 0 {
                assert(rest[i - 1] == text[i]);
            }
        }
    } else {
        assert(front =~= text.take(0));
    }
}

/// A path and a query as one text: the query goes behind a `?`, whatever it is.
pub proof fn law_target_text_is_path_and_query(path: Seq<char>, query: Seq<char>)
    ensures
        target_text(path, None) == path,
        target_text(path, Some(query)) == path + seq!['?'] + query,
{
}

/// An optional text has its characters, and none where there is none.
pub proof fn law_optional_characters(text: String)
    ensures
        opt_chars(Some(text)) == Some(text@),
        opt_chars(None) is None,
{
}

/// A text that is empty, too long, or begins otherwise than a path, a query or a
/// fragment does is no target, but for `*`.
pub proof fn law_texts_that_are_no_targets(text: Seq<char>)
    ensures
        text.len() == 0 ==> parsed_target(text) is None,
        utf8::encode_utf8(text).len() > 65534 ==> parsed_target(text) is None,
        text.len() == 1 && text[0] == '*' ==> parsed_target(text) == Some(
            (text, None::<Seq<char>>),
        ),
        text.len() > 0 && text[0] != '/' && text[0] != '?' && text[0] != '#' && !(text.len() == 1
            && text[0] == '*') ==> parsed_target(text) is None,
{
    if text.len() == 1 && text[0] == '*' {
        assert(text =~= seq!['*']);
        reveal_with_fuel(utf8::encode_utf8, 2);
        assert(text.drop_first() =~= Seq::empty());
    }
    if text == seq!['*'] {
        assert(text.len() == 1 && text[0] == '*');
    }
}

/// Any other text is a path, then a query behind a `?` where there is one, then a
/// fragment behind a `#` where there is one. It is a target exactly where path and
/// query hold only what may stand there; then both are read as they are, an empty
/// path as `/`, and the fragment is dropped.
pub proof fn law_targets_are_read_part_by_part(
    path: Seq<char>,
    query: Option<Seq<char>>,
    fragment: Option<Seq<char>>,
    text: Seq<char>,
)
    requires
        forall|i: int| 0 <= i < path.len() ==> #[trigger] path[i] != '?' && path[i] != '#',
        query matches Some(q) ==> forall|i: int| 0 <= i < q.len() ==> #[trigger] q[i] != '#',
        text == path + match query {
            Some(q) => seq!['?'] + q,
            None => Seq::empty(),
        } + match fragment {
            Some(f) => seq!['#'] + f,
            None => Seq::empty(),
        },
        text.len() > 0,
        path.len() > 0 ==> path[0] == '/',
        utf8::encode_utf8(text).len() <= 65534,
    ensures
        parsed_target(text) == if is_path(path) && (query matches Some(q) ==> is_query(q)) {
            Some(
                (
                    if path.len() == 0 {
                        seq!['/']
                    } else {
                        path
                    },
                    query,
                ),
            )
        } else {
            None
        },
{
    let behind = match query {
        Some(q) => seq!['?'] + q,
        None => Seq::empty(),
    };
    let shown = path + behind;
    assert forall|i: int| 0 <= i < shown.len() implies shown[i] != '#' by {
        if i < path.len() {
            assert(shown[i] == path[i]);
        } else if i > path.len() {
            assert(shown[i] == query.unwrap()[i - path.len() - 1]);
        }
    }
    match fragment {
        Some(f) => {
            assert(text =~= shown + seq!['#'] + f);
            lemma_before_first(shown, '#', f);
        },
        None => {
            assert(text =~= shown);
            lemma_before_all(shown, '#');
        },
    }
    match query {
        Some(q) => {
            assert(shown =~= path + seq!['?'] + q);
            lemma_before_first(path, '?', q);
        },
        None => {
            assert(shown =~= path);
            lemma_before_all(path, '?');
        },
    }
    let rest = shown.skip(path.len() as int);
    assert(rest =~= behind);
    if let Some(q) = query {
        assert(rest.drop_first() =~= q);
        if is_query(q) {
            assert forall|i: int| 0 <= i < rest.len() implies is_query_char(
                #[trigger] rest[i],
            ) by {
                if i > 0 {
                    assert(rest[i] == q[i - 1]);
                }
            }
        }
        if is_query(rest) {
            assert forall|i: int| 0 <= i < q.len() implies is_query_char(#[trigger] q[i]) by {
                assert(rest[i + 1] == q[i]);
            }
        }
    }
    assert(text != seq!['*']) by {
        assert(text[0] != '*');
        assert(seq!['*'][0] == '*');
    }
}

} // verus!
