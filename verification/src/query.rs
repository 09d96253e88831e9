//! Query strings and their `s` parameter.
//!
//! A query is read as parameters with `&` between them. A parameter that begins
//! with `s=` is an `s` parameter.
use vstd::prelude::*;

use crate::text::{push_chars, to_chars};

verus! {

/// The parameters of `query`: what stands between its `&`s. There is always at
/// least one, and any of them may be empty.
pub open spec fn params(query: Seq<char>) -> Seq<Seq<char>>
    decreases query.len(),
{
    if query.len() == 0 {
        seq![Seq::empty()]
    } else {
        let before = params(query.drop_last());
        if query.last() == '&' {
            before.push(Seq::empty())
        } else {
            before.drop_last().push(before.last().push(query.last()))
        }
    }
}

/// `parts` with an `&` between each and the next.
pub open spec fn join(parts: Seq<Seq<char>>) -> Seq<char>
    decreases parts.len(),
{
    if parts.len() == 0 {
        Seq::empty()
    } else if parts.len() == 1 {
        parts[0]
    } else {
        join(parts.drop_last()) + seq!['&'] + parts.last()
    }
}

/// No character of `part` is an `&`.
pub open spec fn is_param(part: Seq<char>) -> bool {
    forall|i: int| 0 <= i < part.len() ==> part[i] != '&'
}

/// `part` begins with `s=`.
pub open spec fn is_s_param(part: Seq<char>) -> bool {
    part.len() >= 2 && part[0] == 's' && part[1] == '='
}

/// `&s=` stands in `query` at position `i`.
pub open spec fn marked_at(query: Seq<char>, i: int) -> bool {
    0 <= i && i + 2 < query.len() && query[i] == '&' && query[i + 1] == 's' && query[i + 2] == '='
}

/// `&s=` stands somewhere in `query`.
pub open spec fn is_marked(query: Seq<char>) -> bool {
    exists|i: int| marked_at(query, i)
}

/// The parameters of `parts` that are no `s` parameters, in order.
pub open spec fn without_s(parts: Seq<Seq<char>>) -> Seq<Seq<char>> {
    parts.filter(|part: Seq<char>| !is_s_param(part))
}

/// `path` with the parameters `kept` as its query; without a query where there
/// are none.
pub open spec fn with_params(path: Seq<char>, kept: Seq<Seq<char>>) -> Seq<char> {
    if kept.len() == 0 {
        path
    } else {
        path + seq!['?'] + join(kept)
    }
}

/// What is asked for by `path` and `query` once the `s` parameters are gone.
pub open spec fn cleaned_target(path: Seq<char>, query: Seq<char>) -> Seq<char> {
    with_params(path, without_s(params(query)))
}

/// Whether `&s=` stands in `query`.
pub fn has_marker(query: &str) -> (found: bool)
    ensures
        found == is_marked(query@),
{
    let chars = to_chars(query);
    let mut i: usize = 0;
    while i < chars.len()
        invariant
            chars@ == query@,
            i <= chars.len(),
            forall|j: int| 0 <= j < i ==> !marked_at(query@, j),
        decreases chars.len() - i,
    {
        if chars.len() - i > 2 && chars[i] == '&' && chars[i + 1] == 's' && chars[i + 2] == '=' {
            assert(marked_at(query@, i as int));
            return true;
        }
        i += 1;
    }
    false
}

/// Puts `part` behind `target` as one more parameter, unless it is an `s`
/// parameter. `any` says whether `target` has parameters already; the result
/// says whether it has any now.
fn append_param(target: &mut String, any: bool, part: &Vec<char>) -> (any_now: bool)
    ensures
        is_s_param(part@) ==> final(target)@ == old(target)@ && any_now == any,
        !is_s_param(part@) ==> any_now && final(target)@ == old(target)@ + seq![
            if any { '&' } else { '?' },
        ] + part@,
{
    if part.len() >= 2 && part[0] == 's' && part[1] == '=' {
        return any;
    }
    target.push(if any { '&' } else { '?' });
    push_chars(target, part);
    true
}

/// One more parameter, seen through [`without_s`] and [`with_params`].
proof fn lemma_append_param(path: Seq<char>, done: Seq<Seq<char>>, part: Seq<char>)
    ensures
        is_s_param(part) ==> without_s(done.push(part)) == without_s(done),
        !is_s_param(part) ==> {
            &&& without_s(done.push(part)) == without_s(done).push(part)
            &&& with_params(path, without_s(done.push(part))) == with_params(path, without_s(done))
                + seq![if without_s(done).len() > 0 { '&' } else { '?' }] + part
        },
{
    reveal(Seq::filter);
    assert(done.push(part).drop_last() =~= done);
    let kept = without_s(done);
    if !is_s_param(part) {
        assert(kept.push(part).drop_last() =~= kept);
        if kept.len() > 0 {
            assert(path + seq!['?'] + (join(kept) + seq!['&'] + part) =~= path + seq!['?'] + join(
                kept,
            ) + seq!['&'] + part);
        }
    }
}

/// The target that `path` and `query` ask for, without the `s` parameters of
/// the query: the others follow the path in their order, and the `?` goes with
/// the last of them.
pub fn clean_target(path: &str, query: &str) -> (target: String)
    ensures
        target@ == cleaned_target(path@, query@),
{
    let chars = to_chars(query);
    let mut target = path.to_owned();
    let mut any = false;
    let mut part: Vec<char> = Vec::new();
    let ghost mut done: Seq<Seq<char>> = Seq::empty();
    assert(params(query@.take(0)) =~= done.push(part@));
    for i in 0..chars.len()
        invariant
            chars@ == query@,
            params(query@.take(i as int)) == done.push(part@),
            target@ == with_params(path@, without_s(done)),
            any == (without_s(done).len() > 0),
    {
        let c = chars[i];
        assert(query@.take(i + 1).drop_last() =~= query@.take(i as int));
        assert(done.push(part@).drop_last() =~= done);
        if c == '&' {
            proof {
                lemma_append_param(path@, done, part@);
                done = done.push(part@);
            }
            any = append_param(&mut target, any, &part);
            part.clear();
            assert(part@ =~= Seq::empty());
        } else {
            part.push(c);
        }
    }
    assert(query@.take(query@.len() as int) =~= query@);
    proof {
        lemma_append_param(path@, done, part@);
    }
    append_param(&mut target, any, &part);
    target
}

/// The query that a target is left with when the `s` parameters of `query` are
/// taken away and others remain.
pub open spec fn cleaned_query(query: Seq<char>) -> Seq<char> {
    join(without_s(params(query)))
}

/// Parameters hold no `&`, and there is at least one.
pub(crate) proof fn lemma_params_are_params(query: Seq<char>)
    ensures
        params(query).len() >= 1,
        forall|k: int| 0 <= k < params(query).len() ==> is_param(#[trigger] params(query)[k]),
    decreases query.len(),
{
    if query.len() > 0 {
        lemma_params_are_params(query.drop_last());
    }
}

/// An `&` ends one list of parameters and begins another.
proof fn lemma_params_concat(a: Seq<char>, b: Seq<char>)
    ensures
        params(a + seq!['&'] + b) == params(a) + params(b),
    decreases b.len(),
{
    let whole = a + seq!['&'] + b;
    lemma_params_are_params(a);
    lemma_params_are_params(b);
    if b.len() == 0 {
        assert(whole.drop_last() =~= a);
        assert(params(a).push(Seq::empty()) =~= params(a) + params(b));
    } else {
        let shorter = b.drop_last();
        lemma_params_are_params(shorter);
        lemma_params_concat(a, shorter);
        assert(whole.drop_last() =~= a + seq!['&'] + shorter);
        assert(whole.last() == b.last());
        let before = params(shorter);
        assert((params(a) + before).drop_last() =~= params(a) + before.drop_last());
        assert(params(whole) =~= params(a) + params(b));
    }
}

/// Text without an `&` is its own only parameter.
proof fn lemma_params_of_param(part: Seq<char>)
    requires
        is_param(part),
    ensures
        params(part) == seq![part],
    decreases part.len(),
{
    if part.len() > 0 {
        assert(is_param(part.drop_last()));
        lemma_params_of_param(part.drop_last());
        assert(part.drop_last().push(part.last()) =~= part);
    } else {
        assert(part =~= Seq::empty());
    }
    assert(params(part) =~= seq![part]);
}

/// Joining two lists of parts puts one `&` between what each is joined to.
proof fn lemma_join_concat(a: Seq<Seq<char>>, b: Seq<Seq<char>>)
    requires
        a.len() > 0,
        b.len() > 0,
    ensures
        join(a + b) == join(a) + seq!['&'] + join(b),
    decreases b.len(),
{
    let whole = a + b;
    assert(whole.drop_last() =~= a + b.drop_last());
    if b.len() == 1 {
        assert(b.drop_last() =~= Seq::empty());
        assert(a + b.drop_last() =~= a);
    } else {
        lemma_join_concat(a, b.drop_last());
        assert(join(whole) =~= join(a) + seq!['&'] + join(b));
    }
}

/// A query is its parameters with `&`s between them.
pub proof fn law_join_of_params(query: Seq<char>)
    ensures
        join(params(query)) == query,
    decreases query.len(),
{
    lemma_params_are_params(query);
    if query.len() > 0 {
        let shorter = query.drop_last();
        let before = params(shorter);
        law_join_of_params(shorter);
        lemma_params_are_params(shorter);
        if query.last() == '&' {
            lemma_join_concat(before, seq![Seq::empty()]);
            assert(before.push(Seq::empty()) =~= before + seq![Seq::empty()]);
            assert(join(params(query)) =~= query);
        } else {
            assert(params(query).drop_last() =~= before.drop_last());
            assert(params(query).last() == before.last().push(query.last()));
            if before.len() == 1 {
                assert(join(params(query)) == params(query)[0]);
                assert(join(before) == before[0]);
            } else {
                assert(join(params(query)) == join(before.drop_last()) + seq!['&']
                    + before.last().push(query.last()));
                assert(join(before) == join(before.drop_last()) + seq!['&'] + before.last());
            }
            assert(join(params(query)) =~= join(before).push(query.last()));
            assert(shorter.push(query.last()) =~= query);
        }
    }
}

/// Parameters that are joined into a query are the parameters of that query.
pub proof fn law_params_of_join(parts: Seq<Seq<char>>)
    requires
        parts.len() > 0,
        forall|k: int| 0 <= k < parts.len() ==> is_param(#[trigger] parts[k]),
    ensures
        params(join(parts)) == parts,
    decreases parts.len(),
{
    if parts.len() == 1 {
        lemma_params_of_param(parts[0]);
        assert(seq![parts[0]] =~= parts);
    } else {
        law_params_of_join(parts.drop_last());
        lemma_params_concat(join(parts.drop_last()), parts.last());
        lemma_params_of_param(parts.last());
        assert(parts.drop_last() + seq![parts.last()] =~= parts);
    }
}

/// A query begins as its first parameter does.
proof fn lemma_first_param(query: Seq<char>)
    ensures
        params(query)[0].len() <= query.len(),
        forall|i: int| 0 <= i < params(query)[0].len() ==> params(query)[0][i] == query[i],
        params(query)[0].len() < query.len() ==> query[params(query)[0].len() as int] == '&',
        params(query).len() == 1 ==> params(query)[0] == query,
        params(query).len() > 1 ==> params(query)[0].len() < query.len(),
    decreases query.len(),
{
    if query.len() > 0 {
        lemma_first_param(query.drop_last());
        lemma_params_are_params(query.drop_last());
        assert(query.drop_last().push(query.last()) =~= query);
    } else {
        assert(query =~= Seq::empty());
    }
}

/// `&s=` stands in a query exactly where a parameter other than the first is an
/// `s` parameter: one that the query begins with is not a reason to clean it.
pub proof fn law_marked_by_later_s_param(query: Seq<char>)
    ensures
        is_marked(query) <==> exists|k: int|
            1 <= k < params(query).len() && is_s_param(#[trigger] params(query)[k]),
{
    let parts = params(query);
    lemma_params_are_params(query);
    if is_marked(query) {
        let i = choose|i: int| marked_at(query, i);
        let a = query.take(i);
        let b = query.skip(i + 1);
        assert(a + seq!['&'] + b =~= query);
        lemma_params_concat(a, b);
        lemma_params_are_params(a);
        lemma_params_are_params(b);
        lemma_first_param(b);
        assert(b[0] == 's' && b[1] == '=');
        assert(params(b)[0].len() >= 2) by {
            if params(b)[0].len() < 2 {
                assert(b[params(b)[0].len() as int] == '&');
            }
        }
        assert(is_s_param(parts[params(a).len() as int]));
    }
    if exists|k: int| 1 <= k < parts.len() && is_s_param(#[trigger] parts[k]) {
        let k = choose|k: int| 1 <= k < parts.len() && is_s_param(#[trigger] parts[k]);
        let front = parts.take(k);
        let back = parts.skip(k);
        assert(front + back =~= parts);
        lemma_join_concat(front, back);
        law_join_of_params(query);
        assert forall|m: int| 0 <= m < back.len() implies is_param(#[trigger] back[m]) by {
            assert(back[m] == parts[k + m]);
        }
        law_params_of_join(back);
        lemma_first_param(join(back));
        assert(back[0] == parts[k]);
        assert(marked_at(query, join(front).len() as int));
    }
}

/// What is kept is no `s` parameter, and is a parameter of what it was kept from.
pub(crate) proof fn lemma_without_s(parts: Seq<Seq<char>>)
    ensures
        forall|k: int| 0 <= k < without_s(parts).len() ==> {
            let kept = #[trigger] without_s(parts)[k];
            !is_s_param(kept) && parts.contains(kept)
        },
    decreases parts.len(),
{
    reveal(Seq::filter);
    if parts.len() > 0 {
        let shorter = parts.drop_last();
        lemma_without_s(shorter);
        assert forall|k: int| 0 <= k < without_s(parts).len() implies {
            let kept = #[trigger] without_s(parts)[k];
            !is_s_param(kept) && parts.contains(kept)
        } by {
            let kept = without_s(parts)[k];
            if k < without_s(shorter).len() {
                assert(kept == without_s(shorter)[k]);
                let m = choose|m: int| 0 <= m < shorter.len() && shorter[m] == kept;
                assert(parts[m] == kept);
            } else {
                assert(kept == parts[parts.len() - 1]);
            }
        }
    }
}

/// Nothing is taken away where no parameter is an `s` parameter.
proof fn lemma_without_s_keeps(parts: Seq<Seq<char>>)
    requires
        forall|k: int| 0 <= k < parts.len() ==> !is_s_param(#[trigger] parts[k]),
    ensures
        without_s(parts) == parts,
    decreases parts.len(),
{
    reveal(Seq::filter);
    if parts.len() > 0 {
        lemma_without_s_keeps(parts.drop_last());
        assert(parts.drop_last().push(parts.last()) =~= parts);
    }
}

/// What cleaning leaves has the parameters that were kept, in their order.
pub proof fn law_cleaned_params(query: Seq<char>)
    requires
        without_s(params(query)).len() > 0,
    ensures
        params(cleaned_query(query)) == without_s(params(query)),
{
    let kept = without_s(params(query));
    lemma_params_are_params(query);
    lemma_without_s(params(query));
    assert forall|k: int| 0 <= k < kept.len() implies is_param(#[trigger] kept[k]) by {
        let m = choose|m: int|
            0 <= m < params(query).len() && #[trigger] params(query)[m] == kept[k];
        assert(is_param(params(query)[m]));
    }
    law_params_of_join(kept);
}

/// A cleaned query has no `s` parameter left, first or later. So it is not
/// marked: who follows it is not sent on a second time.
pub proof fn law_cleaned_is_not_marked(query: Seq<char>)
    ensures
        !is_marked(cleaned_query(query)),
        forall|k: int|
            0 <= k < params(cleaned_query(query)).len() ==> !is_s_param(
                #[trigger] params(cleaned_query(query))[k],
            ),
{
    let kept = without_s(params(query));
    lemma_without_s(params(query));
    if kept.len() > 0 {
        law_cleaned_params(query);
    } else {
        assert(cleaned_query(query) =~= Seq::empty());
    }
    law_marked_by_later_s_param(cleaned_query(query));
}

/// Cleaning twice is cleaning once.
pub proof fn law_cleaning_is_idempotent(path: Seq<char>, query: Seq<char>)
    requires
        without_s(params(query)).len() > 0,
    ensures
        cleaned_query(cleaned_query(query)) == cleaned_query(query),
        cleaned_target(path, cleaned_query(query)) == cleaned_target(path, query),
{
    law_cleaned_params(query);
    law_cleaned_is_not_marked(query);
    lemma_without_s_keeps(params(cleaned_query(query)));
}

/// A query without `s` parameters is left as it is.
pub proof fn law_cleaning_keeps_the_rest(path: Seq<char>, query: Seq<char>)
    requires
        forall|k: int| 0 <= k < params(query).len() ==> !is_s_param(#[trigger] params(query)[k]),
    ensures
        cleaned_target(path, query) == path + seq!['?'] + query,
{
    lemma_params_are_params(query);
    lemma_without_s_keeps(params(query));
    law_join_of_params(query);
}

/// An `&` ends one list of parameters and begins another, and text without an `&`
/// is its own only parameter. No other splitting does both.
pub proof fn law_params_split_at_ampersands(a: Seq<char>, b: Seq<char>, part: Seq<char>)
    requires
        forall|i: int| 0 <= i < part.len() ==> part[i] != '&',
    ensures
        params(a + seq!['&'] + b) == params(a) + params(b),
        params(part) == seq![part],
{
    lemma_params_concat(a, b);
    lemma_params_of_param(part);
}

/// One part is joined to itself, and two lists of parts to what each is joined to
/// with one `&` between. Of no parts nothing is made.
pub proof fn law_join_puts_ampersands_between(
    part: Seq<char>,
    a: Seq<Seq<char>>,
    b: Seq<Seq<char>>,
)
    requires
        a.len() > 0,
        b.len() > 0,
    ensures
        join(Seq::empty()) == Seq::<char>::empty(),
        join(seq![part]) == part,
        join(a + b) == join(a) + seq!['&'] + join(b),
{
    lemma_join_concat(a, b);
}

/// Taking the `s` parameters away goes through a list one parameter at a time:
/// one that begins with `s` and `=` goes, any other stays.
pub proof fn law_s_params_go_one_by_one(part: Seq<char>, a: Seq<Seq<char>>, b: Seq<Seq<char>>)
    ensures
        without_s(seq![part]) == if part.len() >= 2 && part[0] == 's' && part[1] == '=' {
            Seq::<Seq<char>>::empty()
        } else {
            seq![part]
        },
        without_s(a + b) == without_s(a) + without_s(b),
{
    reveal(Seq::filter);
    assert(seq![part].drop_last() =~= Seq::empty());
    assert(without_s(Seq::empty()) =~= Seq::empty());
    assert(Seq::<Seq<char>>::empty().push(part) =~= seq![part]);
    lemma_without_s_concat(a, b);
}

proof fn lemma_without_s_concat(a: Seq<Seq<char>>, b: Seq<Seq<char>>)
    ensures
        without_s(a + b) == without_s(a) + without_s(b),
    decreases b.len(),
{
    reveal(Seq::filter);
    if b.len() == 0 {
        assert(a + b =~= a);
        assert(without_s(b) =~= Seq::empty());
        assert(without_s(a) + without_s(b) =~= without_s(a));
    } else {
        lemma_without_s_concat(a, b.drop_last());
        assert((a + b).drop_last() =~= a + b.drop_last());
        assert((a + b).last() == b.last());
        assert(without_s(a + b) =~= without_s(a) + without_s(b));
    }
}

/// A query is marked exactly where an `&`, an `s` and an `=` follow one another in
/// it.
pub proof fn law_marked_by_characters(query: Seq<char>)
    ensures
        is_marked(query) <==> exists|i: int|
            0 <= i && i + 2 < query.len() && #[trigger] query[i] == '&' && query[i + 1] == 's'
                && query[i + 2] == '=',
{
    if is_marked(query) {
        let i = choose|i: int| marked_at(query, i);
        assert(query[i] == '&');
    }
    if exists|i: int|
        0 <= i && i + 2 < query.len() && #[trigger] query[i] == '&' && query[i + 1] == 's'
            && query[i + 2] == '=' {
        let i = choose|i: int|
            0 <= i && i + 2 < query.len() && #[trigger] query[i] == '&' && query[i + 1] == 's'
                && query[i + 2] == '=';
        assert(marked_at(query, i));
    }
}

/// A cleaned target is the path, then a `?` and the kept parameters with `&`s
/// between them, however many and however long they are; where none is kept, it
/// is the path alone.
pub proof fn law_cleaned_target_is_path_and_kept(path: Seq<char>, query: Seq<char>)
    ensures
        without_s(params(query)).len() > 0 ==> cleaned_target(path, query) == path + seq!['?']
            + join(without_s(params(query))),
        without_s(params(query)).len() == 0 ==> cleaned_target(path, query) == path,
        cleaned_query(query) == join(without_s(params(query))),
{
}

/// One more parameter at the end of a query changes the target in one way only: it
/// is put behind what was kept, unless it begins with `s=`.
pub proof fn law_one_more_parameter(path: Seq<char>, query: Seq<char>, part: Seq<char>)
    requires
        forall|i: int| 0 <= i < part.len() ==> part[i] != '&',
        without_s(params(query)).len() > 0,
    ensures
        cleaned_target(path, query + seq!['&'] + part) == if part.len() >= 2 && part[0] == 's'
            && part[1] == '=' {
            cleaned_target(path, query)
        } else {
            cleaned_target(path, query) + seq!['&'] + part
        },
{
    let kept = without_s(params(query));
    lemma_params_concat(query, part);
    lemma_params_of_param(part);
    law_s_params_go_one_by_one(part, params(query), seq![part]);
    if is_s_param(part) {
        assert(kept + Seq::<Seq<char>>::empty() =~= kept);
    } else {
        lemma_join_concat(kept, seq![part]);
        assert(path + seq!['?'] + (join(kept) + seq!['&'] + part) =~= path + seq!['?'] + join(kept)
            + seq!['&'] + part);
    }
}

} // verus!
