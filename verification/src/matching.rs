//! Which route answers a request: the first one, in table order, whose method and path
//! pattern both fit.

use vstd::prelude::*;
use crate::route::MockRoute;
use crate::text::chars_of;
use crate::text::chars_eq;
use crate::text::eq_ignoring_ascii_case;
use crate::text::text_eq_ignoring_ascii_case;

verus! {

/// How many characters stand before the first `/` of `s`, or all of them if it has none.
pub open spec fn segment_len(s: Seq<char>) -> nat
    decreases s.len(),
{
    if s.len() == 0 || s[0] == '/' {
        0
    } else {
        1 + segment_len(s.drop_first())
    }
}

/// `segment_len` never runs past the end of the text.
pub proof fn lemma_segment_len_bounded(s: Seq<char>)
    ensures
        segment_len(s) <= s.len(),
    decreases s.len(),
{
    if s.len() != 0 && s[0] != '/' {
        lemma_segment_len_bounded(s.drop_first());
    }
}

/// The segments of a path: its maximal runs of characters other than `/`, in order.
/// Leading, trailing and repeated slashes leave no empty segment behind.
pub open spec fn segments(path: Seq<char>) -> Seq<Seq<char>>
    decreases path.len(),
{
    if path.len() == 0 {
        Seq::empty()
    } else if path[0] == '/' {
        segments(path.drop_first())
    } else {
        let n = segment_len(path) as int;
        proof {
            lemma_segment_len_bounded(path);
        }
        seq![path.take(n)] + segments(path.skip(n))
    }
}

/// A pattern segment fits a request segment if it is a parameter (it begins with `:`)
/// or if the two are the same text.
pub open spec fn segment_fits(pattern: Seq<char>, actual: Seq<char>) -> bool {
    (pattern.len() > 0 && pattern[0] == ':') || pattern == actual
}

/// Two lists of segments fit if they are equally long and fit position by position.
pub open spec fn segments_fit(pattern: Seq<Seq<char>>, actual: Seq<Seq<char>>) -> bool {
    &&& pattern.len() == actual.len()
    &&& forall|i: int| 0 <= i < pattern.len() ==> segment_fits(#[trigger] pattern[i], actual[i])
}

/// A path pattern fits a request path if their segments fit.
pub open spec fn path_fits(pattern: Seq<char>, path: Seq<char>) -> bool {
    segments_fit(segments(pattern), segments(path))
}

/// A route matches a request if the methods agree up to ASCII case and the route's
/// pattern fits the request path. Authentication plays no part in it.
pub open spec fn route_matches(route: MockRoute, method: Seq<char>, path: Seq<char>) -> bool {
    eq_ignoring_ascii_case(route.method@, method) && path_fits(route.path@, path)
}

/// `index` is the position of the first route that matches the request.
pub open spec fn is_first_match(
    routes: Seq<MockRoute>,
    method: Seq<char>,
    path: Seq<char>,
    index: int,
) -> bool {
    &&& 0 <= index < routes.len()
    &&& route_matches(routes[index], method, path)
    &&& forall|j: int| 0 <= j < index ==> !route_matches(#[trigger] routes[j], method, path)
}

/// No route of the table matches the request.
pub open spec fn no_match(routes: Seq<MockRoute>, method: Seq<char>, path: Seq<char>) -> bool {
    forall|j: int| 0 <= j < routes.len() ==> !route_matches(#[trigger] routes[j], method, path)
}

/// At most one position is that of the first match.
pub proof fn lemma_first_match_unique(
    routes: Seq<MockRoute>,
    method: Seq<char>,
    path: Seq<char>,
    i: int,
    j: int,
)
    requires
        is_first_match(routes, method, path, i),
        is_first_match(routes, method, path, j),
    ensures
        i == j,
{
    if i < j {
        assert(!route_matches(routes[i], method, path));
    } else if j < i {
        assert(!route_matches(routes[j], method, path));
    }
}

/// The route that answers a request: the first of the table that matches it.
pub open spec fn matched_route(routes: Seq<MockRoute>, method: Seq<char>, path: Seq<char>) -> Option<
    MockRoute,
> {
    if exists|i: int| is_first_match(routes, method, path, i) {
        Some(routes[choose|i: int| is_first_match(routes, method, path, i)])
    } else {
        None
    }
}

/// The first match, once found, is the route that answers.
pub proof fn lemma_matched_route_is_first_match(
    routes: Seq<MockRoute>,
    method: Seq<char>,
    path: Seq<char>,
    index: int,
)
    requires
        is_first_match(routes, method, path, index),
    ensures
        matched_route(routes, method, path) == Some(routes[index]),
{
    let chosen = choose|i: int| is_first_match(routes, method, path, i);
    lemma_first_match_unique(routes, method, path, chosen, index);
}

/// Where no route matches, none answers.
pub proof fn lemma_no_match_no_route(routes: Seq<MockRoute>, method: Seq<char>, path: Seq<char>)
    requires
        no_match(routes, method, path),
    ensures
        matched_route(routes, method, path) is None,
{
    if exists|i: int| is_first_match(routes, method, path, i) {
        let i = choose|i: int| is_first_match(routes, method, path, i);
        assert(!route_matches(routes[i], method, path));
    }
}

/// The texts held by a list of segments.
pub open spec fn segment_texts(list: Seq<Vec<char>>) -> Seq<Seq<char>> {
    Seq::new(list.len(), |i: int| list[i]@)
}

proof fn lemma_segment_len_is(s: Seq<char>, n: int)
    requires
        0 <= n <= s.len(),
        forall|k: int| 0 <= k < n ==> s[k] != '/',
        n == s.len() || s[n] == '/',
    ensures
        segment_len(s) == n,
    decreases n,
{
    if n > 0 {
        let rest = s.drop_first();
        assert forall|k: int| 0 <= k < n - 1 implies rest[k] != '/' by {
            assert(rest[k] == s[k + 1]);
        }
        lemma_segment_len_is(rest, n - 1);
    }
}

/// Splits a path into its segments.
pub fn split_path(path: &[char]) -> (list: Vec<Vec<char>>)
    ensures
        segment_texts(list@) == segments(path@),
{
    let mut list: Vec<Vec<char>> = Vec::new();
    let mut i: usize = 0;
    assert(path@.skip(0) == path@);
    assert(segment_texts(list@) + segments(path@) == segments(path@));
    while i < path.len()
        invariant
            i <= path@.len(),
            segments(path@) == segment_texts(list@) + segments(path@.skip(i as int)),
        decreases path@.len() - i,
    {
        let ghost rest = path@.skip(i as int);
        if path[i] == '/' {
            assert(rest.drop_first() == path@.skip(i + 1));
            i += 1;
        } else {
            let start = i;
            let mut piece: Vec<char> = Vec::new();
            while i < path.len() && path[i] != '/'
                invariant
                    start <= i <= path@.len(),
                    piece@ == path@.subrange(start as int, i as int),
                    forall|k: int| start <= k < i ==> path@[k] != '/',
                decreases path@.len() - i,
            {
                piece.push(path[i]);
                i += 1;
            }
            proof {
                let n = i - start;
                assert forall|k: int| 0 <= k < n implies rest[k] != '/' by {
                    assert(rest[k] == path@[start + k]);
                }
                lemma_segment_len_is(rest, n);
                assert(rest.take(n) == piece@);
                assert(rest.skip(n) == path@.skip(i as int));
                let ghost before = list@;
                assert(segment_texts(before.push(piece)) == segment_texts(before) + seq![piece@]);
            }
            list.push(piece);
        }
    }
    assert(path@.skip(i as int).len() == 0);
    assert(segment_texts(list@) + Seq::<Seq<char>>::empty() == segment_texts(list@));
    list
}

/// Whether a pattern segment fits a request segment.
pub fn fits_segment(pattern: &[char], actual: &[char]) -> (fits: bool)
    ensures
        fits == segment_fits(pattern@, actual@),
{
    if pattern.len() > 0 && pattern[0] == ':' {
        true
    } else {
        chars_eq(pattern, actual)
    }
}

/// Whether a route's pattern, already split, fits the segments of a request path.
pub fn segment_lists_fit(pattern: &Vec<Vec<char>>, actual: &Vec<Vec<char>>) -> (fits: bool)
    ensures
        fits == segments_fit(segment_texts(pattern@), segment_texts(actual@)),
{
    if pattern.len() != actual.len() {
        return false;
    }
    let mut i: usize = 0;
    while i < pattern.len()
        invariant
            pattern@.len() == actual@.len(),
            i <= pattern@.len(),
            forall|k: int|
                0 <= k < i ==> segment_fits(
                    #[trigger] segment_texts(pattern@)[k],
                    segment_texts(actual@)[k],
                ),
        decreases pattern@.len() - i,
    {
        if !fits_segment(pattern[i].as_slice(), actual[i].as_slice()) {
            assert(!segment_fits(
                segment_texts(pattern@)[i as int],
                segment_texts(actual@)[i as int],
            ));
            return false;
        }
        i += 1;
    }
    true
}

/// Whether `route` matches a request for `path` with `method`.
pub fn matches_route(route: &MockRoute, method: &str, path: &str) -> (matched: bool)
    ensures
        matched == route_matches(*route, method@, path@),
{
    if !text_eq_ignoring_ascii_case(route.method.as_str(), method) {
        return false;
    }
    let route_chars = chars_of(route.path.as_str());
    let path_chars = chars_of(path);
    let route_parts = split_path(route_chars.as_slice());
    let path_parts = split_path(path_chars.as_slice());
    segment_lists_fit(&route_parts, &path_parts)
}

/// The position of the first route of the table that matches the request, if any does.
pub fn find_route_index(routes: &Vec<MockRoute>, method: &str, path: &str) -> (found: Option<usize>)
    ensures
        match found {
            Some(index) => is_first_match(routes@, method@, path@, index as int),
            None => no_match(routes@, method@, path@),
        },
{
    let mut i: usize = 0;
    while i < routes.len()
        invariant
            i <= routes@.len(),
            forall|j: int| 0 <= j < i ==> !route_matches(#[trigger] routes@[j], method@, path@),
        decreases routes@.len() - i,
    {
        if matches_route(&routes[i], method, path) {
            return Some(i);
        }
        i += 1;
    }
    None
}

/// The first route of the table, in table order, that matches the request.
///
/// A route placed after one that also matches is never returned, however much narrower
/// its pattern is.
pub fn find_route<'a>(routes: &'a Vec<MockRoute>, method: &str, path: &str) -> (found: Option<&'a MockRoute>)
    ensures
        match found {
            Some(route) => matched_route(routes@, method@, path@) == Some(*route),
            None => matched_route(routes@, method@, path@) is None,
        },
        match found {
            Some(route) => exists|index: int|
                is_first_match(routes@, method@, path@, index) && *route == routes@[index],
            None => no_match(routes@, method@, path@),
        },
{
    match find_route_index(routes, method, path) {
        Some(index) => {
            proof {
                lemma_matched_route_is_first_match(routes@, method@, path@, index as int);
            }
            Some(&routes[index])
        },
        None => {
            proof {
                lemma_no_match_no_route(routes@, method@, path@);
            }
            None
        },
    }
}

/// A pattern and a path that differ in their number of segments never fit, whatever
/// the pattern's parameters: a parameter stands for exactly one segment.
pub proof fn lemma_segment_count_mismatch_never_fits(pattern: Seq<char>, path: Seq<char>)
    requires
        segments(pattern).len() != segments(path).len(),
    ensures
        !path_fits(pattern, path),
        forall|route: MockRoute, method: Seq<char>|
            route.path@ == pattern ==> !#[trigger] route_matches(route, method, path),
{
}

/// A route that comes after a matching route never answers: of two routes that both
/// match, the earlier one is returned.
pub proof fn lemma_earlier_match_wins(
    routes: Seq<MockRoute>,
    method: Seq<char>,
    path: Seq<char>,
    earlier: int,
    later: int,
)
    requires
        0 <= earlier < later < routes.len(),
        route_matches(routes[earlier], method, path),
    ensures
        !is_first_match(routes, method, path, later),
        matched_route(routes, method, path) is Some,
{
    if !exists|i: int| is_first_match(routes, method, path, i) {
        lemma_some_match_has_first(routes, method, path, earlier);
    }
}

/// Where some route matches, there is a first one that does.
pub proof fn lemma_some_match_has_first(
    routes: Seq<MockRoute>,
    method: Seq<char>,
    path: Seq<char>,
    index: int,
)
    requires
        0 <= index < routes.len(),
        route_matches(routes[index], method, path),
    ensures
        exists|i: int| 0 <= i <= index && is_first_match(routes, method, path, i),
    decreases index,
{
    if exists|j: int| 0 <= j < index && route_matches(routes[j], method, path) {
        let j = choose|j: int| 0 <= j < index && route_matches(routes[j], method, path);
        lemma_some_match_has_first(routes, method, path, j);
    } else {
        assert(is_first_match(routes, method, path, index));
    }
}

} // verus!
