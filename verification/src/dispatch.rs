//! The dispatcher: splits an inbound path of the form
//! `/api/{route}/{remainder...}` into its route name and remainder path.

use vstd::prelude::*;
use vstd::string::*;
use vstd::std_specs::iter::IteratorSpec;

verus! {

/// The fixed start of every proxied path: `/api/`.
pub open spec fn api_prefix() -> Seq<char> {
    seq!['/', 'a', 'p', 'i', '/']
}

/// The index of the first `/` of `path` at or after `from`, or the length of
/// `path` where there is none.
pub open spec fn first_slash(path: Seq<char>, from: int) -> int
    decreases path.len() - from,
{
    if from >= path.len() {
        path.len() as int
    } else if path[from] == '/' {
        from
    } else {
        first_slash(path, from + 1)
    }
}

/// The path fits the template: it starts with `/api/`, a non-empty route
/// segment follows, then a `/` and at least one more character.
pub open spec fn fits_template(path: Seq<char>) -> bool {
    &&& path.len() > 5
    &&& path.take(5) == api_prefix()
    &&& 5 < first_slash(path, 5) < path.len() - 1
}

/// The route segment of a path that fits the template.
pub open spec fn route_of(path: Seq<char>) -> Seq<char> {
    path.subrange(5, first_slash(path, 5))
}

/// The remainder of a path that fits the template: all that follows the
/// route segment, from its leading `/` on.
pub open spec fn remainder_of(path: Seq<char>) -> Seq<char> {
    path.skip(first_slash(path, 5))
}

/// A path taken apart by the dispatcher.
#[derive(Debug, Clone)]
pub struct Dispatched {
    pub route: String,
    pub remainder_path: String,
}

struct Scan {
    len: usize,
    starts_with_api: bool,
    route_end: usize,
}

fn scan(path: &str) -> (s: Scan)
    ensures
        s.len == path@.len(),
        s.starts_with_api == (path@.len() >= 5 && path@.take(5) == api_prefix()),
        path@.len() >= 5 ==> s.route_end == first_slash(path@, 5),
{
    broadcast use vstd::string::group_string_axioms;

    let len = path.unicode_len();
    let mut it = path.chars();
    let mut i: usize = 0;
    let mut starts_with_api = true;
    let mut route_end = len;
    let mut seen = false;
    while i < len
        invariant
            i <= len,
            len == path@.len(),
            IteratorSpec::remaining(&it) == path@.skip(i as int),
            starts_with_api == (forall|j: int|
                0 <= j < i && j < 5 ==> #[trigger] path@[j] == api_prefix()[j]),
            seen ==> path@.len() >= 5 && route_end == first_slash(path@, 5),
            !seen ==> route_end == len,
            !seen && i >= 5 ==> first_slash(path@, 5) == first_slash(path@, i as int),
        decreases len - i,
    {
        let next = it.next();
        assert(next == Some(path@[i as int])) by {
            assert(path@.skip(i as int)[0] == path@[i as int]);
        }
        assert(IteratorSpec::remaining(&it) == path@.skip(i as int + 1)) by {
            assert(path@.skip(i as int).drop_first() =~= path@.skip(i as int + 1));
        }
        match next {
            Some(c) => {
                if i < 5 {
                    let expected = if i == 0 || i == 4 {
                        '/'
                    } else if i == 1 {
                        'a'
                    } else if i == 2 {
                        'p'
                    } else {
                        'i'
                    };
                    assert(expected == api_prefix()[i as int]);
                    if c != expected {
                        starts_with_api = false;
                    }
                } else if !seen && c == '/' {
                    seen = true;
                    route_end = i;
                }
            },
            None => {},
        }
        i = i + 1;
    }
    proof {
        if len >= 5 {
            if starts_with_api {
                assert(path@.take(5) =~= api_prefix());
            } else {
                let j = choose|j: int| 0 <= j < 5 && path@[j] != api_prefix()[j];
                assert(path@.take(5)[j] == path@[j]);
            }
        }
    }
    Scan { len, starts_with_api: starts_with_api && len >= 5, route_end }
}

/// Takes an inbound path apart.
///
/// Returns the route name and the remainder path where the path fits the
/// template `/api/{route}/{remainder...}`, and `None` for every other path.
///
/// The path is taken as it stands on the wire. Percent-escapes are not
/// resolved, neither in the route segment nor in the remainder: a route is
/// found only under the name as it is written in the path, and the
/// remainder reaches the upstream byte for byte.
pub fn dispatch(path: &str) -> (found: Option<Dispatched>)
    ensures
        found is Some <==> fits_template(path@),
        found matches Some(d) ==> {
            &&& d.route@ == route_of(path@)
            &&& d.remainder_path@ == remainder_of(path@)
        },
{
    let s = scan(path);
    if !s.starts_with_api || s.route_end <= 5 || s.route_end >= s.len - 1 {
        return None;
    }
    let route = path.substring_char(5, s.route_end);
    let remainder = path.substring_char(s.route_end, s.len);
    Some(Dispatched { route: String::from_str(route), remainder_path: String::from_str(remainder) })
}

/// The template read as an equation: a path fits exactly when it is
/// `/api/` followed by a non-empty route without `/`, a `/`, and a non-empty
/// rest; the dispatcher then yields that route, and that rest behind its `/`.
pub proof fn lemma_template(path: Seq<char>, route: Seq<char>, rest: Seq<char>)
    requires
        path == api_prefix() + route + seq!['/'] + rest,
        route.len() > 0,
        !route.contains('/'),
        rest.len() > 0,
    ensures
        fits_template(path),
        route_of(path) == route,
        remainder_of(path) == seq!['/'] + rest,
{
    assert(path.take(5) =~= api_prefix());
    lemma_first_slash(path, 5, 5 + route.len() as int);
    assert(route_of(path) =~= route);
    assert(remainder_of(path) =~= seq!['/'] + rest);
}

/// A path that fits the template is put together from its parts.
pub proof fn lemma_template_parts(path: Seq<char>)
    requires
        fits_template(path),
    ensures
        path == api_prefix() + route_of(path) + remainder_of(path),
        route_of(path).len() > 0,
        !route_of(path).contains('/'),
        remainder_of(path).len() > 1,
        remainder_of(path)[0] == '/',
{
    let end = first_slash(path, 5);
    lemma_first_slash_found(path, 5);
    assert(path =~= path.take(5) + route_of(path) + remainder_of(path));
    if route_of(path).contains('/') {
        let k = choose|k: int| 0 <= k < route_of(path).len() && route_of(path)[k] == '/';
        assert(path[5 + k] == '/');
    }
}

proof fn lemma_first_slash(path: Seq<char>, from: int, at: int)
    requires
        0 <= from <= at < path.len(),
        path[at] == '/',
        forall|k: int| from <= k < at ==> path[k] != '/',
    ensures
        first_slash(path, from) == at,
    decreases at - from,
{
    if from < at {
        lemma_first_slash(path, from + 1, at);
    }
}

proof fn lemma_first_slash_found(path: Seq<char>, from: int)
    requires
        0 <= from,
    ensures
        from <= first_slash(path, from) || first_slash(path, from) == path.len(),
        first_slash(path, from) <= path.len() || from > path.len(),
        first_slash(path, from) < path.len() ==> path[first_slash(path, from)] == '/',
        forall|k: int| from <= k < first_slash(path, from) ==> path[k] != '/',
    decreases path.len() - from,
{
    if from < path.len() && path[from] != '/' {
        lemma_first_slash_found(path, from + 1);
    }
}

} // verus!
