//! Routes: the path and parameters the application shows, how they are written
//! as a URL, how a browser path is read back, and which routed child is shown.
use vstd::prelude::*;
use crate::string_map::{pair_view, StringMap};
use crate::text::{chars_of, lemma_split_prefix, lemma_split_single, split, split_ranges};

verus! {

/// The parts joined with `sep` between each two of them, as `join` writes them.
pub open spec fn join(parts: Seq<Seq<char>>, sep: Seq<char>) -> Seq<char>
    decreases parts.len(),
{
    if parts.len() == 0 {
        Seq::empty()
    } else if parts.len() == 1 {
        parts[0]
    } else {
        join(parts.drop_last(), sep) + sep + parts.last()
    }
}

/// The texts of a list of strings.
pub open spec fn texts(v: Seq<String>) -> Seq<Seq<char>> {
    v.map_values(|s: String| s@)
}

/// The separator of path segments.
pub open spec fn slash() -> Seq<char> {
    seq!['/']
}

/// Query parameters written `key=value` and joined with `&`.
pub open spec fn url_params(ps: Seq<(Seq<char>, Seq<char>)>) -> Seq<char> {
    join(ps.map_values(|p: (Seq<char>, Seq<char>)| p.0 + "="@ + p.1), "&"@)
}

/// A route written as a URL: its path segments joined with `/`, then `?` and
/// its parameters if it has any.
pub open spec fn route_text(path: Seq<Seq<char>>, ps: Seq<(Seq<char>, Seq<char>)>) -> Seq<char> {
    join(path, slash()) + if ps.len() > 0 { "?"@ + url_params(ps) } else { Seq::empty() }
}

/// `s` without the copies of `c` it starts with.
pub open spec fn strip_leading(s: Seq<char>, c: char) -> Seq<char>
    decreases s.len(),
{
    if s.len() > 0 && s[0] == c { strip_leading(s.drop_first(), c) } else { s }
}

/// `s` without the copies of `c` it ends with.
pub open spec fn strip_trailing(s: Seq<char>, c: char) -> Seq<char>
    decreases s.len(),
{
    if s.len() > 0 && s.last() == c { strip_trailing(s.drop_last(), c) } else { s }
}

/// The route segments a browser path names: the path without its leading and
/// trailing slashes, cut at each slash.
pub open spec fn path_segments(pathname: Seq<char>) -> Seq<Seq<char>> {
    split(strip_trailing(strip_leading(pathname, '/'), '/'), slash())
}

/// What the history receives for a URL: the empty URL becomes `/`.
pub open spec fn history_path(url: Seq<char>) -> Seq<char> {
    if url.len() == 0 { slash() } else { url }
}

/// A route named `name` matches a path whose first segment is `name`.
pub open spec fn route_matches(path: Seq<Seq<char>>, name: Seq<char>) -> bool {
    path.len() > 0 && path[0] == name
}

/// The last of the routes that matches the path.
pub open spec fn last_match(path: Seq<Seq<char>>, routes: Seq<Seq<char>>) -> Option<int>
    decreases routes.len(),
{
    if routes.len() == 0 {
        None
    } else if route_matches(path, routes.last()) {
        Some(routes.len() - 1)
    } else {
        last_match(path, routes.drop_last())
    }
}

/// A request to show a route.
pub struct RouteChange {
    pub path: Vec<String>,
    pub params: StringMap,
}

/// The route the application shows.
pub struct RouteState {
    pub path: Vec<String>,
    pub params: StringMap,
}

/// The outcome of a router update: the URL to push onto the browser history, if
/// the browser shows another one; whether the routed children were refreshed;
/// the visibility of each routed child; and the child to show, if one matches.
pub struct RouterUpdate {
    pub history: Option<String>,
    pub refreshed: bool,
    pub visible: Vec<bool>,
    pub shown: Option<usize>,
}

fn join_texts(parts: &Vec<String>, sep: &str) -> (s: String)
    ensures
        s@ == join(texts(parts@), sep@),
{
    let ghost ps = texts(parts@);
    let mut s = String::new();
    let mut i: usize = 0;
    assert(ps.take(0) =~= Seq::<Seq<char>>::empty());
    while i < parts.len()
        invariant
            ps == texts(parts@),
            i <= parts@.len(),
            s@ == join(ps.take(i as int), sep@),
        decreases parts@.len() - i,
    {
        assert(ps.take(i + 1).drop_last() =~= ps.take(i as int));
        if i > 0 {
            s.append(sep);
        } else {
            assert(ps.take(1) =~= seq![ps[0]]);
            assert(s@ =~= Seq::<char>::empty());
        }
        s.append(parts[i].as_str());
        i = i + 1;
    }
    assert(ps.take(parts@.len() as int) =~= ps);
    s
}

/// Query parameters written `key=value` and joined with `&`, in the order of the map.
pub fn to_url_params(params: &StringMap) -> (s: String)
    ensures
        s@ == url_params(params.pairs()),
{
    let entries = params.entries();
    let ghost ps = params.pairs();
    let ghost items = ps.map_values(|p: (Seq<char>, Seq<char>)| p.0 + "="@ + p.1);
    let mut s = String::new();
    let mut i: usize = 0;
    assert(items.take(0) =~= Seq::<Seq<char>>::empty());
    while i < entries.len()
        invariant
            entries@.map_values(|e: (String, String)| pair_view(e)) == ps,
            items == ps.map_values(|p: (Seq<char>, Seq<char>)| p.0 + "="@ + p.1),
            i <= entries@.len(),
            s@ == join(items.take(i as int), "&"@),
        decreases entries@.len() - i,
    {
        assert(items.take(i + 1).drop_last() =~= items.take(i as int));
        assert(ps[i as int] == pair_view(entries@[i as int]));
        let ghost before = s@;
        if i > 0 {
            s.append("&");
        } else {
            assert(items.take(1) =~= seq![items[0]]);
        }
        s.append(entries[i].0.as_str());
        s.append("=");
        s.append(entries[i].1.as_str());
        assert(items.take(i + 1).last() == items[i as int]);
        assert(i == 0 ==> s@ =~= items[0]);
        assert(i > 0 ==> s@ =~= before + "&"@ + items[i as int]);
        i = i + 1;
    }
    assert(items.take(entries@.len() as int) =~= items);
    s
}

fn route_text_of(path: &Vec<String>, params: &StringMap) -> (s: String)
    ensures
        s@ == route_text(texts(path@), params.pairs()),
{
    proof {
        reveal_strlit("/");
        assert("/"@ =~= slash());
    }
    let mut route = join_texts(path, "/");
    if params.len() > 0 {
        let p = to_url_params(params);
        route.append("?");
        route.append(p.as_str());
    } else {
        assert(route@ =~= route@ + Seq::<char>::empty());
    }
    route
}

impl RouteState {
    /// The route written as a URL.
    pub fn to_string(&self) -> (s: String)
        ensures
            s@ == route_text(texts(self.path@), self.params.pairs()),
    {
        route_text_of(&self.path, &self.params)
    }
}

impl RouteChange {
    /// A request for the single-segment route `route` with the given parameters.
    pub fn new(route: String, params: StringMap) -> (c: RouteChange)
        ensures
            texts(c.path@) == seq![route@],
            c.params@ == params@,
    {
        let mut path: Vec<String> = Vec::new();
        path.push(route);
        assert(texts(path@) =~= seq![path@[0]@]);
        RouteChange { path, params }
    }

    /// A request for the single-segment route `route` whose only parameter is `id`.
    pub fn with_id(route: String, id: String) -> (c: RouteChange)
        ensures
            texts(c.path@) == seq![route@],
            c.params@ == Map::<Seq<char>, Seq<char>>::empty().insert("id"@, id@),
    {
        let mut params = StringMap::new();
        params.insert(String::from_str("id"), id);
        RouteChange::new(route, params)
    }
}

/// The path segments, cut at each `/`.
pub fn split_path_to_list(path: &str) -> (v: Vec<String>)
    ensures
        texts(v@) == split(path@, slash()),
{
    let chars = chars_of(path);
    let sep: Vec<char> = vec!['/'];
    assert(sep@ =~= slash());
    let ranges = split_ranges(&chars, &sep);
    let ghost pieces = split(path@, slash());
    let mut out: Vec<String> = Vec::new();
    let mut i: usize = 0;
    while i < ranges.len()
        invariant
            chars@ == path@,
            pieces == split(path@, slash()),
            ranges@.len() == pieces.len(),
            forall|t: int| 0 <= t < ranges@.len() ==> (#[trigger] ranges@[t]).0 <= ranges@[t].1 <= chars@.len(),
            forall|t: int| 0 <= t < ranges@.len() ==> #[trigger] chars@.subrange(ranges@[t].0 as int, ranges@[t].1 as int)
                == pieces[t],
            i <= ranges@.len(),
            texts(out@) == pieces.take(i as int),
        decreases ranges@.len() - i,
    {
        let (a, b): (usize, usize) = ranges[i];
        assert(chars@.subrange(a as int, b as int) == pieces[i as int]);
        let piece = path.substring_char(a, b);
        let text = String::from_str(piece);
        assert(text@ == pieces[i as int]);
        let ghost before = out@;
        out.push(text);
        assert(out@ == before.push(text));
        assert(texts(out@) =~= texts(before).push(text@));
        assert(pieces.take(i + 1) =~= pieces.take(i as int).push(pieces[i as int]));
        i = i + 1;
    }
    assert(pieces.take(ranges@.len() as int) =~= pieces);
    out
}

/// The route segments of a browser path: without leading and trailing slashes,
/// cut at each remaining slash.
pub fn route_path_list(pathname: &str) -> (v: Vec<String>)
    ensures
        texts(v@) == path_segments(pathname@),
{
    let chars = chars_of(pathname);
    let n: usize = chars.len();
    let mut lo: usize = 0;
    assert(pathname@ =~= chars@.subrange(0, n as int));
    while lo < n && chars[lo] == '/'
        invariant
            n == chars@.len(),
            chars@ == pathname@,
            lo <= n,
            strip_leading(pathname@, '/') == strip_leading(chars@.subrange(lo as int, n as int), '/'),
        decreases n - lo,
    {
        assert(chars@.subrange(lo as int, n as int).drop_first() =~= chars@.subrange(lo + 1, n as int));
        lo = lo + 1;
    }
    assert(strip_leading(chars@.subrange(lo as int, n as int), '/') == chars@.subrange(lo as int, n as int));
    let mut hi: usize = n;
    while hi > lo && chars[hi - 1] == '/'
        invariant
            n == chars@.len(),
            lo <= hi <= n,
            strip_trailing(chars@.subrange(lo as int, n as int), '/') == strip_trailing(
                chars@.subrange(lo as int, hi as int),
                '/',
            ),
        decreases hi - lo,
    {
        assert(chars@.subrange(lo as int, hi as int).drop_last() =~= chars@.subrange(lo as int, hi - 1));
        hi = hi - 1;
    }
    assert(strip_trailing(chars@.subrange(lo as int, hi as int), '/') == chars@.subrange(lo as int, hi as int));
    let inner = pathname.substring_char(lo, hi);
    split_path_to_list(inner)
}

/// What the history receives for a URL: the empty URL becomes `/`.
pub fn native_history_path(url: &str) -> (s: String)
    ensures
        s@ == history_path(url@),
{
    if url.unicode_len() == 0 {
        proof {
            reveal_strlit("/");
            assert("/"@ =~= slash());
        }
        String::from_str("/")
    } else {
        String::from_str(url)
    }
}

/// Whether a route named `name` matches `path`.
pub fn matches_route(path: &Vec<String>, name: &String) -> (b: bool)
    ensures
        b == route_matches(texts(path@), name@),
{
    path.len() > 0 && path[0] == *name
}

/// The browser shows another route than `path` with `params`: its path without
/// leading slashes differs, or its parameters are another map.
pub open spec fn browser_differs(
    native_path: Seq<char>,
    native_params: Map<Seq<char>, Seq<char>>,
    path: Seq<Seq<char>>,
    params: Map<Seq<char>, Seq<char>>,
) -> bool {
    strip_leading(native_path, '/') != join(path, slash()) || native_params != params
}

fn strip_leading_slashes(s: &str) -> (r: String)
    ensures
        r@ == strip_leading(s@, '/'),
{
    let chars = chars_of(s);
    let n: usize = chars.len();
    let mut lo: usize = 0;
    assert(s@ =~= chars@.subrange(0, n as int));
    while lo < n && chars[lo] == '/'
        invariant
            n == chars@.len(),
            chars@ == s@,
            lo <= n,
            strip_leading(s@, '/') == strip_leading(chars@.subrange(lo as int, n as int), '/'),
        decreases n - lo,
    {
        assert(chars@.subrange(lo as int, n as int).drop_first() =~= chars@.subrange(lo + 1, n as int));
        lo = lo + 1;
    }
    assert(strip_leading(chars@.subrange(lo as int, n as int), '/') == chars@.subrange(lo as int, n as int));
    String::from_str(s.substring_char(lo, n))
}

/// One router update. A route change, if there is one, becomes the shown route,
/// and the browser history gets its URL where the browser shows another route
/// (another path, or other parameters in any order).
/// When the route changed, the router was just added, or its children changed,
/// each routed child (named by `child_routes`, in order) is made visible exactly
/// when its route matches, and the last matching child is the one to show.
pub fn update_route(
    state: &mut RouteState,
    change: Option<RouteChange>,
    native_path: &str,
    native_params: &StringMap,
    router_added: bool,
    children_changed: bool,
    child_routes: &Vec<String>,
) -> (u: RouterUpdate)
    ensures
        match change {
            Some(c) => final(state).path == c.path && final(state).params == c.params,
            None => final(state).path == old(state).path && final(state).params == old(state).params,
        },
        match u.history {
            Some(h) => change.is_some() && browser_differs(
                native_path@,
                native_params@,
                texts(final(state).path@),
                final(state).params@,
            ) && h@ == history_path(route_text(texts(final(state).path@), final(state).params.pairs())),
            None => change.is_none() || !browser_differs(
                native_path@,
                native_params@,
                texts(final(state).path@),
                final(state).params@,
            ),
        },
        u.refreshed == (change.is_some() || router_added || children_changed),
        u.refreshed ==> u.visible@.len() == child_routes@.len(),
        u.refreshed ==> forall|i: int| 0 <= i < child_routes@.len() ==> #[trigger] u.visible@[i] == route_matches(
            texts(final(state).path@),
            child_routes@[i]@,
        ),
        !u.refreshed ==> u.visible@.len() == 0,
        match u.shown {
            Some(k) => u.refreshed && last_match(texts(final(state).path@), texts(child_routes@)) == Some(k as int),
            None => !u.refreshed || last_match(texts(final(state).path@), texts(child_routes@)).is_none(),
        },
{
    let changed = change.is_some();
    let mut history: Option<String> = None;
    if let Some(c) = change {
        state.path = c.path;
        state.params = c.params;
        proof {
            reveal_strlit("/");
            assert("/"@ =~= slash());
        }
        let route_path = join_texts(&state.path, "/");
        let native = strip_leading_slashes(native_path);
        if native != route_path || !native_params.same_entries(&state.params) {
            let url = route_text_of(&state.path, &state.params);
            history = Some(native_history_path(url.as_str()));
        }
    }
    let refreshed = changed || router_added || children_changed;
    let mut visible: Vec<bool> = Vec::new();
    let mut shown: Option<usize> = None;
    if refreshed {
        let ghost path = texts(state.path@);
        let ghost routes = texts(child_routes@);
        let mut i: usize = 0;
        while i < child_routes.len()
            invariant
                path == texts(state.path@),
                routes == texts(child_routes@),
                i <= child_routes@.len(),
                visible@.len() == i,
                forall|j: int| 0 <= j < i ==> #[trigger] visible@[j] == route_matches(path, child_routes@[j]@),
                match shown {
                    Some(k) => last_match(path, routes.take(i as int)) == Some(k as int),
                    None => last_match(path, routes.take(i as int)).is_none(),
                },
            decreases child_routes@.len() - i,
        {
            let m = matches_route(&state.path, &child_routes[i]);
            visible.push(m);
            assert(routes.take(i + 1).drop_last() =~= routes.take(i as int));
            assert(routes.take(i + 1).last() == child_routes@[i as int]@);
            if m {
                shown = Some(i);
            }
            i = i + 1;
        }
        assert(routes.take(child_routes@.len() as int) =~= routes);
    }
    RouterUpdate { history, refreshed, visible, shown }
}

/// The visibility of a child of a router: a routed child is visible when its
/// route matches; a child without a route is left as it is (`None`).
pub fn child_visibility(path: &Vec<String>, route: Option<&String>) -> (b: Option<bool>)
    ensures
        b == match route {
            Some(name) => Some(route_matches(texts(path@), name@)),
            None => None::<bool>,
        },
{
    match route {
        Some(name) => Some(matches_route(path, name)),
        None => None,
    }
}

/// The newest of the route changes received, if any.
pub fn newest_route_change(changes: Vec<RouteChange>) -> (r: Option<RouteChange>)
    ensures
        match r {
            Some(c) => changes@.len() > 0 && c == changes@.last(),
            None => changes@.len() == 0,
        },
{
    let mut changes = changes;
    changes.pop()
}

/// Joining splits off the first part.
pub proof fn lemma_join_front(parts: Seq<Seq<char>>, sep: Seq<char>)
    requires
        parts.len() >= 2,
    ensures
        join(parts, sep) == parts[0] + sep + join(parts.drop_first(), sep),
    decreases parts.len(),
{
    if parts.len() > 2 {
        lemma_join_front(parts.drop_last(), sep);
        assert(parts.drop_last().drop_first() =~= parts.drop_first().drop_last());
        assert(parts.drop_first().last() == parts.last());
        let x = join(parts.drop_last().drop_first(), sep);
        assert(join(parts.drop_first(), sep) == x + sep + parts.last());
        assert(join(parts, sep) == (parts[0] + sep + x) + sep + parts.last());
        assert((parts[0] + sep + x) + sep + parts.last() =~= parts[0] + sep + (x + sep + parts.last()));
    } else {
        assert(parts.drop_first() =~= seq![parts[1]]);
        assert(parts.drop_last() =~= seq![parts[0]]);
        assert(join(parts.drop_last(), sep) == parts[0]);
        assert(join(parts.drop_first(), sep) == parts[1]);
        assert(parts.last() == parts[1]);
    }
}

/// Path segments that are not empty and hold no slash.
pub open spec fn plain_segments(path: Seq<Seq<char>>) -> bool {
    forall|i: int| 0 <= i < path.len() ==> (#[trigger] path[i]).len() > 0 && forall|t: int| 0 <= t < path[i].len() ==> path[i][t] != '/'
}

proof fn lemma_split_join(path: Seq<Seq<char>>)
    requires
        path.len() > 0,
        plain_segments(path),
    ensures
        split(join(path, slash()), slash()) == path,
        join(path, slash()).len() > 0,
        join(path, slash())[0] != '/',
        join(path, slash()).last() != '/',
    decreases path.len(),
{
    let p0 = path[0];
    assert(p0.len() > 0);
    if path.len() == 1 {
        lemma_split_single(p0, slash());
        assert(seq![p0] =~= path);
    } else {
        let rest = path.drop_first();
        assert(plain_segments(rest)) by {
            assert forall|i: int| 0 <= i < rest.len() implies (#[trigger] rest[i]).len() > 0 && forall|t: int|
                0 <= t < rest[i].len() ==> rest[i][t] != '/' by {
                assert(rest[i] == path[i + 1]);
            }
        }
        lemma_split_join(rest);
        lemma_join_front(path, slash());
        lemma_split_prefix(p0, slash(), join(rest, slash()));
        assert(seq![p0] + rest =~= path);
        assert((p0 + slash() + join(rest, slash()))[0] == p0[0]);
        assert(path.last() == path[path.len() - 1]);
    }
}

/// A route path written to the browser reads back as the same path: joining
/// non-empty, slash-free segments with `/` and reading the browser path gives
/// the segments again.
pub proof fn law_route_path_reads_back(path: Seq<Seq<char>>)
    requires
        path.len() > 0,
        plain_segments(path),
    ensures
        path_segments(join(path, slash())) == path,
{
    lemma_split_join(path);
    let j = join(path, slash());
    assert(strip_leading(j, '/') == j);
    assert(strip_trailing(j, '/') == j);
}

/// The child a router shows is one whose route matches the path, so it is made
/// visible, and no later child matches.
pub proof fn law_shown_child_matches(path: Seq<Seq<char>>, routes: Seq<Seq<char>>)
    ensures
        last_match(path, routes) matches Some(k) ==> 0 <= k < routes.len() && route_matches(path, routes[k])
            && forall|j: int| k < j < routes.len() ==> !route_matches(path, #[trigger] routes[j]),
        last_match(path, routes).is_none() ==> forall|j: int| 0 <= j < routes.len() ==> !route_matches(
            path,
            #[trigger] routes[j],
        ),
    decreases routes.len(),
{
    if routes.len() > 0 {
        let init = routes.drop_last();
        law_shown_child_matches(path, init);
        assert forall|j: int| 0 <= j < init.len() implies init[j] == routes[j] by {}
    }
}

/// A route name matches a path exactly when it is the path's first segment:
/// the name of the first segment matches, and no other name does, not even
/// one of which the segment is an extension.
pub proof fn law_route_matches_first_segment(path: Seq<Seq<char>>, name: Seq<char>)
    ensures
        path.len() > 0 ==> route_matches(path, path[0]),
        route_matches(path, name) ==> path.len() > 0 && name == path[0],
        path.len() == 0 ==> !route_matches(path, name),
{
}

/// Of two routed children with different names, at most one is shown.
pub proof fn law_distinct_routes_never_both_match(path: Seq<Seq<char>>, a: Seq<char>, b: Seq<char>)
    requires
        a != b,
    ensures
        !(route_matches(path, a) && route_matches(path, b)),
{
}

/// After a route change the new route's URL is pushed exactly when the
/// browser shows something else: another path (leading slashes aside), or
/// other parameters, compared as maps. In particular an empty browser query
/// under a route with parameters is always replaced, and a browser already
/// showing the route, parameters in any order, is left alone.
pub proof fn law_history_follows_browser_difference(
    native_path: Seq<char>,
    native_params: Map<Seq<char>, Seq<char>>,
    path: Seq<Seq<char>>,
    params: Map<Seq<char>, Seq<char>>,
)
    ensures
        strip_leading(native_path, '/') != join(path, slash()) ==> browser_differs(native_path, native_params, path, params),
        native_params != params ==> browser_differs(native_path, native_params, path, params),
        (native_params == Map::<Seq<char>, Seq<char>>::empty() && params.dom().len() > 0 && params.dom().finite())
            ==> browser_differs(native_path, native_params, path, params),
        (strip_leading(native_path, '/') == join(path, slash()) && native_params == params) ==> !browser_differs(
            native_path,
            native_params,
            path,
            params,
        ),
{
    if native_params == Map::<Seq<char>, Seq<char>>::empty() && params.dom().len() > 0 && params.dom().finite() {
        assert(native_params.dom().len() == 0);
    }
}

} // verus!
