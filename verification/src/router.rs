//! The route table: which handler answers which method and path.

use crate::http::Method;
use crate::text::{same_text, starts_with};
use vstd::prelude::*;

verus! {

/// The handlers that a route can name.
#[derive(Debug, Clone, Copy, PartialEq, Eq, Structural)]
pub enum Handler {
    /// Greets by name.
    Greeting,
    /// Reads and issues cookies.
    Cookies,
    /// Lists the sample records.
    ListAll,
    /// Reports the record in the body.
    Create,
    /// Hands the rest of the path to the static-file collaborator.
    Static,
}

/// One entry of the table. A plain route matches the path that equals
/// `literal`; a wildcard route matches every path that begins with `literal`
/// and goes on after it.
#[derive(Debug, PartialEq, Eq)]
pub struct Route {
    pub method: Method,
    pub literal: String,
    pub wildcard: bool,
    pub handler: Handler,
}

/// The mathematical value of a [`Route`].
pub struct RouteView {
    pub method: Method,
    pub literal: Seq<char>,
    pub wildcard: bool,
    pub handler: Handler,
}

impl View for Route {
    type V = RouteView;

    open spec fn view(&self) -> RouteView {
        RouteView {
            method: self.method,
            literal: self.literal@,
            wildcard: self.wildcard,
            handler: self.handler,
        }
    }
}

/// The route that a pattern describes: a pattern that ends in `*` is a
/// wildcard over what stands before the star, any other is a plain route.
pub open spec fn route_of(method: Method, pattern: Seq<char>, handler: Handler) -> RouteView {
    if pattern.len() > 0 && pattern.last() == '*' {
        RouteView { method, literal: pattern.drop_last(), wildcard: true, handler }
    } else {
        RouteView { method, literal: pattern, wildcard: false, handler }
    }
}

/// The route `route` as it reads below the path prefix `prefix`.
pub open spec fn prefixed(prefix: Seq<char>, route: RouteView) -> RouteView {
    RouteView { literal: prefix + route.literal, ..route }
}

/// Whether `route` answers requests of this method and path.
pub open spec fn route_matches(route: RouteView, method: Method, path: Seq<char>) -> bool {
    &&& route.method == method
    &&& if route.wildcard {
        route.literal.is_prefix_of(path) && route.literal.len() < path.len()
    } else {
        route.literal == path
    }
}

/// Whether entry `i` is the one that answers: it matches, no matching entry
/// has a longer literal part, and every matching entry before it has a
/// shorter one. A plain match spells the whole path and so has the longest
/// literal part there can be.
pub open spec fn selects(routes: Seq<RouteView>, method: Method, path: Seq<char>, i: int) -> bool {
    &&& 0 <= i < routes.len()
    &&& route_matches(routes[i], method, path)
    &&& forall|j: int|
        0 <= j < routes.len() && route_matches(#[trigger] routes[j], method, path)
            ==> routes[j].literal.len() <= routes[i].literal.len()
    &&& forall|j: int|
        0 <= j < i && route_matches(#[trigger] routes[j], method, path) ==> routes[j].literal.len()
            < routes[i].literal.len()
}

/// Whether any entry answers requests of this method and path.
pub open spec fn some_route_matches(routes: Seq<RouteView>, method: Method, path: Seq<char>) -> bool {
    exists|i: int| 0 <= i < routes.len() && route_matches(#[trigger] routes[i], method, path)
}

/// The route that answers a request of this method and path, if any does.
pub open spec fn selected(routes: Seq<RouteView>, method: Method, path: Seq<char>) -> Option<
    RouteView,
> {
    if exists|i: int| selects(routes, method, path, i) {
        Some(routes[choose|i: int| selects(routes, method, path, i)])
    } else {
        None
    }
}

/// At most one entry answers.
pub proof fn lemma_selects_unique(
    routes: Seq<RouteView>,
    method: Method,
    path: Seq<char>,
    i: int,
    k: int,
)
    requires
        selects(routes, method, path, i),
        selects(routes, method, path, k),
    ensures
        i == k,
{
}

/// What dispatch found: the handler of the selected route, and how many
/// characters of the path its literal part covers.
#[derive(Debug, Clone, Copy, PartialEq, Eq, Structural)]
pub struct Selection {
    pub handler: Handler,
    pub covered: usize,
}

/// The table of routes, in the order of registration.
#[derive(Debug)]
pub struct RouteTable {
    routes: Vec<Route>,
}

impl View for RouteTable {
    type V = Seq<RouteView>;

    closed spec fn view(&self) -> Seq<RouteView> {
        self.routes@.map_values(|r: Route| r@)
    }
}

fn matches(route: &Route, method: Method, path: &str) -> (yes: bool)
    ensures
        yes == route_matches(route@, method, path@),
{
    if route.method != method {
        return false;
    }
    if route.wildcard {
        starts_with(path, route.literal.as_str()) && route.literal.as_str().unicode_len()
            < path.unicode_len()
    } else {
        same_text(route.literal.as_str(), path)
    }
}

impl RouteTable {
    /// A table without routes.
    pub fn new() -> (table: Self)
        ensures
            table@ == Seq::<RouteView>::empty(),
    {
        let table = RouteTable { routes: Vec::new() };
        assert(table@ =~= Seq::<RouteView>::empty());
        table
    }

    /// The number of routes.
    pub fn len(&self) -> (n: usize)
        ensures
            n == self@.len(),
    {
        self.routes.len()
    }

    /// Adds the route that `pattern` describes, after those already there.
    pub fn register(&mut self, method: Method, pattern: &str, handler: Handler)
        ensures
            final(self)@ == old(self)@.push(route_of(method, pattern@, handler)),
    {
        let n = pattern.unicode_len();
        let route = if n > 0 && pattern.get_char(n - 1) == '*' {
            let literal = String::from_str(pattern.substring_char(0, n - 1));
            assert(literal@ =~= pattern@.drop_last());
            Route { method, literal, wildcard: true, handler }
        } else {
            Route { method, literal: String::from_str(pattern), wildcard: false, handler }
        };
        self.routes.push(route);
        assert(self@ =~= old(self)@.push(route_of(method, pattern@, handler)));
    }

    /// Adds every route of `sub` below the path prefix `prefix`, in the order
    /// of `sub`, after the routes already there.
    pub fn mount(&mut self, prefix: &str, sub: &RouteTable)
        ensures
            final(self)@ == old(self)@ + sub@.map_values(|r: RouteView| prefixed(prefix@, r)),
    {
        let mut i: usize = 0;
        while i < sub.routes.len()
            invariant
                i <= sub.routes.len(),
                self@ == old(self)@ + sub@.subrange(0, i as int).map_values(
                    |r: RouteView| prefixed(prefix@, r),
                ),
            decreases sub.routes.len() - i,
        {
            let inner = &sub.routes[i];
            let mut literal = String::from_str(prefix);
            literal.append(inner.literal.as_str());
            let ghost before = self@;
            self.routes.push(
                Route { method: inner.method, literal, wildcard: inner.wildcard, handler: inner.handler },
            );
            assert(self@ =~= before.push(prefixed(prefix@, sub@[i as int])));
            assert(sub@.subrange(0, i + 1).map_values(|r: RouteView| prefixed(prefix@, r))
                =~= sub@.subrange(0, i as int).map_values(|r: RouteView| prefixed(prefix@, r)).push(
                prefixed(prefix@, sub@[i as int]),
            ));
            i = i + 1;
        }
        assert(sub@.subrange(0, sub@.len() as int) =~= sub@);
    }

    /// Finds the route that answers a request of this method and path: the
    /// matching route with the longest literal part, and among equals the
    /// one registered first. `None` means that no route matches.
    pub fn dispatch(&self, method: Method, path: &str) -> (found: Option<Selection>)
        ensures
            match found {
                Some(selection) => exists|i: int|
                    #![trigger self@[i]]
                    selects(self@, method, path@, i) && selection.handler == self@[i].handler
                        && selection.covered == self@[i].literal.len(),
                None => !some_route_matches(self@, method, path@),
            },
            match found {
                Some(selection) => selected(self@, method, path@) matches Some(route)
                    && selection.handler == route.handler && selection.covered
                    == route.literal.len(),
                None => selected(self@, method, path@) is None,
            },
    {
        let mut best: Option<usize> = None;
        let mut best_len: usize = 0;
        let mut i: usize = 0;
        while i < self.routes.len()
            invariant
                i <= self.routes.len(),
                match best {
                    Some(b) => b < i && best_len == self@[b as int].literal.len() && selects(
                        self@.subrange(0, i as int),
                        method,
                        path@,
                        b as int,
                    ),
                    None => !some_route_matches(self@.subrange(0, i as int), method, path@),
                },
            decreases self.routes.len() - i,
        {
            let ghost seen = self@.subrange(0, i as int);
            let ghost next = self@.subrange(0, i + 1);
            assert(forall|j: int| 0 <= j < i ==> next[j] == seen[j]);
            if matches(&self.routes[i], method, path) {
                let len = self.routes[i].literal.as_str().unicode_len();
                let better = match best {
                    Some(_) => len > best_len,
                    None => true,
                };
                if better {
                    best = Some(i);
                    best_len = len;
                }
            }
            proof {
                match best {
                    Some(b) => {
                        assert(selects(next, method, path@, b as int));
                    },
                    None => {
                        assert(!some_route_matches(next, method, path@));
                    },
                }
            }
            i = i + 1;
        }
        assert(self@.subrange(0, self@.len() as int) =~= self@);
        match best {
            Some(b) => {
                proof {
                    let c = choose|i: int| selects(self@, method, path@, i);
                    lemma_selects_unique(self@, method, path@, b as int, c);
                }
                Some(Selection { handler: self.routes[b].handler, covered: best_len })
            },
            None => {
                assert forall|i: int| !selects(self@, method, path@, i) by {
                    if selects(self@, method, path@, i) {
                        assert(route_matches(self@[i], method, path@));
                    }
                }
                None
            },
        }
    }
}

/// Where any route matches, one route answers.
pub proof fn lemma_match_is_selected(routes: Seq<RouteView>, method: Method, path: Seq<char>)
    requires
        some_route_matches(routes, method, path),
    ensures
        exists|i: int| selects(routes, method, path, i),
    decreases routes.len(),
{
    let n = routes.len() - 1;
    let front = routes.drop_last();
    assert(forall|j: int| 0 <= j < n ==> front[j] == routes[j]);
    if some_route_matches(front, method, path) {
        lemma_match_is_selected(front, method, path);
        let b = choose|i: int| selects(front, method, path, i);
        if route_matches(routes[n], method, path) && routes[n].literal.len()
            > routes[b].literal.len() {
            assert(selects(routes, method, path, n));
        } else {
            assert(selects(routes, method, path, b));
        }
    } else {
        let w = choose|i: int| 0 <= i < routes.len() && route_matches(routes[i], method, path);
        if w < n {
            assert(route_matches(front[w], method, path));
        }
        assert(selects(routes, method, path, n));
    }
}

/// Dispatch finds a route exactly where some route matches, and the route
/// it finds matches and is at least as specific as every other match.
pub proof fn law_selected_is_most_specific(routes: Seq<RouteView>, method: Method, path: Seq<char>)
    ensures
        selected(routes, method, path) is Some <==> some_route_matches(routes, method, path),
        selected(routes, method, path) matches Some(route) ==> {
            &&& route_matches(route, method, path)
            &&& forall|j: int|
                0 <= j < routes.len() && route_matches(#[trigger] routes[j], method, path)
                    ==> routes[j].literal.len() <= route.literal.len()
        },
{
    if some_route_matches(routes, method, path) {
        lemma_match_is_selected(routes, method, path);
    }
    if exists|i: int| selects(routes, method, path, i) {
        let c = choose|i: int| selects(routes, method, path, i);
        assert(route_matches(routes[c], method, path));
    }
}

/// A plain route that spells the path wins over every wildcard: where such
/// a route matches, the selected route is plain and spells the whole path.
pub proof fn law_plain_beats_wildcard(
    routes: Seq<RouteView>,
    method: Method,
    path: Seq<char>,
    k: int,
)
    requires
        0 <= k < routes.len(),
        !routes[k].wildcard,
        route_matches(routes[k], method, path),
    ensures
        selected(routes, method, path) matches Some(route) && !route.wildcard && route.literal
            == path,
{
    lemma_match_is_selected(routes, method, path);
    let c = choose|i: int| selects(routes, method, path, i);
    assert(routes[k].literal.len() <= routes[c].literal.len());
    assert(route_matches(routes[c], method, path));
}

/// Among wildcards the longer prefix wins: the selected route is never a
/// wildcard with a shorter literal part than another wildcard that matches.
pub proof fn law_longer_prefix_wins(
    routes: Seq<RouteView>,
    method: Method,
    path: Seq<char>,
    k: int,
)
    requires
        0 <= k < routes.len(),
        route_matches(routes[k], method, path),
    ensures
        selected(routes, method, path) matches Some(route) && routes[k].literal.len()
            <= route.literal.len(),
{
    lemma_match_is_selected(routes, method, path);
    let c = choose|i: int| selects(routes, method, path, i);
    assert(routes[k].literal.len() <= routes[c].literal.len());
}

/// A mounted table resolves the remainder of the path against its own
/// entries: where no route of `outer` matches `prefix + rest`, the table
/// that mounts `sub` at `prefix` selects for `prefix + rest` the route that
/// `sub` selects for `rest`, read below the prefix.
pub proof fn law_mount_resolves_remainder(
    outer: Seq<RouteView>,
    sub: Seq<RouteView>,
    prefix: Seq<char>,
    method: Method,
    rest: Seq<char>,
)
    requires
        !some_route_matches(outer, method, prefix + rest),
    ensures
        selected(outer + sub.map_values(|r: RouteView| prefixed(prefix, r)), method, prefix + rest)
            == match selected(sub, method, rest) {
            Some(route) => Some(prefixed(prefix, route)),
            None => None,
        },
{
    let mounted = sub.map_values(|r: RouteView| prefixed(prefix, r));
    let all = outer + mounted;
    let path = prefix + rest;
    let n = outer.len() as int;
    assert forall|j: int| 0 <= j < sub.len() implies route_matches(all[n + j], method, path)
        == route_matches(sub[j], method, rest) by {
        lemma_prefixed_matches(prefix, sub[j], method, rest);
    }
    assert forall|j: int| 0 <= j < n implies !route_matches(all[j], method, path) by {
        assert(all[j] == outer[j]);
    }
    assert forall|j: int| 0 <= j < sub.len() implies (#[trigger] all[n + j]).literal.len()
        == prefix.len() + sub[j].literal.len() by {}
    if exists|i: int| selects(sub, method, rest, i) {
        let c = choose|i: int| selects(sub, method, rest, i);
        assert forall|j: int|
            0 <= j < all.len() && route_matches(#[trigger] all[j], method, path)
            implies all[j].literal.len() <= all[n + c].literal.len() by {
            assert(j >= n);
            assert(all[n + (j - n)] == all[j]);
            assert(route_matches(sub[j - n], method, rest));
        }
        assert forall|j: int|
            0 <= j < n + c && route_matches(#[trigger] all[j], method, path)
            implies all[j].literal.len() < all[n + c].literal.len() by {
            assert(j >= n);
            assert(all[n + (j - n)] == all[j]);
            assert(route_matches(sub[j - n], method, rest));
        }
        assert(selects(all, method, path, n + c));
        let d = choose|i: int| selects(all, method, path, i);
        lemma_selects_unique(all, method, path, n + c, d);
    } else {
        if exists|i: int| selects(all, method, path, i) {
            let d = choose|i: int| selects(all, method, path, i);
            assert(d >= n);
            assert(all[n + (d - n)] == all[d]);
            assert(route_matches(sub[d - n], method, rest));
            lemma_match_is_selected(sub, method, rest);
        }
    }
}

/// A route read below a prefix matches `prefix + rest` exactly where the
/// route itself matches `rest`.
pub proof fn lemma_prefixed_matches(
    prefix: Seq<char>,
    route: RouteView,
    method: Method,
    rest: Seq<char>,
)
    ensures
        route_matches(prefixed(prefix, route), method, prefix + rest) == route_matches(
            route,
            method,
            rest,
        ),
{
    let long = prefix + route.literal;
    let path = prefix + rest;
    if route.literal.is_prefix_of(rest) {
        assert(long =~= path.subrange(0, long.len() as int));
    }
    if long.is_prefix_of(path) {
        assert forall|i: int| 0 <= i < route.literal.len() implies route.literal[i] == rest[i] by {
            assert(long[prefix.len() + i] == path[prefix.len() + i]);
        }
        assert(route.literal =~= rest.subrange(0, route.literal.len() as int));
    }
    if route.literal == rest {
        assert(long =~= path);
    }
    if long == path {
        assert(route.literal =~= long.subrange(prefix.len() as int, long.len() as int));
        assert(rest =~= path.subrange(prefix.len() as int, path.len() as int));
    }
}

} // verus!
