//! A request-routing layer: an ordered table of (verb, pattern, handler)
//! registrations is compiled once into an immutable router, which picks for
//! every incoming request the one handler that runs and the substrings its
//! pattern captured.
//!
//! Handlers are opaque values of a caller-chosen type: the router decides
//! which one runs, and the surrounding server code invokes it.

use vstd::prelude::*;

use crate::regexes::{
    capture_texts, combined_ok, compile_combined, compile_pattern, match_groups, matched_indices,
    pattern_matches, pattern_ok, source_of, sources_of,
};
use regex::{Regex, RegexSet};

pub use error::Error;

pub mod error;
mod regexes;

verus! {

/// The substrings a matched pattern captured: the full match first, then
/// each capturing group that participated, in order. `None` whenever no
/// route matched, or the matched pattern has no capturing group that
/// produced a result.
pub type Captures = Option<Vec<String>>;

/// An HTTP verb, as carried by a route registration and by an inbound
/// request.
#[derive(Clone, Copy, Debug, PartialEq, Eq, Structural)]
pub enum Method {
    Get,
    Post,
    Put,
    Patch,
    Delete,
    Options,
    Head,
    Trace,
    Connect,
}

/// `route`, anchored at both ends, so that it matches only an entire path:
/// the source text of `\A` + `route` + `\z`.
pub open spec fn anchored(route: Seq<char>) -> Seq<char> {
    seq!['\\', 'A'] + route + seq!['\\', 'z']
}

/// Anchor a route pattern at the start and end, so that it matches only
/// exactly.
fn anchor(route: &str) -> (r: String)
    ensures
        r@ == anchored(route@),
{
    let mut pattern = String::new();
    pattern.append("\\A");
    pattern.append(route);
    pattern.append("\\z");
    proof {
        reveal_strlit("\\A");
        reveal_strlit("\\z");
        assert(pattern@ =~= anchored(route@));
    }
    pattern
}

/// A `RouterBuilder` accumulates an ordered set of routes, their verbs and
/// their handlers, plus an optional fallback handler, to be compiled by
/// [`RouterBuilder::finalize`] into a [`Router`].
///
/// Handlers are opaque values of type `H`; registration order is
/// significant: among patterns that match the same path, the
/// first-registered one whose verb also matches wins.
pub struct RouterBuilder<H> {
    routes: Vec<String>,
    handlers: Vec<(Method, H)>,
    not_found: Option<H>,
}

impl<H> RouterBuilder<H> {
    /// The anchored pattern sources registered so far, in registration
    /// order.
    pub closed spec fn patterns(&self) -> Seq<Seq<char>> {
        self.routes.deep_view()
    }

    /// The registered verbs, aligned by index with `patterns()`.
    pub closed spec fn methods(&self) -> Seq<Method> {
        self.handlers@.map_values(|p: (Method, H)| p.0)
    }

    /// The registered handlers, aligned by index with `patterns()`.
    pub closed spec fn handler_seq(&self) -> Seq<H> {
        self.handlers@.map_values(|p: (Method, H)| p.1)
    }

    /// The fallback handler, if one was installed.
    pub closed spec fn fallback(&self) -> Option<H> {
        self.not_found
    }

    /// The patterns and the verb/handler pairs are aligned by index.
    pub open spec fn wf(&self) -> bool {
        self.patterns().len() == self.methods().len()
    }

    /// Create a new `RouterBuilder` with no route handlers.
    pub fn new() -> (r: RouterBuilder<H>)
        ensures
            r.wf(),
            r.patterns() == Seq::<Seq<char>>::empty(),
            r.methods() == Seq::<Method>::empty(),
            r.handler_seq() == Seq::<H>::empty(),
            r.fallback() is None,
    {
        let r = RouterBuilder { routes: Vec::new(), handlers: Vec::new(), not_found: None };
        proof {
            assert(r.patterns() =~= Seq::<Seq<char>>::empty());
            assert(r.methods() =~= Seq::<Method>::empty());
            assert(r.handler_seq() =~= Seq::<H>::empty());
        }
        r
    }

    /// Install a handler for requests of method `verb` whose whole path
    /// matches `route`. The pattern is anchored at both ends, so partial
    /// matches never route. There are also convenience methods named after
    /// the appropriate verb.
    pub fn route(&mut self, verb: Method, route: &str, handler: H)
        requires
            old(self).wf(),
        ensures
            final(self).wf(),
            final(self).patterns() == old(self).patterns().push(anchored(route@)),
            final(self).methods() == old(self).methods().push(verb),
            final(self).handler_seq() == old(self).handler_seq().push(handler),
            final(self).fallback() == old(self).fallback(),
    {
        let pattern = anchor(route);
        self.routes.push(pattern);
        self.handlers.push((verb, handler));
        proof {
            assert(self.patterns() =~= old(self).patterns().push(anchored(route@)));
            assert(self.methods() =~= old(self).methods().push(verb));
            assert(self.handler_seq() =~= old(self).handler_seq().push(handler));
        }
    }

    /// Convenience method to install a GET handler.
    pub fn get(&mut self, route: &str, handler: H)
        requires
            old(self).wf(),
        ensures
            final(self).wf(),
            final(self).patterns() == old(self).patterns().push(anchored(route@)),
            final(self).methods() == old(self).methods().push(Method::Get),
            final(self).handler_seq() == old(self).handler_seq().push(handler),
            final(self).fallback() == old(self).fallback(),
    {
        self.route(Method::Get, route, handler)
    }

    /// Convenience method to install a POST handler.
    pub fn post(&mut self, route: &str, handler: H)
        requires
            old(self).wf(),
        ensures
            final(self).wf(),
            final(self).patterns() == old(self).patterns().push(anchored(route@)),
            final(self).methods() == old(self).methods().push(Method::Post),
            final(self).handler_seq() == old(self).handler_seq().push(handler),
            final(self).fallback() == old(self).fallback(),
    {
        self.route(Method::Post, route, handler)
    }

    /// Convenience method to install a PUT handler.
    pub fn put(&mut self, route: &str, handler: H)
        requires
            old(self).wf(),
        ensures
            final(self).wf(),
            final(self).patterns() == old(self).patterns().push(anchored(route@)),
            final(self).methods() == old(self).methods().push(Method::Put),
            final(self).handler_seq() == old(self).handler_seq().push(handler),
            final(self).fallback() == old(self).fallback(),
    {
        self.route(Method::Put, route, handler)
    }

    /// Convenience method to install a PATCH handler.
    pub fn patch(&mut self, route: &str, handler: H)
        requires
            old(self).wf(),
        ensures
            final(self).wf(),
            final(self).patterns() == old(self).patterns().push(anchored(route@)),
            final(self).methods() == old(self).methods().push(Method::Patch),
            final(self).handler_seq() == old(self).handler_seq().push(handler),
            final(self).fallback() == old(self).fallback(),
    {
        self.route(Method::Patch, route, handler)
    }

    /// Convenience method to install a DELETE handler.
    pub fn delete(&mut self, route: &str, handler: H)
        requires
            old(self).wf(),
        ensures
            final(self).wf(),
            final(self).patterns() == old(self).patterns().push(anchored(route@)),
            final(self).methods() == old(self).methods().push(Method::Delete),
            final(self).handler_seq() == old(self).handler_seq().push(handler),
            final(self).fallback() == old(self).fallback(),
    {
        self.route(Method::Delete, route, handler)
    }

    /// Convenience method to install an OPTIONS handler.
    pub fn options(&mut self, route: &str, handler: H)
        requires
            old(self).wf(),
        ensures
            final(self).wf(),
            final(self).patterns() == old(self).patterns().push(anchored(route@)),
            final(self).methods() == old(self).methods().push(Method::Options),
            final(self).handler_seq() == old(self).handler_seq().push(handler),
            final(self).fallback() == old(self).fallback(),
    {
        self.route(Method::Options, route, handler)
    }

    /// Install a fallback handler for when there is no matching route for a
    /// request. Last write wins. If none is installed, the server code
    /// around the resulting `Router` should fall back to its default
    /// not-found response.
    pub fn not_found(&mut self, not_found: H)
        requires
            old(self).wf(),
        ensures
            final(self).wf(),
            final(self).patterns() == old(self).patterns(),
            final(self).methods() == old(self).methods(),
            final(self).handler_seq() == old(self).handler_seq(),
            final(self).fallback() == Some(not_found),
    {
        self.not_found = Some(not_found);
    }

    /// Compile the routes in a `RouterBuilder` to produce a `Router`.
    ///
    /// Every registered pattern is compiled into one combined matcher, and
    /// each individually as well (dispatch re-runs the matched pattern to
    /// extract its capture groups). Compilation fails exactly when some
    /// pattern, or the combined matcher over all of them, is rejected; a
    /// builder with zero routes always compiles, into a router on which
    /// every path falls through to the not-found outcome.
    #[verifier::loop_isolation(false)]
    pub fn finalize(self) -> (r: Result<Router<H>, Error>)
        requires
            self.wf(),
        ensures
            r is Ok <==> combined_ok(self.patterns()) && (forall|i: int|
                0 <= i < self.patterns().len() ==> pattern_ok(#[trigger] self.patterns()[i])),
            self.patterns().len() == 0 ==> r is Ok,
            r matches Ok(router) ==> {
                &&& router.patterns() == self.patterns()
                &&& router.methods() == self.methods()
                &&& router.handler_seq() == self.handler_seq()
                &&& router.fallback() == self.fallback()
            },
            r matches Err(e) ==> e is BadRegex,
    {
        let RouterBuilder { routes, handlers, not_found } = self;
        let combined = match compile_combined(&routes) {
            Ok(set) => set,
            Err(e) => {
                return Err(Error::BadRegex(e));
            },
        };
        let mut compiled: Vec<Regex> = Vec::new();
        let mut i: usize = 0;
        while i < routes.len()
            invariant
                i <= routes@.len(),
                compiled@.len() == i,
                forall|m: int|
                    0 <= m < i ==> source_of(#[trigger] compiled@[m]) == routes.deep_view()[m]
                        && pattern_ok(routes.deep_view()[m]),
            decreases routes@.len() - i,
        {
            match compile_pattern(routes[i].as_str()) {
                Ok(re) => compiled.push(re),
                Err(e) => {
                    proof {
                        assert(self.patterns()[i as int] == routes@[i as int]@);
                    }
                    return Err(Error::BadRegex(e));
                },
            }
            i += 1;
        }
        proof {
            assert(compiled@.map_values(|re: Regex| source_of(re)) =~= routes.deep_view());
        }
        let router = Router { routes: combined, compiled, handlers, not_found };
        proof {
            assert(router.methods() =~= self.methods());
            assert(router.handler_seq() =~= self.handler_seq());
        }
        Ok(router)
    }
}

/// The `Router` contains the information for an app to route requests
/// properly based on their HTTP method and matching path pattern.
///
/// Under the hood a `Router` owns a combined matcher over all registered
/// patterns, so one query reports every pattern that matches a path; the
/// first-registered match whose verb fits is the route that runs, and its
/// own compiled pattern is then re-run to extract the capture groups. The
/// three route-indexed parts — combined matcher, per-route compiled
/// patterns, and verb/handler pairs — stay aligned by index.
pub struct Router<H> {
    routes: RegexSet,
    compiled: Vec<Regex>,
    handlers: Vec<(Method, H)>,
    not_found: Option<H>,
}

/// Where `dispatch` sent a request: to the handler of the route at a given
/// registration index, to the not-found fallback, or to the built-in
/// method-not-allowed outcome (some pattern matched the path, but none with
/// the request's verb).
#[derive(Clone, Copy, Debug, PartialEq, Eq, Structural)]
pub enum Target {
    Route(usize),
    NotFound,
    MethodNotAllowed,
}

/// The decision `dispatch` makes for one request: which handler runs, and
/// with which captures.
pub struct Dispatch {
    pub target: Target,
    pub captures: Captures,
}

impl<H> Router<H> {
    /// The anchored pattern sources the router was compiled from, in
    /// registration order.
    pub closed spec fn patterns(&self) -> Seq<Seq<char>> {
        sources_of(self.routes)
    }

    /// The registered verbs, aligned by index with `patterns()`.
    pub closed spec fn methods(&self) -> Seq<Method> {
        self.handlers@.map_values(|p: (Method, H)| p.0)
    }

    /// The registered handlers, aligned by index with `patterns()`.
    pub closed spec fn handler_seq(&self) -> Seq<H> {
        self.handlers@.map_values(|p: (Method, H)| p.1)
    }

    /// The fallback handler, if one was installed on the builder.
    pub closed spec fn fallback(&self) -> Option<H> {
        self.not_found
    }

    #[verifier::type_invariant]
    spec fn aligned(self) -> bool {
        &&& self.compiled@.map_values(|re: Regex| source_of(re)) == sources_of(self.routes)
        &&& self.compiled@.len() == self.handlers@.len()
    }

    /// The number of registered routes.
    pub fn route_count(&self) -> (n: usize)
        ensures
            n == self.patterns().len(),
    {
        proof {
            use_type_invariant(self);
        }
        self.compiled.len()
    }

    /// The handler registered at `index`.
    pub fn handler(&self, index: usize) -> (h: &H)
        requires
            index < self.patterns().len(),
        ensures
            h == self.handler_seq()[index as int],
    {
        proof {
            use_type_invariant(self);
        }
        &self.handlers[index].1
    }

    /// The fallback handler, if one was installed on the builder.
    pub fn not_found_handler(&self) -> (h: &Option<H>)
        ensures
            h == self.fallback(),
    {
        &self.not_found
    }
}

/// True when the pattern registered at index `i` matches the path.
pub open spec fn route_matches(pats: Seq<Seq<char>>, path: Seq<char>, i: int) -> bool {
    0 <= i < pats.len() && pattern_matches(pats[i], path)
}

/// Some registered pattern matches the path, whatever its verb.
pub open spec fn any_match(pats: Seq<Seq<char>>, path: Seq<char>) -> bool {
    exists|i: int| route_matches(pats, path, i)
}

/// Some registered pattern matches the path with the request's verb.
pub open spec fn any_verb_match(
    pats: Seq<Seq<char>>,
    methods: Seq<Method>,
    verb: Method,
    path: Seq<char>,
) -> bool {
    exists|i: int| #[trigger] route_matches(pats, path, i) && methods[i] == verb
}

/// Route `i` is the first-registered route whose pattern matches the path
/// and whose verb is the request's: the documented tie-break among
/// overlapping patterns.
pub open spec fn is_first_verb_match(
    pats: Seq<Seq<char>>,
    methods: Seq<Method>,
    verb: Method,
    path: Seq<char>,
    i: int,
) -> bool {
    &&& route_matches(pats, path, i)
    &&& methods[i] == verb
    &&& forall|j: int|
        0 <= j < i ==> !(#[trigger] route_matches(pats, path, j) && methods[j] == verb)
}

/// The `Some` entries of a capture-group sequence, in order.
pub open spec fn present_texts(groups: Seq<Option<Seq<char>>>) -> Seq<Seq<char>>
    decreases groups.len(),
{
    if groups.len() == 0 {
        Seq::empty()
    } else {
        match groups.first() {
            Some(t) => seq![t] + present_texts(groups.drop_first()),
            None => present_texts(groups.drop_first()),
        }
    }
}

/// What the matched route's handler is given: the capture groups of
/// re-applying the route's own pattern to the path, the full match first,
/// keeping exactly the groups that participated; `None` when the pattern
/// does not match the path, or when no capturing group beyond the full
/// match produced a result.
pub open spec fn captures_spec(pat: Seq<char>, path: Seq<char>) -> Option<Seq<Seq<char>>> {
    if pattern_matches(pat, path) {
        let groups = match_groups(pat, path);
        if present_texts(groups.drop_first()).len() > 0 {
            Some(present_texts(groups))
        } else {
            None
        }
    } else {
        None
    }
}

impl<H> Router<H> {
    /// Decide, for one inbound request, which handler runs: the
    /// first-registered route whose pattern matches the whole path and
    /// whose verb is the request's, together with that route's captures;
    /// the not-found fallback when no pattern matches at all; and the
    /// method-not-allowed outcome when some pattern matches the path but
    /// none of the matching routes carries the request's verb. Exactly one
    /// of the three happens, and only a routed request carries captures.
    #[verifier::loop_isolation(false)]
    pub fn dispatch(&self, verb: Method, path: &str) -> (r: Dispatch)
        ensures
            r.target is NotFound <==> !any_match(self.patterns(), path@),
            r.target is MethodNotAllowed <==> any_match(self.patterns(), path@)
                && !any_verb_match(self.patterns(), self.methods(), verb, path@),
            r.target is Route <==> any_verb_match(self.patterns(), self.methods(), verb, path@),
            r.target matches Target::Route(i) ==> is_first_verb_match(
                self.patterns(),
                self.methods(),
                verb,
                path@,
                i as int,
            ) && r.captures.deep_view() == captures_spec(self.patterns()[i as int], path@),
            !(r.target is Route) ==> r.captures is None,
    {
        proof {
            use_type_invariant(self);
        }
        let candidates = matched_indices(&self.routes, path);
        if candidates.len() == 0 {
            proof {
                assert(!any_match(self.patterns(), path@)) by {
                    if any_match(self.patterns(), path@) {
                        let i = choose|i: int| route_matches(self.patterns(), path@, i);
                        assert(pattern_matches(sources_of(self.routes)[i], path@));
                    }
                };
            }
            return Dispatch { target: Target::NotFound, captures: None };
        }
        let mut k: usize = 0;
        while k < candidates.len()
            invariant
                k <= candidates@.len(),
                forall|m: int|
                    0 <= m < k ==> self.methods()[#[trigger] candidates@[m] as int] != verb,
            decreases candidates@.len() - k,
        {
            let i = candidates[k];
            let m = self.handlers[i].0;
            if m == verb {
                proof {
                    assert(self.methods()[i as int] == verb);
                    assert(route_matches(self.patterns(), path@, i as int));
                    assert forall|j: int|
                        0 <= j < i as int implies !(#[trigger] route_matches(
                        self.patterns(),
                        path@,
                        j,
                    ) && self.methods()[j] == verb) by {
                        if route_matches(self.patterns(), path@, j) && self.methods()[j] == verb {
                            assert(pattern_matches(sources_of(self.routes)[j], path@));
                            let m0 = choose|m0: int|
                                0 <= m0 < candidates@.len() && candidates@[m0] == j;
                            if m0 < k as int {
                                assert(self.methods()[candidates@[m0] as int] != verb);
                            } else {
                                assert(candidates@[k as int] <= candidates@[m0]);
                            }
                        }
                    };
                    assert(is_first_verb_match(
                        self.patterns(),
                        self.methods(),
                        verb,
                        path@,
                        i as int,
                    ));
                    assert(source_of(self.compiled@[i as int]) == self.patterns()[i as int]);
                }
                let captures = get_captures(&self.compiled[i], path);
                return Dispatch { target: Target::Route(i), captures };
            }
            k += 1;
        }
        proof {
            assert(route_matches(self.patterns(), path@, candidates@[0] as int));
            assert(!any_verb_match(self.patterns(), self.methods(), verb, path@)) by {
                if any_verb_match(self.patterns(), self.methods(), verb, path@) {
                    let i = choose|i: int|
                        #[trigger] route_matches(self.patterns(), path@, i) && self.methods()[i]
                            == verb;
                    assert(pattern_matches(sources_of(self.routes)[i], path@));
                    let m0 = choose|m0: int| 0 <= m0 < candidates@.len() && candidates@[m0] == i;
                    assert(self.methods()[candidates@[m0] as int] != verb);
                }
            };
        }
        Dispatch { target: Target::MethodNotAllowed, captures: None }
    }
}

/// Re-run a matched route's own compiled pattern against the path and
/// collect the texts of the capture groups that participated.
#[verifier::loop_isolation(false)]
fn get_captures(re: &Regex, path: &str) -> (r: Captures)
    ensures
        r.deep_view() == captures_spec(source_of(*re), path@),
{
    match capture_texts(re, path) {
        None => None,
        Some(groups) => {
            let ghost all = groups.deep_view();
            let mut texts: Vec<String> = Vec::new();
            let mut i: usize = 0;
            proof {
                assert(all.skip(0) =~= all);
                assert(texts.deep_view() + present_texts(all) =~= present_texts(all));
            }
            while i < groups.len()
                invariant
                    i <= groups@.len(),
                    texts.deep_view() + present_texts(all.skip(i as int)) == present_texts(all),
                decreases groups@.len() - i,
            {
                let ghost texts_before = texts.deep_view();
                let ghost rest = all.skip(i as int);
                proof {
                    assert(rest.len() > 0);
                    assert(rest.first() == all[i as int]);
                    assert(rest.drop_first() =~= all.skip(i as int + 1));
                }
                match &groups[i] {
                    Some(t) => {
                        texts.push(t.clone());
                        proof {
                            assert(texts.deep_view() =~= texts_before.push(all[i as int]->Some_0));
                            assert(texts.deep_view() + present_texts(all.skip(i as int + 1))
                                =~= texts_before + present_texts(rest));
                        }
                    },
                    None => {},
                }
                i += 1;
            }
            proof {
                assert(all.skip(groups@.len() as int) =~= Seq::<Option<Seq<char>>>::empty());
                assert(texts.deep_view() + present_texts(Seq::<Option<Seq<char>>>::empty())
                    =~= texts.deep_view());
                assert(all.drop_first() =~= all.skip(1));
                assert(all.first() is Some);
                assert(present_texts(all) == seq![all.first()->Some_0] + present_texts(
                    all.drop_first(),
                ));
                assert(texts.deep_view().len() == 1 + present_texts(all.drop_first()).len());
            }
            if texts.len() >= 2 {
                Some(texts)
            } else {
                None
            }
        },
    }
}

/// Law: with zero routes no path has a match, so on a router compiled from
/// an empty builder — which `finalize` always accepts — `dispatch` reports
/// the not-found outcome for every request.
pub proof fn lemma_no_routes_never_match(pats: Seq<Seq<char>>, path: Seq<char>)
    requires
        pats.len() == 0,
    ensures
        !any_match(pats, path),
{
}

/// Law: the route `dispatch` picks is determined: two indices that are each
/// the first-registered verb-matching route for the same request are equal.
pub proof fn lemma_first_verb_match_unique(
    pats: Seq<Seq<char>>,
    methods: Seq<Method>,
    verb: Method,
    path: Seq<char>,
    i: int,
    j: int,
)
    requires
        is_first_verb_match(pats, methods, verb, path, i),
        is_first_verb_match(pats, methods, verb, path, j),
    ensures
        i == j,
{
    if i < j {
        assert(route_matches(pats, path, i) && methods[i] == verb);
    }
    if j < i {
        assert(route_matches(pats, path, j) && methods[j] == verb);
    }
}

} // verus!
