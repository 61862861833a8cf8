//! Routes, groups of routes under a prefix, and the router that walks
//! middleware, groups and routes to find the response to a request.

mod dispatch;
mod group;
mod laws;
mod pattern;
mod route;
mod serve;

pub use dispatch::{
    not_found, MiddlewareSite, RouteSite, Stage, Step, StepModel, STATUS_NOT_FOUND,
};
pub use group::RouterGroup;
pub use laws::{lemma_first_match_wins, outcomes_agree};
pub use pattern::{
    capture_map, captures_upto, collect_params, create_regex_pattern, escaped,
    is_meta_character, lemma_regex_text_is_anchored, regex_captures, regex_compiles, regex_group_names,
    regex_source, regex_text, segment_regex, segments_regex, texts,
};
pub use route::{first_match, lemma_first_match, match_route, Route, RouteError};

use crate::http::HttpMethod;
use crate::middleware::Middleware;
use vstd::prelude::*;

verus! {

/// The routing table: global middleware, groups and top-level routes, each
/// in registration order. It is filled before the first request and only
/// read afterwards.
pub struct Router<H, M> {
    pub(crate) routes: Vec<Route<H>>,
    pub(crate) groups: Vec<RouterGroup<H, M>>,
    pub(crate) middlewares: Vec<Middleware<M>>,
}

impl<H, M> Router<H, M> {
    /// The top-level routes in registration order.
    pub open(crate) spec fn routes(&self) -> Seq<Route<H>> {
        self.routes@
    }

    /// The groups in registration order.
    pub open(crate) spec fn groups(&self) -> Seq<RouterGroup<H, M>> {
        self.groups@
    }

    /// The global middleware in registration order.
    pub open(crate) spec fn middlewares(&self) -> Seq<Middleware<M>> {
        self.middlewares@
    }

    /// Positions in the router's tables fit in a `usize`.
    pub proof fn lemma_sizes(&self)
        ensures
            self.routes().len() <= usize::MAX,
            self.middlewares().len() <= usize::MAX,
            self.groups().len() <= usize::MAX,
            forall|g: int|
                0 <= g < self.groups().len() ==> {
                    &&& (#[trigger] self.groups()[g]).routes().len() <= usize::MAX
                    &&& self.groups()[g].middlewares().len() <= usize::MAX
                },
    {
        assert(self.routes.len() == self.routes@.len());
        assert(self.middlewares.len() == self.middlewares@.len());
        assert(self.groups.len() == self.groups@.len());
        assert forall|g: int| 0 <= g < self.groups().len() implies {
            &&& (#[trigger] self.groups()[g]).routes().len() <= usize::MAX
            &&& self.groups()[g].middlewares().len() <= usize::MAX
        } by {
            let group = self.groups@[g];
            assert(group.routes.len() == group.routes@.len());
            assert(group.middlewares.len() == group.middlewares@.len());
        }
    }

    /// A router with no route, group or middleware.
    pub fn new() -> (router: Router<H, M>)
        ensures
            router.routes() == Seq::<Route<H>>::empty(),
            router.groups() == Seq::<RouterGroup<H, M>>::empty(),
            router.middlewares() == Seq::<Middleware<M>>::empty(),
    {
        Router { routes: Vec::new(), groups: Vec::new(), middlewares: Vec::new() }
    }

    /// The number of top-level routes.
    pub fn route_count(&self) -> (n: usize)
        ensures
            n == self.routes().len(),
    {
        self.routes.len()
    }

    /// Registers a top-level route after those that the router has. The
    /// route is added where the regex crate accepts the template's
    /// expression, also where the same method and template are registered
    /// already. Where the expression is refused, the router stays as it
    /// was.
    pub fn add_route(&mut self, method: HttpMethod, pattern: &str, handler: H) -> (done: Result<
        (),
        RouteError,
    >)
        ensures
            done is Ok <==> regex_compiles(regex_text(pattern@)),
            final(self).groups() == old(self).groups(),
            final(self).middlewares() == old(self).middlewares(),
            match done {
                Ok(()) => {
                    &&& final(self).routes().len() == old(self).routes().len() + 1
                    &&& final(self).routes().drop_last() == old(self).routes()
                    &&& final(self).routes().last().method == method
                    &&& final(self).routes().last().handler == handler
                    &&& regex_source(final(self).routes().last().pattern) == regex_text(pattern@)
                },
                Err(RouteError::InvalidPattern { text }) => {
                    &&& final(self).routes() == old(self).routes()
                    &&& text@ == regex_text(pattern@)
                },
                Err(RouteError::NestedGroup) => false,
            },
    {
        match Route::compile(method, pattern, handler) {
            Ok(route) => {
                self.routes.push(route);
                assert(self.routes@.drop_last() =~= old(self).routes@);
                Ok(())
            },
            Err(e) => Err(e),
        }
    }

    /// Registers a global middleware step after those that the router has.
    pub fn add_middleware(&mut self, middleware: M)
        ensures
            final(self).routes() == old(self).routes(),
            final(self).groups() == old(self).groups(),
            final(self).middlewares() == old(self).middlewares().push(
                Middleware { function: middleware },
            ),
    {
        self.middlewares.push(Middleware::new(middleware));
    }

    /// Adds an empty group under `prefix` after the groups that the router
    /// has, and hands it out to be filled.
    pub fn group(&mut self, prefix: &str) -> (group: &mut RouterGroup<H, M>)
        ensures
            group.prefix() == prefix@,
            group.routes() == Seq::<Route<H>>::empty(),
            group.middlewares() == Seq::<Middleware<M>>::empty(),
            final(self).routes() == old(self).routes(),
            final(self).middlewares() == old(self).middlewares(),
            final(self).groups() == old(self).groups().push(*final(group)),
    {
        self.groups.push(RouterGroup::new(prefix));
        let n = self.groups.len();
        &mut self.groups[n - 1]
    }
}

} // verus!
