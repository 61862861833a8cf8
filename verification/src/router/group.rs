use super::route::{Route, RouteError};
use super::pattern::{regex_compiles, regex_source, regex_text};
use crate::http::HttpMethod;
use crate::middleware::Middleware;
use vstd::prelude::*;
use vstd::string::*;

verus! {

/// Routes and middleware that stand under one path prefix. A group hangs
/// directly on the router and holds no groups of its own.
pub struct RouterGroup<H, M> {
    pub(crate) prefix: String,
    pub(crate) routes: Vec<Route<H>>,
    pub(crate) middlewares: Vec<Middleware<M>>,
}

impl<H, M> RouterGroup<H, M> {
    /// The prefix that a request's path begins with where the group applies.
    pub open(crate) spec fn prefix(&self) -> Seq<char> {
        self.prefix@
    }

    /// The group's routes in registration order.
    pub open(crate) spec fn routes(&self) -> Seq<Route<H>> {
        self.routes@
    }

    /// The group's middleware in registration order.
    pub open(crate) spec fn middlewares(&self) -> Seq<Middleware<M>> {
        self.middlewares@
    }

    /// Whether the group applies to a path: a plain prefix test.
    pub open spec fn applies_to(&self, path: Seq<char>) -> bool {
        self.prefix().is_prefix_of(path)
    }

    /// An empty group under `prefix`.
    pub fn new(prefix: &str) -> (group: RouterGroup<H, M>)
        ensures
            group.prefix() == prefix@,
            group.routes() == Seq::<Route<H>>::empty(),
            group.middlewares() == Seq::<Middleware<M>>::empty(),
    {
        RouterGroup { prefix: prefix.to_owned(), routes: Vec::new(), middlewares: Vec::new() }
    }

    /// Registers a route under the group. Its template is the group's prefix
    /// followed by `pattern`. The route is added where the regex crate
    /// accepts the template's expression. Where the expression is refused,
    /// the group stays as it was.
    pub fn add_route(&mut self, method: HttpMethod, pattern: &str, handler: H) -> (done: Result<
        (),
        RouteError,
    >)
        ensures
            done is Ok <==> regex_compiles(regex_text(old(self).prefix() + pattern@)),
            final(self).prefix() == old(self).prefix(),
            final(self).middlewares() == old(self).middlewares(),
            match done {
                Ok(()) => {
                    &&& final(self).routes().len() == old(self).routes().len() + 1
                    &&& final(self).routes().drop_last() == old(self).routes()
                    &&& final(self).routes().last().method == method
                    &&& final(self).routes().last().handler == handler
                    &&& regex_source(final(self).routes().last().pattern) == regex_text(
                        old(self).prefix() + pattern@,
                    )
                },
                Err(RouteError::InvalidPattern { text }) => {
                    &&& final(self).routes() == old(self).routes()
                    &&& text@ == regex_text(old(self).prefix() + pattern@)
                },
                Err(RouteError::NestedGroup) => false,
            },
    {
        let mut full = self.prefix.clone();
        full.append(pattern);
        match Route::compile(method, full.as_str(), handler) {
            Ok(route) => {
                self.routes.push(route);
                assert(self.routes@.drop_last() =~= old(self).routes@);
                Ok(())
            },
            Err(e) => Err(e),
        }
    }

    /// Registers a middleware step after those that the group has.
    pub fn add_middleware(&mut self, middleware: M)
        ensures
            final(self).prefix() == old(self).prefix(),
            final(self).routes() == old(self).routes(),
            final(self).middlewares() == old(self).middlewares().push(
                Middleware { function: middleware },
            ),
    {
        self.middlewares.push(Middleware::new(middleware));
    }

    /// Refuses a group inside the group: the answer is always
    /// `RouteError::NestedGroup`, and the group stays as it was.
    pub fn group(&mut self, prefix: &str) -> (refused: Result<(), RouteError>)
        ensures
            refused == Err::<(), RouteError>(RouteError::NestedGroup),
            *final(self) == *old(self),
    {
        Err(RouteError::NestedGroup)
    }
}

} // verus!
