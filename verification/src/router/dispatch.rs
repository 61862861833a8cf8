//! Dispatch as a state machine. The router decides; whoever drives it runs
//! the middleware and the handler that the router names and reports what
//! they returned.

use super::route::{first_match, match_route};
use super::Router;
use crate::http::{
    default_headers, plain, Request, RequestModel, RequestTrait, Response, ResponseModel,
    ResponseTrait,
};
use crate::text::{starts_with, to_chars};
use vstd::prelude::*;

verus! {

/// The status of the response to a request that no route takes.
pub const STATUS_NOT_FOUND: u16 = 404;

/// The response to a request that no route takes.
pub open spec fn not_found() -> ResponseModel {
    ResponseModel { status: STATUS_NOT_FOUND, ..plain("404 Not Found"@) }
}

/// The place of a middleware step: among the global ones, or in a group.
#[derive(Debug, Clone, Copy, PartialEq, Eq, Structural)]
pub enum MiddlewareSite {
    /// The global step at this position.
    Global(usize),
    /// In the group at the first position, the step at the second.
    Group(usize, usize),
}

/// The place of a route: at top level, or in a group.
#[derive(Debug, Clone, Copy, PartialEq, Eq, Structural)]
pub enum RouteSite {
    /// The top-level route at this position.
    Top(usize),
    /// In the group at the first position, the route at the second.
    Group(usize, usize),
}

/// How far dispatch has come.
pub enum Stage {
    /// Before the global middleware step at this position.
    Global(nat),
    /// Looking for a group that applies, from this position on.
    Scan(nat),
    /// In the group at the first position, before its middleware step at
    /// the second.
    Group(nat, nat),
}

/// A stage as the router walks it.
#[derive(Clone, Copy)]
enum Cursor {
    Global(usize),
    Scan(usize),
    Group(usize, usize),
}

impl Cursor {
    spec fn stage(&self) -> Stage {
        match *self {
            Cursor::Global(i) => Stage::Global(i as nat),
            Cursor::Scan(g) => Stage::Scan(g as nat),
            Cursor::Group(g, j) => Stage::Group(g as nat, j as nat),
        }
    }
}

impl MiddlewareSite {
    /// The stage that follows a step that let the request pass.
    pub open spec fn next_stage(self) -> Stage {
        match self {
            MiddlewareSite::Global(i) => Stage::Global((i + 1) as nat),
            MiddlewareSite::Group(g, j) => Stage::Group(g as nat, (j + 1) as nat),
        }
    }
}

/// What the driver does next.
pub enum Step {
    /// Run the middleware step at `site` on `request`, then call `resume`
    /// with what it returned.
    Middleware { site: MiddlewareSite, request: Request },
    /// Run the handler of the route at `route` on `request`. Its response is
    /// the response to the request.
    Handler { route: RouteSite, request: Request },
    /// Dispatch is over with this response.
    Done(Response),
}

/// What a step stands for.
pub enum StepModel {
    Middleware { site: MiddlewareSite, request: RequestModel },
    Handler { route: RouteSite, request: RequestModel },
    Done(ResponseModel),
}

impl View for Step {
    type V = StepModel;

    open spec fn view(&self) -> StepModel {
        match *self {
            Step::Middleware { site, request } => StepModel::Middleware { site, request: request@ },
            Step::Handler { route, request } => StepModel::Handler { route, request: request@ },
            Step::Done(response) => StepModel::Done(response@),
        }
    }
}

impl<H, M> Router<H, M> {
    /// Whether a middleware step stands at `site`.
    pub open spec fn has_middleware(&self, site: MiddlewareSite) -> bool {
        match site {
            MiddlewareSite::Global(i) => i < self.middlewares().len(),
            MiddlewareSite::Group(g, j) => g < self.groups().len() && j
                < self.groups()[g as int].middlewares().len(),
        }
    }

    /// The middleware function at `site`.
    pub open spec fn middleware(&self, site: MiddlewareSite) -> M {
        match site {
            MiddlewareSite::Global(i) => self.middlewares()[i as int].function,
            MiddlewareSite::Group(g, j) => self.groups()[g as int].middlewares()[j as int].function,
        }
    }

    /// Whether a route stands at `site`.
    pub open spec fn has_route(&self, site: RouteSite) -> bool {
        match site {
            RouteSite::Top(k) => k < self.routes().len(),
            RouteSite::Group(g, k) => g < self.groups().len() && k
                < self.groups()[g as int].routes().len(),
        }
    }

    /// The handler of the route at `site`.
    pub open spec fn handler(&self, site: RouteSite) -> H {
        match site {
            RouteSite::Top(k) => self.routes()[k as int].handler,
            RouteSite::Group(g, k) => self.groups()[g as int].routes()[k as int].handler,
        }
    }

    /// The step for a request that has passed all middleware and all groups:
    /// the first top-level route that takes it, with the parameters that the
    /// route captures in place of the request's own, else the 404 response.
    pub open spec fn top_level_step(&self, request: RequestModel) -> StepModel {
        match first_match(self.routes(), request.method, request.path, 0) {
            Some(k) => StepModel::Handler {
                route: RouteSite::Top(k as usize),
                request: request.with_params(self.routes()[k].params(request.path)),
            },
            None => StepModel::Done(not_found()),
        }
    }

    /// A measure that falls from each stage to the stages that can follow
    /// it without a middleware step in between.
    pub open spec fn stage_rank(&self, stage: Stage) -> nat {
        let groups = self.groups().len();
        match stage {
            Stage::Global(_) => 2 * groups + 2,
            Stage::Scan(g) => if g < groups {
                (2 * (groups - g) + 1) as nat
            } else {
                0
            },
            Stage::Group(g, _) => if g < groups {
                (2 * (groups - g)) as nat
            } else {
                0
            },
        }
    }

    /// The next step for `request` at `stage`.
    ///
    /// Global middleware comes first, in registration order. Then the groups
    /// are tried in registration order: a group whose prefix the path begins
    /// with runs its middleware in order and then offers its routes, and
    /// the first of them that takes the request handles it. Where none does,
    /// the groups after it are tried. After the last group the top-level
    /// routes are offered, and a request that none of them takes is answered
    /// with 404.
    pub open spec fn plan(&self, stage: Stage, request: RequestModel) -> StepModel
        decreases self.stage_rank(stage),
    {
        match stage {
            Stage::Global(i) => if i < self.middlewares().len() {
                StepModel::Middleware { site: MiddlewareSite::Global(i as usize), request }
            } else {
                self.plan(Stage::Scan(0), request)
            },
            Stage::Scan(g) => if g < self.groups().len() {
                if self.groups()[g as int].applies_to(request.path) {
                    self.plan(Stage::Group(g, 0), request)
                } else {
                    self.plan(Stage::Scan(g + 1), request)
                }
            } else {
                self.top_level_step(request)
            },
            Stage::Group(g, j) => if g < self.groups().len() {
                let group = self.groups()[g as int];
                if j < group.middlewares().len() {
                    StepModel::Middleware {
                        site: MiddlewareSite::Group(g as usize, j as usize),
                        request,
                    }
                } else {
                    match first_match(group.routes(), request.method, request.path, 0) {
                        Some(k) => StepModel::Handler {
                            route: RouteSite::Group(g as usize, k as usize),
                            request: request.with_params(group.routes()[k].params(request.path)),
                        },
                        None => self.plan(Stage::Scan(g + 1), request),
                    }
                }
            } else {
                self.top_level_step(request)
            },
        }
    }

    /// The middleware function at `site`, where one stands there.
    pub fn middleware_at(&self, site: MiddlewareSite) -> (found: Option<&M>)
        ensures
            match found {
                Some(function) => self.has_middleware(site) && *function == self.middleware(site),
                None => !self.has_middleware(site),
            },
    {
        match site {
            MiddlewareSite::Global(i) => if i < self.middlewares.len() {
                Some(&self.middlewares[i].function)
            } else {
                None
            },
            MiddlewareSite::Group(g, j) => if g < self.groups.len() && j
                < self.groups[g].middlewares.len() {
                Some(&self.groups[g].middlewares[j].function)
            } else {
                None
            },
        }
    }

    /// The handler of the route at `site`, where one stands there.
    pub fn handler_at(&self, site: RouteSite) -> (found: Option<&H>)
        ensures
            match found {
                Some(handler) => self.has_route(site) && *handler == self.handler(site),
                None => !self.has_route(site),
            },
    {
        match site {
            RouteSite::Top(k) => if k < self.routes.len() {
                Some(&self.routes[k].handler)
            } else {
                None
            },
            RouteSite::Group(g, k) => if g < self.groups.len() && k < self.groups[g].routes.len() {
                Some(&self.groups[g].routes[k].handler)
            } else {
                None
            },
        }
    }

    /// The response to a request that no route takes.
    pub fn not_found_response() -> (response: Response)
        ensures
            response@ == not_found(),
            response.header_entries() == default_headers(),
    {
        let mut response = Response::new("404 Not Found");
        response.set_status(STATUS_NOT_FOUND);
        response
    }

    /// Walks from `cursor` to the next step for `request`.
    fn advance(&self, cursor: Cursor, request: Request) -> (step: Step)
        ensures
            step@ == self.plan(cursor.stage(), request@),
            step matches Step::Middleware { request: passed, .. } ==> passed == request,
            step matches Step::Done(response) ==> response.header_entries() == default_headers(),
    {
        let path = to_chars(request.path());
        let mut at = cursor;
        loop
            invariant
                path@ == request@.path,
                self.plan(at.stage(), request@) == self.plan(cursor.stage(), request@),
            decreases self.stage_rank(at.stage()),
        {
            match at {
                Cursor::Global(i) => {
                    if i < self.middlewares.len() {
                        return Step::Middleware { site: MiddlewareSite::Global(i), request };
                    }
                    at = Cursor::Scan(0);
                },
                Cursor::Scan(g) => {
                    if g >= self.groups.len() {
                        return self.top_level(request);
                    }
                    let prefix = to_chars(self.groups[g].prefix.as_str());
                    if starts_with(&path, &prefix) {
                        at = Cursor::Group(g, 0);
                    } else {
                        at = Cursor::Scan(g + 1);
                    }
                },
                Cursor::Group(g, j) => {
                    if g >= self.groups.len() {
                        return self.top_level(request);
                    }
                    if j < self.groups[g].middlewares.len() {
                        return Step::Middleware { site: MiddlewareSite::Group(g, j), request };
                    }
                    match match_route(&self.groups[g].routes, &request) {
                        Some((k, params)) => {
                            let mut request = request;
                            request.set_params(params);
                            return Step::Handler { route: RouteSite::Group(g, k), request };
                        },
                        None => {
                            at = Cursor::Scan(g + 1);
                        },
                    }
                },
            }
        }
    }

    /// The step for a request that has passed all middleware and groups.
    fn top_level(&self, request: Request) -> (step: Step)
        ensures
            step@ == self.top_level_step(request@),
            step matches Step::Done(response) ==> response.header_entries() == default_headers(),
    {
        match match_route(&self.routes, &request) {
            Some((k, params)) => {
                let mut request = request;
                request.set_params(params);
                Step::Handler { route: RouteSite::Top(k), request }
            },
            None => Step::Done(Self::not_found_response()),
        }
    }

    /// Starts dispatch: the first step for `request`. A middleware step gets
    /// the request as it is, and a response that ends dispatch here is the
    /// router's own 404 with its default header.
    pub fn begin(&self, request: Request) -> (step: Step)
        ensures
            step@ == self.plan(Stage::Global(0), request@),
            step matches Step::Middleware { request: passed, .. } ==> passed == request,
            step matches Step::Done(response) ==> response.header_entries() == default_headers(),
    {
        self.advance(Cursor::Global(0), request)
    }

    /// Goes on after the middleware step at `site` returned `outcome`. A
    /// response ends dispatch there: no later middleware, group or route
    /// is consulted. A request goes on to the stage after `site`.
    pub fn resume(&self, site: MiddlewareSite, outcome: Result<Request, Response>) -> (step: Step)
        ensures
            match outcome {
                Ok(request) => {
                    &&& step@ == self.plan(site.next_stage(), request@)
                    &&& step matches Step::Middleware { request: passed, .. } ==> passed == request
                    &&& step matches Step::Done(response) ==> response.header_entries()
                        == default_headers()
                },
                Err(response) => step == Step::Done(response),
            },
    {
        match outcome {
            Ok(request) => {
                let next = match site {
                    MiddlewareSite::Global(i) => if i < self.middlewares.len() {
                        Cursor::Global(i + 1)
                    } else {
                        Cursor::Scan(0)
                    },
                    MiddlewareSite::Group(g, j) => if g < self.groups.len() && j
                        < self.groups[g].middlewares.len() {
                        Cursor::Group(g, j + 1)
                    } else {
                        Cursor::Group(g, j)
                    },
                };
                self.advance(next, request)
            },
            Err(response) => Step::Done(response),
        }
    }
}

} // verus!
