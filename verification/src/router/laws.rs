//! What holds of every dispatch.

use super::dispatch::{not_found, MiddlewareSite, RouteSite, Stage, StepModel};
use super::route::{first_match, lemma_first_match, Route};
use super::Router;
use crate::http::{HttpMethod, Request, RequestModel, Response};
use crate::text::occurs_at;
use vstd::prelude::*;

verus! {

/// First match wins in a list of routes: a route that takes the method and
/// path, and that no route before it takes, is the one that `first_match`
/// finds.
pub proof fn lemma_first_match_wins<H>(
    routes: Seq<Route<H>>,
    method: HttpMethod,
    path: Seq<char>,
    k: int,
)
    requires
        0 <= k < routes.len(),
        routes[k].matches(method, path),
        forall|j: int| 0 <= j < k ==> !(#[trigger] routes[j]).matches(method, path),
    ensures
        first_match(routes, method, path, 0) == Some(k),
{
    lemma_first_match(routes, method, path, 0);
}

impl<H, M> Router<H, M> {
    /// No group applies to a path.
    pub open spec fn no_group_applies(&self, path: Seq<char>) -> bool {
        forall|g: int| 0 <= g < self.groups().len() ==> !(#[trigger] self.groups()[g]).applies_to(path)
    }

    /// A request that no group applies to falls through the groups to the
    /// top-level routes.
    pub proof fn lemma_falls_through_groups(&self, request: RequestModel, g: nat)
        requires
            self.no_group_applies(request.path),
        ensures
            self.plan(Stage::Scan(g), request) == self.top_level_step(request),
        decreases self.groups().len() - g,
    {
        if g < self.groups().len() {
            assert(!self.groups()[g as int].applies_to(request.path));
            self.lemma_falls_through_groups(request, g + 1);
        }
    }

    /// First match wins at top level: a request that has passed the global
    /// middleware and that no group applies to goes to the handler of the
    /// first top-level route that takes it, in registration order, with the
    /// parameters that the route's pattern captures from the path.
    pub proof fn lemma_top_level_dispatch(&self, request: RequestModel, k: int)
        requires
            0 <= k < self.routes().len(),
            self.routes()[k].matches(request.method, request.path),
            forall|j: int|
                0 <= j < k ==> !(#[trigger] self.routes()[j]).matches(request.method, request.path),
            self.no_group_applies(request.path),
        ensures
            self.plan(Stage::Scan(0), request) == (StepModel::Handler {
                route: RouteSite::Top(k as usize),
                request: request.with_params(self.routes()[k].params(request.path)),
            }),
            self.has_route(RouteSite::Top(k as usize)),
            self.handler(RouteSite::Top(k as usize)) == self.routes()[k].handler,
    {
        self.lemma_sizes();
        self.lemma_falls_through_groups(request, 0);
        lemma_first_match_wins(self.routes(), request.method, request.path, k);
    }

    /// First match wins in a group: a request that has passed the
    /// middleware of a group goes to the handler of the group's first route
    /// that takes it, with the parameters that the route's pattern captures.
    pub proof fn lemma_group_dispatch(&self, request: RequestModel, g: int, k: int)
        requires
            0 <= g < self.groups().len(),
            0 <= k < self.groups()[g].routes().len(),
            self.groups()[g].routes()[k].matches(request.method, request.path),
            forall|j: int|
                0 <= j < k ==> !(#[trigger] self.groups()[g].routes()[j]).matches(
                    request.method,
                    request.path,
                ),
        ensures
            self.plan(
                Stage::Group(g as nat, self.groups()[g].middlewares().len()),
                request,
            ) == (StepModel::Handler {
                route: RouteSite::Group(g as usize, k as usize),
                request: request.with_params(self.groups()[g].routes()[k].params(request.path)),
            }),
            self.has_route(RouteSite::Group(g as usize, k as usize)),
            self.handler(RouteSite::Group(g as usize, k as usize))
                == self.groups()[g].routes()[k].handler,
    {
        self.lemma_sizes();
        lemma_first_match_wins(self.groups()[g].routes(), request.method, request.path, k);
    }

    /// A request that no route takes and no group applies to is answered
    /// with status 404 and a body that holds `Not Found`, once it has passed
    /// the global middleware; at once where there is none.
    pub proof fn lemma_unmatched_is_not_found(&self, request: RequestModel)
        requires
            forall|k: int|
                0 <= k < self.routes().len() ==> !(#[trigger] self.routes()[k]).matches(
                    request.method,
                    request.path,
                ),
            self.no_group_applies(request.path),
        ensures
            self.plan(Stage::Scan(0), request) == StepModel::Done(not_found()),
            self.middlewares().len() == 0 ==> self.plan(Stage::Global(0), request)
                == StepModel::Done(not_found()),
            not_found().status == 404,
            occurs_at(not_found().body, "Not Found"@, 4),
    {
        self.lemma_falls_through_groups(request, 0);
        lemma_first_match(self.routes(), request.method, request.path, 0);
        reveal_strlit("404 Not Found");
        reveal_strlit("Not Found");
        assert("404 Not Found"@.subrange(4, 13) =~= "Not Found"@);
    }

}

/// Two results of a middleware step that agree: both pass on requests that
/// stand for the same, or both answer with responses that stand for the
/// same.
pub open spec fn outcomes_agree(
    first: Result<Request, Response>,
    second: Result<Request, Response>,
) -> bool {
    match (first, second) {
        (Ok(a), Ok(b)) => a@ == b@,
        (Err(a), Err(b)) => a@ == b@,
        _ => false,
    }
}

impl<H: Fn(Request) -> Response, M: Fn(Request) -> Result<Request, Response>> Router<H, M> {
    /// Every handler and every middleware step is a function of what its
    /// request stands for: on requests that stand for the same, its results
    /// stand for the same.
    pub open spec fn acts_as_function(&self) -> bool {
        &&& forall|route: RouteSite, a: Request, b: Request, x: Response, y: Response|
            self.has_route(route) && a@ == b@ && #[trigger] call_ensures(
                self.handler(route),
                (a,),
                x,
            ) && #[trigger] call_ensures(self.handler(route), (b,), y) ==> x@ == y@
        &&& forall|
            site: MiddlewareSite,
            a: Request,
            b: Request,
            x: Result<Request, Response>,
            y: Result<Request, Response>,
        |
            self.has_middleware(site) && a@ == b@ && #[trigger] call_ensures(
                self.middleware(site),
                (a,),
                x,
            ) && #[trigger] call_ensures(self.middleware(site), (b,), y) ==> outcomes_agree(x, y)
    }

    /// From any stage on, two responses to one request stand for the same,
    /// where handlers and middleware act as functions.
    pub proof fn lemma_responses_agree_from(
        &self,
        stage: Stage,
        request: RequestModel,
        first: Response,
        second: Response,
    )
        requires
            self.acts_as_function(),
            self.responds_from(stage, request, first),
            self.responds_from(stage, request, second),
        ensures
            first@ == second@,
        decreases self.stage_rank(stage), self.stage_budget(stage),
    {
        self.lemma_plan_sites(stage, request);
        match self.plan(stage, request) {
            StepModel::Done(_) => {},
            StepModel::Handler { route, request: handed } => {
                let a = choose|given: Request|
                    given@ == handed && #[trigger] call_ensures(
                        self.handler(route),
                        (given,),
                        first,
                    );
                let b = choose|given: Request|
                    given@ == handed && #[trigger] call_ensures(
                        self.handler(route),
                        (given,),
                        second,
                    );
                assert(call_ensures(self.handler(route), (a,), first));
                assert(call_ensures(self.handler(route), (b,), second));
            },
            StepModel::Middleware { site, request: handed } => {
                let (a, x) = choose|given: Request, outcome: Result<Request, Response>|
                    given@ == handed && #[trigger] call_ensures(
                        self.middleware(site),
                        (given,),
                        outcome,
                    ) && match outcome {
                        Ok(passed) => self.responds_from(site.next_stage(), passed@, first),
                        Err(answer) => answer == first,
                    };
                let (b, y) = choose|given: Request, outcome: Result<Request, Response>|
                    given@ == handed && #[trigger] call_ensures(
                        self.middleware(site),
                        (given,),
                        outcome,
                    ) && match outcome {
                        Ok(passed) => self.responds_from(site.next_stage(), passed@, second),
                        Err(answer) => answer == second,
                    };
                assert(call_ensures(self.middleware(site), (a,), x));
                assert(call_ensures(self.middleware(site), (b,), y));
                assert(outcomes_agree(x, y));
                match (x, y) {
                    (Ok(p), Ok(q)) => {
                        self.lemma_responses_agree_from(site.next_stage(), p@, first, second);
                    },
                    _ => {},
                }
            },
        }
    }

    /// Dispatch is repeatable: where handlers and middleware act as
    /// functions, the responses to two requests that stand for the same
    /// have the same status, the same body and the same headers. The router
    /// keeps nothing from one dispatch to the next.
    pub proof fn lemma_same_request_same_response(
        &self,
        first_request: Request,
        second_request: Request,
        first: Response,
        second: Response,
    )
        requires
            self.acts_as_function(),
            first_request@ == second_request@,
            self.responds(first_request@, first),
            self.responds(second_request@, second),
        ensures
            first@.status == second@.status,
            first@.body == second@.body,
            first@.headers == second@.headers,
    {
        self.lemma_responses_agree_from(Stage::Global(0), first_request@, first, second);
    }

    /// A middleware step that answers every request itself short-circuits
    /// dispatch, wherever it stands: from the stage at which it is the next
    /// step, every response of the router is a response of that step to the
    /// request. No later middleware, group or route handler has a part in
    /// it.
    pub proof fn lemma_rejection_short_circuits(
        &self,
        stage: Stage,
        site: MiddlewareSite,
        request: RequestModel,
        response: Response,
    )
        requires
            self.plan(stage, request) == (StepModel::Middleware { site, request }),
            forall|given: Request, outcome: Result<Request, Response>| #[trigger]
                call_ensures(self.middleware(site), (given,), outcome) ==> outcome is Err,
            self.responds_from(stage, request, response),
        ensures
            exists|given: Request|
                given@ == request && #[trigger] call_ensures(
                    self.middleware(site),
                    (given,),
                    Err::<Request, Response>(response),
                ),
    {
        let (given, outcome) = choose|given: Request, outcome: Result<Request, Response>|
            given@ == request && #[trigger] call_ensures(self.middleware(site), (given,), outcome)
                && match outcome {
                Ok(passed) => self.responds_from(site.next_stage(), passed@, response),
                Err(answer) => answer == response,
            };
        assert(outcome is Err);
        assert(outcome == Err::<Request, Response>(response));
    }
}

} // verus!
