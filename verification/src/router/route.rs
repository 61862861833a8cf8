use super::pattern::{
    capture_map, captures, collect_params, compile, create_regex_pattern, group_names,
    regex_captures, regex_compiles, regex_group_names, regex_source, regex_text,
};
use crate::http::{Fields, HttpMethod, Request, RequestTrait, Response};
use vstd::prelude::*;

verus! {

/// Why a route or a group could not be registered.
#[derive(Debug, PartialEq, Eq)]
pub enum RouteError {
    /// The template's regular expression did not compile. `text` is the
    /// expression.
    InvalidPattern { text: String },
    /// A group was asked for on a group: groups do not nest.
    NestedGroup,
}

impl RouteError {
    /// A sentence that says what went wrong.
    pub fn message(&self) -> (message: String)
        ensures
            message@ == match *self {
                RouteError::InvalidPattern { text } => "invalid route pattern: "@ + text@,
                RouteError::NestedGroup => "nested groups are not supported"@,
            },
    {
        match self {
            RouteError::InvalidPattern { text } => {
                let mut message = "invalid route pattern: ".to_owned();
                vstd::string::StringExecFns::append(&mut message, text.as_str());
                message
            },
            RouteError::NestedGroup => "nested groups are not supported".to_owned(),
        }
    }
}

/// A method, a compiled path pattern and the handler for the requests that
/// match both.
pub struct Route<H> {
    pub method: HttpMethod,
    pub pattern: regex::Regex,
    pub handler: H,
}

impl<H> Route<H> {
    /// A route made of its parts.
    pub fn new(method: HttpMethod, pattern: regex::Regex, handler: H) -> (route: Route<H>)
        ensures
            route.method == method,
            route.pattern == pattern,
            route.handler == handler,
    {
        Route { method, pattern, handler }
    }

    /// The route for what compiling `text` gave: the route itself where a
    /// regex came back, else the error that names `text`.
    pub fn from_compiled(
        method: HttpMethod,
        text: String,
        outcome: Result<regex::Regex, regex::Error>,
        handler: H,
    ) -> (made: Result<Route<H>, RouteError>)
        ensures
            match outcome {
                Ok(re) => made == Ok::<Route<H>, RouteError>(
                    Route { method, pattern: re, handler },
                ),
                Err(_) => made == Err::<Route<H>, RouteError>(RouteError::InvalidPattern { text }),
            },
    {
        match outcome {
            Ok(re) => Ok(Route { method, pattern: re, handler }),
            Err(_) => Err(RouteError::InvalidPattern { text }),
        }
    }

    /// Compiles `template` and makes the route for it. A route comes back
    /// where the regex crate accepts `regex_text(template)`, and its
    /// pattern was compiled from that text; where the text is refused, the
    /// error holds it.
    pub fn compile(method: HttpMethod, template: &str, handler: H) -> (made: Result<
        Route<H>,
        RouteError,
    >)
        ensures
            made is Ok <==> regex_compiles(regex_text(template@)),
            match made {
                Ok(route) => {
                    &&& route.method == method
                    &&& route.handler == handler
                    &&& regex_source(route.pattern) == regex_text(template@)
                },
                Err(RouteError::InvalidPattern { text }) => text@ == regex_text(template@),
                Err(RouteError::NestedGroup) => false,
            },
    {
        let text = create_regex_pattern(template);
        let outcome = compile(text.as_str());
        Route::from_compiled(method, text, outcome, handler)
    }

    /// A route takes a request whose method is the route's and whose path
    /// its pattern matches.
    pub open spec fn matches(&self, method: HttpMethod, path: Seq<char>) -> bool {
        self.method == method && regex_captures(self.pattern, path) is Some
    }

    /// The parameters that the route's pattern captures from a path it
    /// matches.
    pub open spec fn params(&self, path: Seq<char>) -> Map<Seq<char>, Seq<char>> {
        capture_map(regex_group_names(self.pattern), regex_captures(self.pattern, path).unwrap())
    }

    /// Tries the route on `request` and gives the captured parameters where
    /// it matches.
    pub fn try_match(&self, request: &Request) -> (found: Option<Fields>)
        ensures
            match found {
                Some(params) => self.matches(request@.method, request@.path) && params@
                    == self.params(request@.path),
                None => !self.matches(request@.method, request@.path),
            },
    {
        if self.method == *request.method() {
            match captures(&self.pattern, request.path()) {
                Some(values) => Some(collect_params(&group_names(&self.pattern), &values)),
                None => None,
            }
        } else {
            None
        }
    }
}

impl<H: Fn(Request) -> Response> Route<H> {
    /// Hands `request` to the handler.
    pub fn call(&self, request: Request) -> (response: Response)
        requires
            call_requires(self.handler, (request,)),
        ensures
            call_ensures(self.handler, (request,), response),
    {
        (self.handler)(request)
    }
}

/// The first route at or after `from` that takes the method and path, in
/// registration order.
pub open spec fn first_match<H>(
    routes: Seq<Route<H>>,
    method: HttpMethod,
    path: Seq<char>,
    from: int,
) -> Option<int>
    decreases routes.len() - from,
{
    if from < 0 || from >= routes.len() {
        None
    } else if routes[from].matches(method, path) {
        Some(from)
    } else {
        first_match(routes, method, path, from + 1)
    }
}

/// `first_match` finds a route that matches and that no matching route
/// stands before; it finds none only where no route matches.
pub proof fn lemma_first_match<H>(
    routes: Seq<Route<H>>,
    method: HttpMethod,
    path: Seq<char>,
    from: int,
)
    requires
        0 <= from,
    ensures
        match first_match(routes, method, path, from) {
            Some(k) => {
                &&& from <= k < routes.len()
                &&& routes[k].matches(method, path)
                &&& forall|j: int| from <= j < k ==> !(#[trigger] routes[j]).matches(method, path)
            },
            None => forall|j: int|
                from <= j < routes.len() ==> !(#[trigger] routes[j]).matches(method, path),
        },
    decreases routes.len() - from,
{
    if from < routes.len() && !routes[from].matches(method, path) {
        lemma_first_match(routes, method, path, from + 1);
    }
}

/// Finds the first route that takes `request`, with the parameters it
/// captures.
pub fn match_route<H>(routes: &Vec<Route<H>>, request: &Request) -> (found: Option<
    (usize, Fields),
>)
    ensures
        match found {
            Some((k, params)) => {
                &&& first_match(routes@, request@.method, request@.path, 0) == Some(k as int)
                &&& k < routes.len()
                &&& params@ == routes[k as int].params(request@.path)
            },
            None => first_match(routes@, request@.method, request@.path, 0) is None,
        },
{
    let mut k: usize = 0;
    while k < routes.len()
        invariant
            k <= routes.len(),
            first_match(routes@, request@.method, request@.path, 0) == first_match(
                routes@,
                request@.method,
                request@.path,
                k as int,
            ),
        decreases routes.len() - k,
    {
        match routes[k].try_match(request) {
            Some(params) => {
                return Some((k, params));
            },
            None => {},
        }
        k += 1;
    }
    None
}

} // verus!
