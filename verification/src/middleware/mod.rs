//! Middleware: a step that sees a request before routing and either passes
//! it on, changed or not, or answers it at once.

use crate::http::{Request, Response};
use vstd::prelude::*;

verus! {

/// A middleware step. `function` takes the request and returns it to let
/// dispatch go on, or returns the response that ends dispatch.
pub struct Middleware<F> {
    pub function: F,
}

impl<F> Middleware<F> {
    /// Wraps `f` as a middleware step.
    pub fn new(f: F) -> (middleware: Middleware<F>)
        ensures
            middleware.function == f,
    {
        Middleware { function: f }
    }
}

impl<F: Fn(Request) -> Result<Request, Response>> Middleware<F> {
    /// Runs the step on `request`.
    pub fn call(&self, request: Request) -> (outcome: Result<Request, Response>)
        requires
            call_requires(self.function, (request,)),
        ensures
            call_ensures(self.function, (request,), outcome),
    {
        (self.function)(request)
    }
}

} // verus!
