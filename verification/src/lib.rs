//! A small HTTP toolkit: a request and response model with their wire
//! formats, and a router that matches path templates, runs middleware in
//! registration order and hands requests to handlers.

pub mod handlers;
pub mod http;
pub mod middleware;
pub mod router;
pub mod server;
pub mod text;

pub use http::{HttpMethod, Request, Response};
pub use middleware::Middleware;
pub use router::Router;
