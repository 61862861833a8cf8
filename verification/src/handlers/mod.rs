//! Handlers for a small user service. Each answers with a plain-text
//! response.

use crate::http::{plain, RequestTrait, ResponseTrait};
use vstd::prelude::*;
use vstd::string::*;

verus! {

/// The value of parameter `id`, or `unknown` where the request has none.
pub open spec fn user_id(params: Map<Seq<char>, Seq<char>>) -> Seq<char> {
    if params.contains_key("id"@) {
        params["id"@]
    } else {
        "unknown"@
    }
}

/// `sentence` followed by the request's user id.
fn about_user<Req: RequestTrait, Res: ResponseTrait>(sentence: &str, request: Req) -> (response:
    Res)
    ensures
        response.model() == plain(sentence@ + user_id(request.model().params)),
{
    let mut body = String::from_str(sentence);
    match request.params().get("id") {
        Some(id) => body.append(id.as_str()),
        None => body.append("unknown"),
    }
    Res::new(body)
}

/// Greets.
pub fn hello_world<Req: RequestTrait, Res: ResponseTrait>(_request: Req) -> (response: Res)
    ensures
        response.model() == plain("Hello, World!"@),
{
    Res::new("Hello, World!".to_owned())
}

/// Names the user that parameter `id` asks for.
pub fn get_user<Req: RequestTrait, Res: ResponseTrait>(request: Req) -> (response: Res)
    ensures
        response.model() == plain("Getting user with ID: "@ + user_id(request.model().params)),
{
    about_user("Getting user with ID: ", request)
}

/// Echoes the body as the user to create.
pub fn create_user<Req: RequestTrait, Res: ResponseTrait>(request: Req) -> (response: Res)
    ensures
        response.model() == plain("Creating user: "@ + request.model().body),
{
    let mut body = String::from_str("Creating user: ");
    body.append(request.body());
    Res::new(body)
}

/// Names the user that parameter `id` asks to update.
pub fn update_user<Req: RequestTrait, Res: ResponseTrait>(request: Req) -> (response: Res)
    ensures
        response.model() == plain("Updating user with ID: "@ + user_id(request.model().params)),
{
    about_user("Updating user with ID: ", request)
}

/// Names the user that parameter `id` asks to delete.
pub fn delete_user<Req: RequestTrait, Res: ResponseTrait>(request: Req) -> (response: Res)
    ensures
        response.model() == plain("Deleting user with ID: "@ + user_id(request.model().params)),
{
    about_user("Deleting user with ID: ", request)
}

} // verus!
