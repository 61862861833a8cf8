use vstd::prelude::*;

verus! {

/// The request methods that the toolkit dispatches on. Equality is the only
/// operation that routing needs.
#[allow(clippy::upper_case_acronyms)]
#[derive(Debug, Clone, Copy, PartialEq, Eq, Structural, Hash)]
pub enum HttpMethod {
    GET,
    POST,
    PUT,
    DELETE,
}

impl HttpMethod {
    /// The token that stands for this method on the request line.
    pub open spec fn token(self) -> Seq<char> {
        match self {
            HttpMethod::GET => "GET"@,
            HttpMethod::POST => "POST"@,
            HttpMethod::PUT => "PUT"@,
            HttpMethod::DELETE => "DELETE"@,
        }
    }

    /// The method that a request-line token selects. A token that names no
    /// method selects `GET`.
    pub open spec fn from_token(token: Seq<char>) -> HttpMethod {
        if token == "POST"@ {
            HttpMethod::POST
        } else if token == "PUT"@ {
            HttpMethod::PUT
        } else if token == "DELETE"@ {
            HttpMethod::DELETE
        } else {
            HttpMethod::GET
        }
    }

    /// The method's token as a string slice.
    pub fn as_str(&self) -> (s: &'static str)
        ensures
            s@ == self.token(),
    {
        match self {
            HttpMethod::GET => "GET",
            HttpMethod::POST => "POST",
            HttpMethod::PUT => "PUT",
            HttpMethod::DELETE => "DELETE",
        }
    }

    /// Every method is selected by its own token.
    pub proof fn lemma_token_round_trip(self)
        ensures
            HttpMethod::from_token(self.token()) == self,
    {
        reveal_strlit("GET");
        reveal_strlit("POST");
        reveal_strlit("PUT");
        reveal_strlit("DELETE");
        assert("GET"@.len() == 3 && "POST"@.len() == 4 && "PUT"@.len() == 3 && "DELETE"@.len() == 6);
        assert("PUT"@[0] == 'P' && "GET"@[0] == 'G');
    }
}

} // verus!
