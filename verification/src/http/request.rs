use super::fields::Fields;
use super::method::HttpMethod;
use crate::text::{
    find_char_from, find_in, lemma_find_char_from, scan_for, scan_whitespace, scan_word, search,
    skip_whitespace, skip_word, stands_at, to_chars,
};
use vstd::prelude::*;
use vstd::string::*;

verus! {

/// What a request stands for: its method, path and body, the headers it
/// arrived with and the parameters that a matching route captured.
pub struct RequestModel {
    pub method: HttpMethod,
    pub path: Seq<char>,
    pub body: Seq<char>,
    pub params: Map<Seq<char>, Seq<char>>,
    pub headers: Map<Seq<char>, Seq<char>>,
}

impl RequestModel {
    /// The same request with `params` in place of its parameters.
    pub open spec fn with_params(self, params: Map<Seq<char>, Seq<char>>) -> RequestModel {
        RequestModel { params, ..self }
    }
}

/// The characters that part the head of a request from its body: an empty
/// line after a line, both ended by a carriage return and a line feed.
pub open spec fn blank_line() -> Seq<char> {
    seq!['\r', '\n', '\r', '\n']
}

/// The characters that part a header's name from its value.
pub open spec fn header_separator() -> Seq<char> {
    seq![':', ' ']
}

/// Where the line that starts at `from` breaks: at its line feed, or at the
/// end of the text where no line feed follows.
pub open spec fn line_break(raw: Seq<char>, from: int) -> int {
    find_char_from(raw, '\n', from)
}

/// Where the content of the line that starts at `from` ends. A carriage
/// return before the line feed belongs to the line's ending, not to its
/// content.
pub open spec fn line_end(raw: Seq<char>, from: int) -> int {
    let at = line_break(raw, from);
    if from < at < raw.len() && raw[at - 1] == '\r' {
        at - 1
    } else {
        at
    }
}

/// The headers of the lines from position `from` on, added to `found`. The
/// header lines end at the first empty line. A line holds a header where it
/// holds `": "`: the name stands before the first one and the value after
/// it. Other lines are passed over. A name that comes again replaces its
/// value.
pub open spec fn headers_from(
    raw: Seq<char>,
    from: int,
    found: Map<Seq<char>, Seq<char>>,
) -> Map<Seq<char>, Seq<char>>
    decreases raw.len() + 1 - from,
    via headers_from_ends
{
    let end = line_end(raw, from);
    let colon = find_in(raw, header_separator(), from, end);
    if from < 0 || from >= raw.len() || end == from {
        found
    } else {
        headers_from(
            raw,
            line_break(raw, from) + 1,
            if colon < end {
                found.insert(raw.subrange(from, colon), raw.subrange(colon + 2, end))
            } else {
                found
            },
        )
    }
}

#[via_fn]
proof fn headers_from_ends(raw: Seq<char>, from: int, found: Map<Seq<char>, Seq<char>>) {
    if 0 <= from < raw.len() {
        lemma_find_char_from(raw, '\n', from);
    }
}

/// The request that a text stands for. Nothing is refused: what is missing
/// is empty, and a method that is not known is `GET`.
///
/// The first line holds the method and the path, its first two words. The
/// lines after it hold the headers. The body is all that follows the first
/// blank line.
pub open spec fn parse_request(raw: Seq<char>) -> RequestModel {
    let end = line_end(raw, 0);
    let method_at = skip_whitespace(raw, 0, end);
    let method_end = skip_word(raw, method_at, end);
    let path_at = skip_whitespace(raw, method_end, end);
    let path_end = skip_word(raw, path_at, end);
    let blank = find_in(raw, blank_line(), 0, raw.len() as int);
    RequestModel {
        method: HttpMethod::from_token(raw.subrange(method_at, method_end)),
        path: raw.subrange(path_at, path_end),
        body: if blank < raw.len() {
            raw.subrange(blank + 4, raw.len() as int)
        } else {
            Seq::empty()
        },
        params: Map::empty(),
        headers: headers_from(raw, line_break(raw, 0) + 1, Map::empty()),
    }
}

/// The operations that handlers and middleware use on a request.
pub trait RequestTrait: Clone + Send + Sync {
    /// What the request stands for.
    spec fn model(&self) -> RequestModel;

    fn method(&self) -> (method: &HttpMethod)
        ensures
            *method == self.model().method,
    ;

    fn path(&self) -> (path: &str)
        ensures
            path@ == self.model().path,
    ;

    fn body(&self) -> (body: &str)
        ensures
            body@ == self.model().body,
    ;

    fn params(&self) -> (params: &Fields)
        ensures
            params@ == self.model().params,
    ;

    fn headers(&self) -> (headers: &Fields)
        ensures
            headers@ == self.model().headers,
    ;

    /// Sets one parameter and keeps the others.
    fn set_param(&mut self, key: String, value: String)
        ensures
            final(self).model() == old(self).model().with_params(
                old(self).model().params.insert(key@, value@),
            ),
    ;

    /// Replaces all parameters.
    fn set_params(&mut self, params: Fields)
        ensures
            final(self).model() == old(self).model().with_params(params@),
    ;

    /// Reads a request from its text.
    fn parse(request: &str) -> (parsed: Self)
        ensures
            parsed.model() == parse_request(request@),
    ;
}

/// A parsed request.
#[derive(Debug)]
pub struct Request {
    method: HttpMethod,
    path: String,
    body: String,
    params: Fields,
    headers: Fields,
}

impl View for Request {
    type V = RequestModel;

    closed spec fn view(&self) -> RequestModel {
        RequestModel {
            method: self.method,
            path: self.path@,
            body: self.body@,
            params: self.params@,
            headers: self.headers@,
        }
    }
}

impl Clone for Request {
    /// A copy that stands for the same request.
    fn clone(&self) -> (copy: Request)
        ensures
            copy@ == self@,
    {
        Request {
            method: self.method,
            path: self.path.clone(),
            body: self.body.clone(),
            params: self.params.clone(),
            headers: self.headers.clone(),
        }
    }
}

impl RequestTrait for Request {
    open spec fn model(&self) -> RequestModel {
        self@
    }

    fn method(&self) -> (method: &HttpMethod) {
        &self.method
    }

    fn path(&self) -> (path: &str) {
        self.path.as_str()
    }

    fn body(&self) -> (body: &str) {
        self.body.as_str()
    }

    fn params(&self) -> (params: &Fields) {
        &self.params
    }

    fn headers(&self) -> (headers: &Fields) {
        &self.headers
    }

    fn set_param(&mut self, key: String, value: String) {
        self.params.insert(key, value);
    }

    fn set_params(&mut self, params: Fields) {
        self.params = params;
    }

    fn parse(request: &str) -> (parsed: Request) {
        let chars = to_chars(request);
        let n = chars.len();
        let first_break = scan_for(&chars, '\n', 0);
        let end = content_end(&chars, 0, first_break);
        let method_at = scan_whitespace(&chars, 0, end);
        let method_end = scan_word(&chars, method_at, end);
        let path_at = scan_whitespace(&chars, method_end, end);
        let path_end = scan_word(&chars, path_at, end);
        let method = method_for(&chars, method_at, method_end);
        let path = request.substring_char(path_at, path_end).to_owned();
        let mut blank_line_chars: Vec<char> = Vec::new();
        blank_line_chars.push('\r');
        blank_line_chars.push('\n');
        blank_line_chars.push('\r');
        blank_line_chars.push('\n');
        assert(blank_line_chars@ =~= blank_line());
        let blank = search(&chars, &blank_line_chars, 0, n);
        proof {
            crate::text::lemma_find_in(chars@, blank_line(), 0, n as int);
        }
        let body = if blank < n {
            request.substring_char(blank + 4, n).to_owned()
        } else {
            String::new()
        };
        let headers = if first_break < n {
            read_headers(request, &chars, first_break + 1)
        } else {
            Fields::new()
        };
        Request::from_parts(method, path, body, headers)
    }
}

/// Where the content of the line from `from` to its break at `at` ends.
fn content_end(chars: &Vec<char>, from: usize, at: usize) -> (end: usize)
    requires
        from <= chars.len(),
        at == line_break(chars@, from as int),
    ensures
        end == line_end(chars@, from as int),
        from <= end <= at <= chars.len(),
{
    proof {
        lemma_find_char_from(chars@, '\n', from as int);
    }
    if from < at && at < chars.len() && chars[at - 1] == '\r' {
        at - 1
    } else {
        at
    }
}

/// Whether the characters from `from` to `to` spell `word`.
fn spells(chars: &Vec<char>, from: usize, to: usize, word: &str) -> (b: bool)
    requires
        from <= to <= chars.len(),
    ensures
        b == (chars@.subrange(from as int, to as int) == word@),
{
    let letters = to_chars(word);
    if to - from != letters.len() {
        return false;
    }
    assert(chars@.subrange(from as int, from + letters.len()) == chars@.subrange(
        from as int,
        to as int,
    ));
    stands_at(chars, &letters, from)
}

/// The method that the word from `from` to `to` names.
fn method_for(chars: &Vec<char>, from: usize, to: usize) -> (method: HttpMethod)
    requires
        from <= to <= chars.len(),
    ensures
        method == HttpMethod::from_token(chars@.subrange(from as int, to as int)),
{
    if spells(chars, from, to, "POST") {
        HttpMethod::POST
    } else if spells(chars, from, to, "PUT") {
        HttpMethod::PUT
    } else if spells(chars, from, to, "DELETE") {
        HttpMethod::DELETE
    } else {
        HttpMethod::GET
    }
}

/// Reads the header lines that start at `from`.
fn read_headers(raw: &str, chars: &Vec<char>, from: usize) -> (headers: Fields)
    requires
        chars@ == raw@,
        from <= chars.len(),
    ensures
        headers@ == headers_from(raw@, from as int, Map::empty()),
{
    let n = chars.len();
    let mut separator: Vec<char> = Vec::new();
    separator.push(':');
    separator.push(' ');
    assert(separator@ =~= header_separator());
    let mut headers = Fields::new();
    let mut at = from;
    while at < n
        invariant
            chars@ == raw@,
            n == chars.len(),
            at <= n,
            separator@ == header_separator(),
            headers_from(raw@, at as int, headers@) == headers_from(
                raw@,
                from as int,
                Map::empty(),
            ),
        decreases n - at,
    {
        let line_break = scan_for(chars, '\n', at);
        let end = content_end(chars, at, line_break);
        if end == at {
            return headers;
        }
        let colon = search(chars, &separator, at, end);
        proof {
            crate::text::lemma_find_in(chars@, header_separator(), at as int, end as int);
        }
        if colon < end {
            let name = raw.substring_char(at, colon).to_owned();
            let value = raw.substring_char(colon + 2, end).to_owned();
            headers.insert(name, value);
        }
        if line_break >= n {
            assert(headers_from(raw@, n + 1, headers@) == headers@);
            return headers;
        }
        at = line_break + 1;
    }
    headers
}

impl Request {
    /// A request made of its parts, with no parameters yet.
    pub fn from_parts(method: HttpMethod, path: String, body: String, headers: Fields) -> (request:
        Request)
        ensures
            request@ == (RequestModel {
                method,
                path: path@,
                body: body@,
                params: Map::empty(),
                headers: headers@,
            }),
    {
        Request { method, path, body, params: Fields::new(), headers }
    }
}

} // verus!
