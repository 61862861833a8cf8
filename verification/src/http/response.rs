use super::fields::Fields;
use vstd::prelude::*;
use vstd::string::*;

verus! {

/// What a response stands for.
pub struct ResponseModel {
    pub status: u16,
    pub body: Seq<char>,
    pub headers: Map<Seq<char>, Seq<char>>,
}

/// The status of a response that nothing has changed.
pub const STATUS_OK: u16 = 200;

/// The header that every new response carries.
pub open spec fn default_headers() -> Seq<(Seq<char>, Seq<char>)> {
    seq![("Content-Type"@, "text/plain"@)]
}

/// The reason phrase that goes with a status on the status line.
pub open spec fn status_text(status: u16) -> Seq<char> {
    if status == 200 {
        "OK"@
    } else if status == 404 {
        "Not Found"@
    } else if status == 500 {
        "Internal Server Error"@
    } else {
        "Unknown"@
    }
}

/// The character for a decimal digit.
pub open spec fn digit(d: nat) -> char {
    if d == 0 {
        '0'
    } else if d == 1 {
        '1'
    } else if d == 2 {
        '2'
    } else if d == 3 {
        '3'
    } else if d == 4 {
        '4'
    } else if d == 5 {
        '5'
    } else if d == 6 {
        '6'
    } else if d == 7 {
        '7'
    } else if d == 8 {
        '8'
    } else {
        '9'
    }
}

/// A number in decimal digits, without leading zeros.
pub open spec fn decimal(n: nat) -> Seq<char>
    decreases n,
{
    if n < 10 {
        seq![digit(n)]
    } else {
        decimal(n / 10).push(digit(n % 10))
    }
}

/// The end of a line on the wire: a carriage return and a line feed.
pub open spec fn line_ending() -> Seq<char> {
    seq!['\r', '\n']
}

/// The header lines for `entries`, in their order: each is the name, `": "`,
/// the value and a line ending.
pub open spec fn header_lines(entries: Seq<(Seq<char>, Seq<char>)>) -> Seq<char>
    decreases entries.len(),
{
    if entries.len() == 0 {
        Seq::empty()
    } else {
        header_lines(entries.drop_last()) + entries.last().0 + seq![':', ' '] + entries.last().1
            + line_ending()
    }
}

/// The text of a response on the wire: the status line, the header lines,
/// an empty line and the body as it is.
pub open spec fn response_text(
    status: u16,
    headers: Seq<(Seq<char>, Seq<char>)>,
    body: Seq<char>,
) -> Seq<char> {
    "HTTP/1.1 "@ + decimal(status as nat) + seq![' '] + status_text(status) + line_ending()
        + header_lines(headers) + line_ending() + body
}

/// The one-character string for a decimal digit.
fn digit_str(d: u16) -> (s: &'static str)
    requires
        d < 10,
    ensures
        s@ == seq![digit(d as nat)],
{
    proof {
        reveal_strlit("0");
        reveal_strlit("1");
        reveal_strlit("2");
        reveal_strlit("3");
        reveal_strlit("4");
        reveal_strlit("5");
        reveal_strlit("6");
        reveal_strlit("7");
        reveal_strlit("8");
        reveal_strlit("9");
    }
    let s = if d == 0 {
        "0"
    } else if d == 1 {
        "1"
    } else if d == 2 {
        "2"
    } else if d == 3 {
        "3"
    } else if d == 4 {
        "4"
    } else if d == 5 {
        "5"
    } else if d == 6 {
        "6"
    } else if d == 7 {
        "7"
    } else if d == 8 {
        "8"
    } else {
        "9"
    };
    assert(s@ =~= seq![digit(d as nat)]);
    s
}

/// Appends `n` in decimal digits to `out`.
fn write_decimal(n: u16, out: &mut String)
    ensures
        final(out)@ == old(out)@ + decimal(n as nat),
    decreases n,
{
    if n >= 10 {
        write_decimal(n / 10, out);
    }
    out.append(digit_str(n % 10));
    assert(out@ =~= old(out)@ + decimal(n as nat));
}

/// A new response with the given body: status 200 and the default header.
pub open spec fn plain(body: Seq<char>) -> ResponseModel {
    ResponseModel { status: STATUS_OK, body, headers: super::fields::to_map(default_headers()) }
}

/// The operations that handlers and middleware use on a response.
pub trait ResponseTrait: Send + Sized {
    /// What the response stands for.
    spec fn model(&self) -> ResponseModel;

    fn status(&self) -> (status: u16)
        ensures
            status == self.model().status,
    ;

    fn body(&self) -> (body: &str)
        ensures
            body@ == self.model().body,
    ;

    fn headers(&self) -> (headers: &Fields)
        ensures
            headers@ == self.model().headers,
    ;

    fn set_status(&mut self, status: u16)
        ensures
            final(self).model() == (ResponseModel { status, ..old(self).model() }),
    ;

    fn set_body(&mut self, body: String)
        ensures
            final(self).model() == (ResponseModel { body: body@, ..old(self).model() }),
    ;

    fn set_header(&mut self, key: String, value: String)
        ensures
            final(self).model() == (ResponseModel {
                headers: old(self).model().headers.insert(key@, value@),
                ..old(self).model()
            }),
    ;

    /// A response with status 200, the given body and the default
    /// `Content-Type: text/plain` header.
    fn new(body: String) -> (response: Self)
        ensures
            response.model() == plain(body@),
    ;
}

/// A response under construction or ready to be sent.
#[derive(Debug)]
pub struct Response {
    status: u16,
    body: String,
    headers: Fields,
}

impl View for Response {
    type V = ResponseModel;

    closed spec fn view(&self) -> ResponseModel {
        ResponseModel { status: self.status, body: self.body@, headers: self.headers@ }
    }
}

impl Clone for Response {
    /// A copy that stands for the same response, with its headers in the
    /// same order.
    fn clone(&self) -> (copy: Response)
        ensures
            copy@ == self@,
            copy.header_entries() == self.header_entries(),
    {
        Response { status: self.status, body: self.body.clone(), headers: self.headers.clone() }
    }
}

impl ResponseTrait for Response {
    open spec fn model(&self) -> ResponseModel {
        self@
    }

    fn status(&self) -> (status: u16) {
        self.status
    }

    fn body(&self) -> (body: &str) {
        self.body.as_str()
    }

    fn headers(&self) -> (headers: &Fields)
        ensures
            headers.entries() == self.header_entries(),
    {
        &self.headers
    }

    fn set_status(&mut self, status: u16)
        ensures
            final(self).header_entries() == old(self).header_entries(),
    {
        self.status = status;
    }

    fn set_body(&mut self, body: String)
        ensures
            final(self).header_entries() == old(self).header_entries(),
    {
        self.body = body;
    }

    fn set_header(&mut self, key: String, value: String)
        ensures
            final(self).header_entries() == super::fields::insert_entry(
                old(self).header_entries(),
                key@,
                value@,
            ),
    {
        self.headers.insert(key, value);
    }

    fn new(body: String) -> (response: Response) {
        Response::with_body(body)
    }
}

impl Response {
    /// The reason phrase for the response's status: known for 200, 404 and
    /// 500, and `Unknown` for every other status.
    pub fn status_text(&self) -> (text: &'static str)
        ensures
            text@ == status_text(self@.status),
    {
        if self.status == 200 {
            "OK"
        } else if self.status == 404 {
            "Not Found"
        } else if self.status == 500 {
            "Internal Server Error"
        } else {
            "Unknown"
        }
    }

    /// The response as it goes on the wire, with the headers in the order
    /// of `header_entries`.
    pub fn to_string(&self) -> (text: String)
        ensures
            text@ == response_text(self@.status, self.header_entries(), self@.body),
    {
        proof {
            reveal_strlit(" ");
            reveal_strlit(": ");
            reveal_strlit("\r\n");
            assert(" "@ =~= seq![' ']);
            assert(": "@ =~= seq![':', ' ']);
            assert("\r\n"@ =~= line_ending());
        }
        let mut text = String::from_str("HTTP/1.1 ");
        write_decimal(self.status, &mut text);
        text.append(" ");
        text.append(self.status_text());
        text.append("\r\n");
        let ghost status_line = text@;
        let ghost entries = self.headers.entries();
        let count = self.headers.len();
        let mut i: usize = 0;
        while i < count
            invariant
                i <= count,
                count == entries.len(),
                entries == self.headers.entries(),
                ": "@ == seq![':', ' '],
                "\r\n"@ == line_ending(),
                text@ == status_line + header_lines(entries.take(i as int)),
            decreases count - i,
        {
            let ghost before = text@;
            match self.headers.entry(i) {
                Some((key, value)) => {
                    text.append(key.as_str());
                    text.append(": ");
                    text.append(value.as_str());
                    text.append("\r\n");
                },
                None => {},
            }
            proof {
                let upto = entries.take(i + 1);
                assert(upto.drop_last() =~= entries.take(i as int));
                assert(upto.last() == entries[i as int]);
                assert(text@ =~= status_line + header_lines(upto));
            }
            i += 1;
        }
        assert(entries.take(count as int) =~= entries);
        text.append("\r\n");
        text.append(self.body.as_str());
        assert(text@ =~= response_text(self@.status, self.header_entries(), self@.body));
        text
    }

    /// The headers in the order in which `to_string` writes them.
    pub closed spec fn header_entries(&self) -> Seq<(Seq<char>, Seq<char>)> {
        self.headers.entries()
    }

    /// A response with status 200, the given body and the default
    /// `Content-Type: text/plain` header.
    pub fn new(body: &str) -> (response: Response)
        ensures
            response@ == plain(body@),
            response.header_entries() == default_headers(),
    {
        Response::with_body(body.to_owned())
    }

    /// A new response that takes ownership of its body.
    pub fn with_body(body: String) -> (response: Response)
        ensures
            response@ == plain(body@),
            response.header_entries() == default_headers(),
    {
        let mut headers = Fields::new();
        headers.insert("Content-Type".to_owned(), "text/plain".to_owned());
        proof {
            assert(!super::fields::has_key(Seq::empty(), "Content-Type"@));
            assert(headers.entries() =~= default_headers());
            headers.lemma_view();
        }
        Response { status: STATUS_OK, body, headers }
    }
}

} // verus!
