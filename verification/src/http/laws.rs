//! What holds of every request text that is written as the wire format
//! asks.

use super::fields::to_map;
use super::method::HttpMethod;
use super::request::{
    blank_line, header_separator, headers_from, line_break, line_end, parse_request,
};
use super::response::{header_lines, line_ending};
use crate::text::{
    find_char_from, find_in, is_whitespace, occurs_at, skip_whitespace, skip_word,
};
use vstd::prelude::*;

verus! {

/// The text of a request on the wire: the request line, the header lines,
/// an empty line and the body.
pub open spec fn request_text(
    method: HttpMethod,
    path: Seq<char>,
    headers: Seq<(Seq<char>, Seq<char>)>,
    body: Seq<char>,
) -> Seq<char> {
    request_line(method, path) + line_ending() + header_lines(headers) + line_ending() + body
}

/// The request line without its ending.
pub open spec fn request_line(method: HttpMethod, path: Seq<char>) -> Seq<char> {
    method.token() + seq![' '] + path + " HTTP/1.1"@
}

/// A text that holds no carriage return and no line feed.
pub open spec fn on_one_line(text: Seq<char>) -> bool {
    forall|i: int| 0 <= i < text.len() ==> text[i] != '\r' && text[i] != '\n'
}

/// A path of one word or more characters, none of them whitespace.
pub open spec fn is_word(text: Seq<char>) -> bool {
    text.len() > 0 && forall|i: int| 0 <= i < text.len() ==> !is_whitespace(text[i])
}

/// Headers whose names and values stay on their line.
pub open spec fn headers_on_lines(headers: Seq<(Seq<char>, Seq<char>)>) -> bool {
    forall|i: int|
        0 <= i < headers.len() ==> on_one_line((#[trigger] headers[i]).0) && on_one_line(
            headers[i].1,
        )
}

proof fn lemma_find_char_at(s: Seq<char>, c: char, from: int, at: int)
    requires
        0 <= from <= at < s.len(),
        s[at] == c,
        forall|j: int| from <= j < at ==> s[j] != c,
    ensures
        find_char_from(s, c, from) == at,
    decreases at - from,
{
    if from < at {
        lemma_find_char_at(s, c, from + 1, at);
    }
}

proof fn lemma_skip_word_to(s: Seq<char>, from: int, at: int, to: int)
    requires
        0 <= from <= at <= to <= s.len(),
        forall|j: int| from <= j < at ==> !is_whitespace(s[j]),
        at == to || is_whitespace(s[at]),
    ensures
        skip_word(s, from, to) == at,
    decreases at - from,
{
    if from < at {
        lemma_skip_word_to(s, from + 1, at, to);
    }
}

proof fn lemma_skip_whitespace_to(s: Seq<char>, from: int, at: int, to: int)
    requires
        0 <= from <= at <= to <= s.len(),
        forall|j: int| from <= j < at ==> is_whitespace(s[j]),
        at == to || !is_whitespace(s[at]),
    ensures
        skip_whitespace(s, from, to) == at,
    decreases at - from,
{
    if from < at {
        lemma_skip_whitespace_to(s, from + 1, at, to);
    }
}

proof fn lemma_find_in_at(s: Seq<char>, pattern: Seq<char>, from: int, at: int, to: int)
    requires
        0 <= from <= at < to <= s.len(),
        at + pattern.len() <= to,
        occurs_at(s, pattern, at),
        forall|j: int| from <= j < at ==> !occurs_at(s, pattern, j),
    ensures
        find_in(s, pattern, from, to) == at,
    decreases at - from,
{
    if from < at {
        lemma_find_in_at(s, pattern, from + 1, at, to);
    }
}

/// The tokens of the methods are words of letters.
proof fn lemma_token_is_word(method: HttpMethod)
    ensures
        is_word(method.token()),
        on_one_line(method.token()),
{
    reveal_strlit("GET");
    reveal_strlit("POST");
    reveal_strlit("PUT");
    reveal_strlit("DELETE");
}

/// Whether a line feed stands at position `i`.
spec fn line_feed_at(text: Seq<char>, i: int) -> bool {
    0 <= i < text.len() && text[i] == '\n'
}

/// The head of a request up to the end of its last line: the request line
/// and the header lines, each with its ending.
spec fn head_text(first: Seq<char>, headers: Seq<(Seq<char>, Seq<char>)>) -> Seq<char> {
    first + line_ending() + header_lines(headers)
}

/// No line of the head is empty: the head ends with a line ending, and no
/// line feed before the last is followed by a carriage return.
proof fn lemma_head_has_no_blank_line(first: Seq<char>, headers: Seq<(Seq<char>, Seq<char>)>)
    requires
        first.len() > 0,
        on_one_line(first),
        headers_on_lines(headers),
    ensures
        ({
            let head = head_text(first, headers);
            &&& head.len() >= first.len() + 2
            &&& head.subrange(0, first.len() as int) == first
            &&& head[first.len() as int] == '\r'
            &&& head[first.len() as int + 1] == '\n'
            &&& head[head.len() - 2] == '\r'
            &&& head[head.len() - 1] == '\n'
            &&& forall|i: int| #[trigger]
                line_feed_at(head, i) && i < head.len() - 1 ==> head[i + 1] != '\r'
        }),
    decreases headers.len(),
{
    let head = head_text(first, headers);
    if headers.len() == 0 {
        assert(head =~= first + line_ending());
        assert(head.subrange(0, first.len() as int) =~= first);
    } else {
        let before = head_text(first, headers.drop_last());
        let (name, value) = headers.last();
        let line = name + seq![':', ' '] + value;
        lemma_head_has_no_blank_line(first, headers.drop_last());
        assert(headers.drop_last() =~= headers.take(headers.len() - 1));
        assert(on_one_line(headers[headers.len() - 1].0));
        assert(on_one_line(headers[headers.len() - 1].1));
        assert(head =~= before + line + line_ending());
        assert(line.len() >= 2);
        assert(on_one_line(line)) by {
            assert forall|i: int| 0 <= i < line.len() implies line[i] != '\r' && line[i]
                != '\n' by {
                if i < name.len() {
                    assert(line[i] == name[i]);
                } else if i < name.len() + 2 {
                } else {
                    assert(line[i] == value[i - name.len() - 2]);
                }
            }
        }
        assert(head.subrange(0, first.len() as int) =~= before.subrange(0, first.len() as int));
        assert forall|i: int| #[trigger]
            line_feed_at(head, i) && i < head.len() - 1 implies head[i + 1] != '\r' by {
            if i < before.len() - 1 {
                assert(head[i] == before[i]);
                assert(line_feed_at(before, i));
                assert(head[i + 1] == before[i + 1]);
            } else if i == before.len() - 1 {
                assert(head[i + 1] == line[0]);
            } else if i < before.len() + line.len() {
                assert(head[i] == line[i - before.len()]);
            } else {
                assert(head[i] == '\r');
            }
        }
    }
}

/// Reading a request that was written as the wire format asks gives back
/// its method, its path and its body. The path is one word, and the names
/// and values of the headers hold no line break; the body is any text.
pub proof fn lemma_parse_round_trip(
    method: HttpMethod,
    path: Seq<char>,
    headers: Seq<(Seq<char>, Seq<char>)>,
    body: Seq<char>,
)
    requires
        is_word(path),
        headers_on_lines(headers),
    ensures
        parse_request(request_text(method, path, headers, body)).method == method,
        parse_request(request_text(method, path, headers, body)).path == path,
        parse_request(request_text(method, path, headers, body)).body == body,
{
    let token = method.token();
    let first = request_line(method, path);
    let head = head_text(first, headers);
    let raw = request_text(method, path, headers, body);
    let version = " HTTP/1.1"@;
    reveal_strlit(" HTTP/1.1");
    lemma_token_is_word(method);
    method.lemma_token_round_trip();
    assert(version.len() == 9);
    assert(version[0] == ' ');
    assert(on_one_line(version));

    // The request line: its characters, and that none of them is a break.
    assert(first.len() == token.len() + 1 + path.len() + 9);
    assert forall|i: int| 0 <= i < first.len() implies first[i] == (if i < token.len() {
        token[i]
    } else if i == token.len() {
        ' '
    } else if i < token.len() + 1 + path.len() {
        path[i - token.len() - 1]
    } else {
        version[i - token.len() - 1 - path.len()]
    }) by {}
    assert(on_one_line(first)) by {
        assert forall|i: int| 0 <= i < first.len() implies first[i] != '\r' && first[i]
            != '\n' by {
            if i < token.len() {
            } else if i == token.len() {
            } else if i < token.len() + 1 + path.len() {
                assert(!is_whitespace(path[i - token.len() - 1]));
            } else {
            }
        }
    }
    lemma_head_has_no_blank_line(first, headers);
    assert(raw =~= head + line_ending() + body);
    assert forall|i: int| 0 <= i < head.len() implies raw[i] == head[i] by {}
    assert forall|i: int| 0 <= i < first.len() implies raw[i] == first[i] by {
        assert(head.subrange(0, first.len() as int)[i] == head[i]);
    }

    // The first line ends where the request line ends.
    let break_at: int = first.len() as int + 1;
    assert(raw[break_at] == '\n');
    lemma_find_char_at(raw, '\n', 0, break_at);
    assert(line_break(raw, 0) == break_at);
    assert(raw[break_at - 1] == '\r');
    let end = line_end(raw, 0);
    assert(end == first.len());

    // Its first two words are the method's token and the path.
    let path_at: int = token.len() as int + 1;
    let path_end: int = path_at + path.len();
    lemma_skip_whitespace_to(raw, 0, 0, end);
    lemma_skip_word_to(raw, 0, token.len() as int, end);
    assert(is_whitespace(' '));
    lemma_skip_whitespace_to(raw, token.len() as int, path_at, end);
    assert forall|j: int| path_at <= j < path_end implies !is_whitespace(raw[j]) by {
        assert(raw[j] == path[j - path_at]);
    }
    assert(raw[path_end] == version[0]);
    lemma_skip_word_to(raw, path_at, path_end, end);
    assert(raw.subrange(0, token.len() as int) =~= token);
    assert(raw.subrange(path_at, path_end) =~= path);

    // The first blank line is the one that ends the head.
    let blank_at: int = head.len() - 2;
    assert(raw.subrange(blank_at, blank_at + 4) =~= blank_line());
    assert forall|j: int| 0 <= j < blank_at implies !occurs_at(raw, blank_line(), j) by {
        if occurs_at(raw, blank_line(), j) {
            let found = raw.subrange(j, j + 4);
            assert(found[1] == '\n' && found[2] == '\r');
            assert(raw[j + 1] == '\n' && raw[j + 2] == '\r');
            assert(line_feed_at(head, j + 1));
            assert(head[j + 2] != '\r');
        }
    }
    lemma_find_in_at(raw, blank_line(), 0, blank_at, raw.len() as int);
    assert(raw.subrange(blank_at + 4, raw.len() as int) =~= body);
}

/// Header names that hold no `": "`, so that the first one on a header's
/// line is the one that parts the name from the value.
pub open spec fn names_hold_no_separator(headers: Seq<(Seq<char>, Seq<char>)>) -> bool {
    forall|i: int, k: int|
        0 <= i < headers.len() ==> !#[trigger] occurs_at(headers[i].0, header_separator(), k)
}

/// The headers from position `i` on, set one after the other in `found`.
spec fn set_in_order(
    headers: Seq<(Seq<char>, Seq<char>)>,
    i: int,
    found: Map<Seq<char>, Seq<char>>,
) -> Map<Seq<char>, Seq<char>>
    decreases headers.len() - i,
{
    if i < 0 || i >= headers.len() {
        found
    } else {
        set_in_order(headers, i + 1, found.insert(headers[i].0, headers[i].1))
    }
}

proof fn lemma_set_in_order_last(
    headers: Seq<(Seq<char>, Seq<char>)>,
    i: int,
    found: Map<Seq<char>, Seq<char>>,
)
    requires
        0 <= i < headers.len(),
    ensures
        set_in_order(headers, i, found) == set_in_order(headers.drop_last(), i, found).insert(
            headers.last().0,
            headers.last().1,
        ),
    decreases headers.len() - i,
{
    let front = headers.drop_last();
    if i < headers.len() - 1 {
        assert(front[i] == headers[i]);
        lemma_set_in_order_last(headers, i + 1, found.insert(headers[i].0, headers[i].1));
    } else {
        assert(set_in_order(headers, i + 1, found.insert(headers[i].0, headers[i].1))
            == found.insert(headers[i].0, headers[i].1));
    }
}

proof fn lemma_set_in_order_is_to_map(headers: Seq<(Seq<char>, Seq<char>)>)
    ensures
        set_in_order(headers, 0, Map::empty()) == to_map(headers),
    decreases headers.len(),
{
    if headers.len() > 0 {
        lemma_set_in_order_is_to_map(headers.drop_last());
        lemma_set_in_order_last(headers, 0, Map::empty());
    }
}

/// The line of one header, without its ending.
spec fn header_line(header: (Seq<char>, Seq<char>)) -> Seq<char> {
    header.0 + seq![':', ' '] + header.1
}

/// The header lines from position `i` on, each with its ending.
spec fn lines_from(headers: Seq<(Seq<char>, Seq<char>)>, i: int) -> Seq<char>
    decreases headers.len() - i,
{
    if i < 0 || i >= headers.len() {
        Seq::empty()
    } else {
        header_line(headers[i]) + line_ending() + lines_from(headers, i + 1)
    }
}

proof fn lemma_lines_from_last(headers: Seq<(Seq<char>, Seq<char>)>, i: int)
    requires
        0 <= i < headers.len(),
    ensures
        lines_from(headers, i) == lines_from(headers.drop_last(), i) + header_line(headers.last())
            + line_ending(),
    decreases headers.len() - i,
{
    let front = headers.drop_last();
    if i < headers.len() - 1 {
        assert(front[i] == headers[i]);
        lemma_lines_from_last(headers, i + 1);
        assert(lines_from(headers, i) =~= lines_from(front, i) + header_line(headers.last())
            + line_ending());
    } else {
        assert(lines_from(headers, i + 1) =~= Seq::<char>::empty());
        assert(lines_from(front, i) =~= Seq::<char>::empty());
        assert(lines_from(headers, i) =~= lines_from(front, i) + header_line(headers.last())
            + line_ending());
    }
}

proof fn lemma_header_lines_forward(headers: Seq<(Seq<char>, Seq<char>)>)
    ensures
        header_lines(headers) == lines_from(headers, 0),
    decreases headers.len(),
{
    if headers.len() > 0 {
        lemma_header_lines_forward(headers.drop_last());
        lemma_lines_from_last(headers, 0);
        assert(header_lines(headers) =~= lines_from(headers, 0));
    }
}

/// Reading header lines that were written one after the other gives the
/// headers back.
proof fn lemma_headers_read(
    before: Seq<char>,
    headers: Seq<(Seq<char>, Seq<char>)>,
    i: int,
    body: Seq<char>,
    found: Map<Seq<char>, Seq<char>>,
)
    requires
        0 <= i <= headers.len(),
        headers_on_lines(headers),
        names_hold_no_separator(headers),
    ensures
        headers_from(
            before + lines_from(headers, i) + line_ending() + body,
            before.len() as int,
            found,
        ) == set_in_order(headers, i, found),
    decreases headers.len() - i,
{
    let raw = before + lines_from(headers, i) + line_ending() + body;
    let from = before.len() as int;
    if i == headers.len() {
        assert(raw[from] == '\r');
        assert(raw[from + 1] == '\n');
        lemma_find_char_at(raw, '\n', from, from + 1);
        assert(line_end(raw, from) == from);
    } else {
        let (name, value) = headers[i];
        let line = header_line(headers[i]);
        let end = from + line.len();
        let colon = from + name.len();
        assert(on_one_line(name) && on_one_line(value));
        assert(raw =~= before + line + line_ending() + (lines_from(headers, i + 1) + line_ending()
            + body));
        assert forall|j: int| 0 <= j < line.len() implies raw[from + j] == line[j] by {}
        assert forall|j: int| 0 <= j < line.len() implies line[j] == (if j < name.len() {
            name[j]
        } else if j == name.len() {
            ':'
        } else if j == name.len() + 1 {
            ' '
        } else {
            value[j - name.len() - 2]
        }) by {}
        assert(raw[end] == '\r');
        assert(raw[end + 1] == '\n');
        assert forall|j: int| from <= j < end + 1 implies raw[j] != '\n' by {
            if j < end {
                assert(raw[j] == line[j - from]);
            }
        }
        lemma_find_char_at(raw, '\n', from, end + 1);
        assert(line_break(raw, from) == end + 1);
        assert(line_end(raw, from) == end);
        assert(raw.subrange(colon, colon + 2) =~= header_separator()) by {
            assert(raw[colon] == line[name.len() as int]);
            assert(raw[colon + 1] == line[name.len() as int + 1]);
        }
        assert forall|j: int| from <= j < colon implies !occurs_at(raw, header_separator(), j) by {
            if occurs_at(raw, header_separator(), j) {
                let found_here = raw.subrange(j, j + 2);
                assert(found_here[0] == ':' && found_here[1] == ' ');
                assert(raw[j] == ':' && raw[j + 1] == ' ');
                assert(raw[j] == line[j - from]);
                assert(raw[j + 1] == line[j + 1 - from]);
                if j + 1 < colon {
                    assert(name.subrange(j - from, j - from + 2) =~= header_separator());
                    assert(occurs_at(name, header_separator(), j - from));
                }
            }
        }
        lemma_find_in_at(raw, header_separator(), from, colon, end);
        assert(raw.subrange(from, colon) =~= name);
        assert(raw.subrange(colon + 2, end) =~= value);
        let longer = before + line + line_ending();
        lemma_headers_read(longer, headers, i + 1, body, found.insert(name, value));
        assert(raw =~= longer + lines_from(headers, i + 1) + line_ending() + body);
    }
}

/// Reading a request that was written as the wire format asks gives back
/// its headers too, where no header's name holds `": "`. A name that was
/// written more than once has its last value.
pub proof fn lemma_parse_round_trip_headers(
    method: HttpMethod,
    path: Seq<char>,
    headers: Seq<(Seq<char>, Seq<char>)>,
    body: Seq<char>,
)
    requires
        is_word(path),
        headers_on_lines(headers),
        names_hold_no_separator(headers),
    ensures
        parse_request(request_text(method, path, headers, body)).headers == to_map(headers),
        parse_request(request_text(method, path, headers, body)).params == Map::<
            Seq<char>,
            Seq<char>,
        >::empty(),
{
    let first = request_line(method, path);
    let raw = request_text(method, path, headers, body);
    let token = method.token();
    reveal_strlit(" HTTP/1.1");
    lemma_token_is_word(method);
    let before = first + line_ending();
    assert forall|j: int| 0 <= j < first.len() implies first[j] != '\n' by {
        if j < token.len() {
        } else if j == token.len() {
        } else if j < token.len() + 1 + path.len() {
            assert(first[j] == path[j - token.len() - 1]);
            assert(!is_whitespace(path[j - token.len() - 1]));
        } else {
            assert(first[j] == " HTTP/1.1"@[j - token.len() - 1 - path.len()]);
        }
    }
    lemma_header_lines_forward(headers);
    assert(raw =~= before + lines_from(headers, 0) + line_ending() + body);
    assert forall|j: int| 0 <= j < first.len() implies raw[j] == first[j] by {}
    assert(raw[first.len() as int] == '\r');
    assert(raw[first.len() as int + 1] == '\n');
    lemma_find_char_at(raw, '\n', 0, first.len() as int + 1);
    lemma_headers_read(before, headers, 0, body, Map::empty());
    lemma_set_in_order_is_to_map(headers);
}

} // verus!
