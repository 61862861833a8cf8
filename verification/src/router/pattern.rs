//! Path templates: how a template becomes the text of a regular expression,
//! and what a compiled expression captures from a path.

use crate::http::Fields;
use crate::text::{find_char_from, scan_for, to_chars};
use vstd::prelude::*;
use vstd::string::*;

verus! {

/// `regex::Regex`, a compiled regular expression. It is carried as it is:
/// what is known of one is what `regex_source`, `regex_group_names` and
/// `regex_captures` name.
#[verifier::external_type_specification]
#[verifier::external_body]
pub struct ExRegex(regex::Regex);

/// `regex::Error`, the reason why a text did not compile. Nothing is read
/// from it.
#[verifier::external_type_specification]
#[verifier::external_body]
pub struct ExRegexError(regex::Error);

/// Whether `Regex::new` accepts a text: whether the text is a valid
/// expression whose compiled form stays within the default size limit of
/// the regex crate.
pub uninterp spec fn regex_compiles(text: Seq<char>) -> bool;

/// The text that a regex was compiled from, as `Regex::as_str` returns it.
pub uninterp spec fn regex_source(re: regex::Regex) -> Seq<char>;

/// The names of a regex's capture groups as `Regex::capture_names` yields
/// them: one entry for each group, in the order of the groups' opening
/// parentheses, with the name of a group that has one. The group of the
/// whole match comes first.
pub uninterp spec fn regex_group_names(re: regex::Regex) -> Seq<Option<Seq<char>>>;

/// What `Regex::captures` finds in `haystack`: nothing where the regex does
/// not match, else, for each capture group in the same order, the text that
/// the group matched, where it took part in the match.
pub uninterp spec fn regex_captures(re: regex::Regex, haystack: Seq<char>) -> Option<
    Seq<Option<Seq<char>>>,
>;

/// The characters that `regex::escape` puts a backslash before: those that
/// `regex_syntax::is_meta_character` answers `true` for.
pub open spec fn is_meta_character(c: char) -> bool {
    c == '\\' || c == '.' || c == '+' || c == '*' || c == '?' || c == '(' || c == ')' || c == '|'
        || c == '[' || c == ']' || c == '{' || c == '}' || c == '^' || c == '$' || c == '#' || c
        == '&' || c == '-' || c == '~'
}

/// `text` with a backslash before each meta character.
pub open spec fn escaped(text: Seq<char>) -> Seq<char>
    decreases text.len(),
{
    if text.len() == 0 {
        Seq::empty()
    } else if is_meta_character(text.last()) {
        escaped(text.drop_last()).push('\\').push(text.last())
    } else {
        escaped(text.drop_last()).push(text.last())
    }
}

/// Calls `regex::escape`, which walks the characters of `text` and writes
/// each one out, after a backslash where it is a meta character.
#[verifier::external_body]
pub(crate) fn escape(text: &str) -> (quoted: String)
    ensures
        quoted@ == escaped(text@),
{
    regex::escape(text)
}

/// Calls `Regex::new`, which answers with a regex for the texts that it
/// accepts and with an error for all others. A regex that comes back keeps
/// the text it was compiled from.
#[verifier::external_body]
pub(crate) fn compile(text: &str) -> (outcome: Result<regex::Regex, regex::Error>)
    ensures
        outcome is Ok <==> regex_compiles(text@),
        outcome matches Ok(re) ==> regex_source(re) == text@,
{
    regex::Regex::new(text)
}

/// The texts that optional strings hold.
pub open spec fn texts(strings: Seq<Option<String>>) -> Seq<Option<Seq<char>>> {
    strings.map_values(
        |s: Option<String>|
            match s {
                Some(text) => Some(text@),
                None => None,
            },
    )
}

/// Calls `Regex::capture_names` and copies each name into a string.
#[verifier::external_body]
pub(crate) fn group_names(re: &regex::Regex) -> (names: Vec<Option<String>>)
    ensures
        texts(names@) == regex_group_names(*re),
{
    re.capture_names().map(|name| name.map(String::from)).collect()
}

/// Calls `Regex::captures` on `haystack` and copies the text of each match
/// that `Captures::iter` yields into a string.
#[verifier::external_body]
pub(crate) fn captures(re: &regex::Regex, haystack: &str) -> (found: Option<Vec<Option<String>>>)
    ensures
        match found {
            Some(groups) => regex_captures(*re, haystack@) == Some(texts(groups@)),
            None => regex_captures(*re, haystack@) is None,
        },
{
    re.captures(haystack).map(
        |caps| caps.iter().map(|group| group.map(|m| String::from(m.as_str()))).collect(),
    )
}

/// The parameters that the first `n` capture groups bind: each group that
/// has a name and took part in the match binds its name to the text it
/// matched.
pub open spec fn captures_upto(
    names: Seq<Option<Seq<char>>>,
    values: Seq<Option<Seq<char>>>,
    n: nat,
) -> Map<Seq<char>, Seq<char>>
    decreases n,
{
    if n == 0 {
        Map::empty()
    } else {
        match (names[n - 1], values[n - 1]) {
            (Some(name), Some(text)) => captures_upto(names, values, (n - 1) as nat).insert(
                name,
                text,
            ),
            _ => captures_upto(names, values, (n - 1) as nat),
        }
    }
}

/// The parameters that capture groups bind, each name taken with the value
/// at its position.
pub open spec fn capture_map(
    names: Seq<Option<Seq<char>>>,
    values: Seq<Option<Seq<char>>>,
) -> Map<Seq<char>, Seq<char>> {
    captures_upto(
        names,
        values,
        if names.len() <= values.len() {
            names.len()
        } else {
            values.len()
        },
    )
}

/// Gathers the parameters that the groups of a match bind.
pub fn collect_params(names: &Vec<Option<String>>, values: &Vec<Option<String>>) -> (params:
    Fields)
    ensures
        params@ == capture_map(texts(names@), texts(values@)),
{
    let count = if names.len() <= values.len() {
        names.len()
    } else {
        values.len()
    };
    let mut params = Fields::new();
    let mut i: usize = 0;
    while i < count
        invariant
            i <= count,
            count <= names.len(),
            count <= values.len(),
            params@ == captures_upto(texts(names@), texts(values@), i as nat),
        decreases count - i,
    {
        match (&names[i], &values[i]) {
            (Some(name), Some(text)) => {
                params.insert(name.clone(), text.clone());
            },
            _ => {},
        }
        i += 1;
    }
    params
}

/// The regular expression that stands for one segment of a template. A
/// segment that begins with `:` matches one run of word characters and binds
/// it to the name after the colon. A last segment that begins with `*`
/// matches the rest of the path, slashes included, and binds it to the name
/// after the star. Any other segment matches itself, character by character.
pub open spec fn segment_regex(segment: Seq<char>, last: bool) -> Seq<char> {
    if segment.len() > 0 && segment[0] == ':' {
        "(?P<"@ + segment.skip(1) + ">\\w+)"@
    } else if last && segment.len() > 0 && segment[0] == '*' {
        "(?P<"@ + segment.skip(1) + ">.*)"@
    } else {
        escaped(segment)
    }
}

/// The expressions of the segments of `template` from position `from` on,
/// with a slash between each two. Segments are what stands between slashes.
pub open spec fn segments_regex(template: Seq<char>, from: int) -> Seq<char>
    decreases template.len() - from,
{
    let end = find_char_from(template, '/', from);
    if 0 <= from <= end < template.len() {
        segment_regex(template.subrange(from, end), false) + seq!['/'] + segments_regex(
            template,
            end + 1,
        )
    } else if 0 <= from <= template.len() {
        segment_regex(template.subrange(from, template.len() as int), true)
    } else {
        Seq::empty()
    }
}

/// The text of the regular expression that a path template compiles to: the
/// expressions of its segments, anchored to the whole path.
pub open spec fn regex_text(template: Seq<char>) -> Seq<char> {
    seq!['^'] + segments_regex(template, 0) + seq!['$']
}

/// The expression of a template is anchored at both ends: it matches a path
/// as a whole or not at all.
pub proof fn lemma_regex_text_is_anchored(template: Seq<char>)
    ensures
        regex_text(template).len() >= 2,
        regex_text(template).first() == '^',
        regex_text(template).last() == '$',
{
}

/// Writes the regular expression for a path template.
pub fn create_regex_pattern(pattern: &str) -> (text: String)
    ensures
        text@ == regex_text(pattern@),
{
    let chars = to_chars(pattern);
    let n = chars.len();
    let mut text = String::from_str("^");
    let mut start: usize = 0;
    proof {
        reveal_strlit("^");
        assert("^"@ =~= seq!['^']);
    }
    loop
        invariant_except_break
            start <= n,
            text@ + segments_regex(chars@, start as int) == seq!['^'] + segments_regex(chars@, 0),
        invariant
            chars@ == pattern@,
            n == chars.len(),
        ensures
            text@ == seq!['^'] + segments_regex(chars@, 0),
        decreases n - start,
    {
        let end = scan_for(&chars, '/', start);
        let last = end == n;
        let segment = pattern.substring_char(start, end);
        let ghost before = text@;
        let ghost rest = segments_regex(chars@, start as int);
        if start < end && chars[start] == ':' {
            let name = pattern.substring_char(start + 1, end);
            assert(name@ =~= segment@.skip(1));
            text.append("(?P<");
            text.append(name);
            text.append(">\\w+)");
            assert(text@ =~= before + segment_regex(segment@, last));
        } else if last && start < end && chars[start] == '*' {
            let name = pattern.substring_char(start + 1, end);
            assert(name@ =~= segment@.skip(1));
            text.append("(?P<");
            text.append(name);
            text.append(">.*)");
            assert(text@ =~= before + segment_regex(segment@, last));
        } else {
            let quoted = escape(segment);
            text.append(quoted.as_str());
            assert(text@ =~= before + segment_regex(segment@, last));
        }
        if last {
            proof {
                assert(segment@ =~= chars@.subrange(start as int, n as int));
                assert(rest == segment_regex(segment@, true));
                assert(text@ =~= before + rest);
            }
            break ;
        }
        text.append("/");
        proof {
            reveal_strlit("/");
            assert("/"@ =~= seq!['/']);
            assert(rest == segment_regex(segment@, false) + seq!['/'] + segments_regex(
                chars@,
                end + 1,
            ));
            assert(text@ + segments_regex(chars@, end + 1) =~= before + rest);
        }
        start = end + 1;
    }
    text.append("$");
    proof {
        reveal_strlit("$");
        assert("$"@ =~= seq!['$']);
        assert(text@ =~= regex_text(pattern@));
    }
    text
}

} // verus!
