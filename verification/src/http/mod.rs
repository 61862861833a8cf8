//! The request and response values and their textual wire formats.

mod fields;
mod laws;
mod method;
mod request;
mod response;

pub use fields::{
    distinct_keys, has_key, insert_entry, key_index, lemma_insert_entry, lemma_to_map_entries,
    lemma_to_map_len, to_map, Fields,
};
pub use laws::{
    headers_on_lines, is_word, lemma_parse_round_trip, lemma_parse_round_trip_headers,
    names_hold_no_separator, on_one_line, request_line, request_text,
};
pub use method::HttpMethod;
pub use request::{
    blank_line, header_separator, headers_from, line_break, line_end, parse_request, Request,
    RequestModel, RequestTrait,
};
pub use response::{
    decimal, default_headers, digit, header_lines, line_ending, plain, response_text,
    status_text,
    Response, ResponseModel, ResponseTrait, STATUS_OK,
};
