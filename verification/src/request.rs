//! The requests that the library asks to be sent to the budget service.

use vstd::prelude::*;
use vstd::utf8::encode_utf8;

verus! {

/// An HTTP request: method, target URI and headers, in the order they are set.
#[derive(Debug)]
pub struct HttpRequest {
    pub method: String,
    pub uri: String,
    pub headers: Vec<(String, String)>,
}

/// The request as text.
pub struct HttpRequestView {
    pub method: Seq<char>,
    pub uri: Seq<char>,
    pub headers: Seq<(Seq<char>, Seq<char>)>,
}

impl View for HttpRequest {
    type V = HttpRequestView;

    open spec fn view(&self) -> HttpRequestView {
        HttpRequestView {
            method: self.method@,
            uri: self.uri@,
            headers: self.headers@.map_values(|h: (String, String)| (h.0@, h.1@)),
        }
    }
}

/// A byte that the http crate accepts in a header value (its `HeaderValue` check):
/// a tab, or any byte from 32 on other than 127.
pub open spec fn header_byte_valid(b: u8) -> bool {
    (b >= 32 && b != 127) || b == 9
}

/// Every byte of the UTF-8 text `v` may stand in a header value.
pub open spec fn header_value_valid(v: Seq<char>) -> bool {
    forall|i: int| 0 <= i < encode_utf8(v).len() ==> header_byte_valid(#[trigger] encode_utf8(v)[i])
}

/// Every header value of the request may stand in a header; the request can then be
/// built (its method and header names are fixed ones that the http crate accepts).
pub open spec fn headers_valid(r: HttpRequestView) -> bool {
    forall|i: int| 0 <= i < r.headers.len() ==> header_value_valid(#[trigger] r.headers[i].1)
}

/// Whether every byte of `v` may stand in a header value.
pub fn header_value_test(v: &str) -> (b: bool)
    ensures
        b == header_value_valid(v@),
{
    let bytes = v.as_bytes();
    for i in 0..bytes.len()
        invariant
            bytes@ == encode_utf8(v@),
            forall|j: int| 0 <= j < i ==> header_byte_valid(#[trigger] bytes@[j]),
    {
        let x = bytes[i];
        if !((x >= 32 && x != 127) || x == 9) {
            return false;
        }
    }
    true
}

/// Whether every header value of `r` may stand in a header.
pub fn headers_valid_test(r: &HttpRequest) -> (b: bool)
    ensures
        b == headers_valid(r@),
{
    for i in 0..r.headers.len()
        invariant
            forall|j: int| 0 <= j < i ==> header_value_valid(#[trigger] r@.headers[j].1),
    {
        assert(r@.headers[i as int].1 == r.headers@[i as int].1@);
        if !header_value_test(r.headers[i].1.as_str()) {
            return false;
        }
    }
    true
}

/// Law: the header byte rule, over all bytes: a tab, or any byte of 32 or more but
/// 127, and nothing else.
pub proof fn lemma_header_byte_rule(b: u8)
    ensures
        header_byte_valid(b) <==> (b == 9 || (32 <= b && b != 127)),
{
}

/// Law: any text of printable ASCII characters (letters, digits, spaces and
/// punctuation) may stand in a header value.
pub proof fn lemma_printable_ascii_header_value(v: Seq<char>)
    requires
        forall|i: int| 0 <= i < v.len() ==> ' ' <= #[trigger] v[i] <= '~',
    ensures
        header_value_valid(v),
{
    assert(vstd::utf8::is_ascii_chars(v));
    vstd::utf8::is_ascii_chars_encode_utf8(v);
    assert forall|i: int| 0 <= i < encode_utf8(v).len() implies header_byte_valid(#[trigger] encode_utf8(v)[i]) by {
        assert(v[i] as u8 == encode_utf8(v)[i]);
        assert(' ' <= v[i] <= '~');
    }
}

} // verus!
