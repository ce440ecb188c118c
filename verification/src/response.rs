//! Response building and serialization.
//!
//! The builder always answers with the same fixed payload under protocol
//! label HTTP/2 and status 200, echoing the requested path for observability.
//! `serialize` produces the exact wire form: five header lines, one blank
//! line, then the body verbatim.

use vstd::prelude::*;

use crate::request::{version_label, HttpRequest, Version};
use crate::text::is_2crlf_at;
use vstd::utf8::encode_utf8;

verus! {

/// The response status.
#[derive(Debug, Clone, Copy, PartialEq, Eq, Structural)]
pub enum ResponseStatus {
    OK,
    NotFound,
}

/// The wire rendering of a status: its code, then its reason phrase.
pub open spec fn status_label(s: ResponseStatus) -> Seq<char> {
    match s {
        ResponseStatus::OK => "200 OK"@,
        ResponseStatus::NotFound => "404 Not Found"@,
    }
}

impl ResponseStatus {
    /// The numeric status code.
    pub fn code(&self) -> (r: u16)
        ensures
            *self == ResponseStatus::OK ==> r == 200,
            *self == ResponseStatus::NotFound ==> r == 404,
    {
        match self {
            ResponseStatus::OK => 200,
            ResponseStatus::NotFound => 404,
        }
    }

    /// The wire rendering: code and reason phrase.
    pub fn label(&self) -> (r: &'static str)
        ensures
            r@ == status_label(*self),
    {
        match self {
            ResponseStatus::OK => "200 OK",
            ResponseStatus::NotFound => "404 Not Found",
        }
    }
}

/// Whether byte-range requests are supported.
#[derive(Debug, Clone, Copy, PartialEq, Eq, Structural)]
pub enum AcceptRanges {
    Bytes,
    NoRanges,
}

/// The wire rendering of the Accept-Ranges header line.
pub open spec fn ranges_label(a: AcceptRanges) -> Seq<char> {
    match a {
        AcceptRanges::Bytes => "Accept-Ranges: bytes"@,
        AcceptRanges::NoRanges => "Accept-Ranges: none"@,
    }
}

impl AcceptRanges {
    /// The wire rendering of the whole header line.
    pub fn label(&self) -> (r: &'static str)
        ensures
            r@ == ranges_label(*self),
    {
        match self {
            AcceptRanges::Bytes => "Accept-Ranges: bytes",
            AcceptRanges::NoRanges => "Accept-Ranges: none",
        }
    }
}

/// The digit character for a value below ten.
pub open spec fn digit_char(d: nat) -> char {
    if d == 0 {
        '0'
    } else if d == 1 {
        '1'
    } else if d == 2 {
        '2'
    } else if d == 3 {
        '3'
    } else if d == 4 {
        '4'
    } else if d == 5 {
        '5'
    } else if d == 6 {
        '6'
    } else if d == 7 {
        '7'
    } else if d == 8 {
        '8'
    } else {
        '9'
    }
}

/// The decimal rendering of `n`, most significant digit first, no sign and
/// no leading zero except for zero itself.
pub open spec fn dec_str(n: nat) -> Seq<char>
    decreases n,
{
    if n < 10 {
        seq![digit_char(n)]
    } else {
        dec_str(n / 10) + seq![digit_char(n % 10)]
    }
}

/// The one-character string for a digit value.
fn digit_literal(d: usize) -> (r: &'static str)
    requires
        d < 10,
    ensures
        r@ == seq![digit_char(d as nat)],
{
    let r: &'static str = if d == 0 {
        "0"
    } else if d == 1 {
        "1"
    } else if d == 2 {
        "2"
    } else if d == 3 {
        "3"
    } else if d == 4 {
        "4"
    } else if d == 5 {
        "5"
    } else if d == 6 {
        "6"
    } else if d == 7 {
        "7"
    } else if d == 8 {
        "8"
    } else {
        "9"
    };
    proof {
        reveal_strlit("0");
        reveal_strlit("1");
        reveal_strlit("2");
        reveal_strlit("3");
        reveal_strlit("4");
        reveal_strlit("5");
        reveal_strlit("6");
        reveal_strlit("7");
        reveal_strlit("8");
        reveal_strlit("9");
        assert(r@ =~= seq![digit_char(d as nat)]);
    }
    r
}

/// Render `n` in decimal.
pub fn usize_to_decimal(n: usize) -> (r: String)
    ensures
        r@ == dec_str(n as nat),
    decreases n,
{
    if n < 10 {
        digit_literal(n).to_owned()
    } else {
        let mut s = usize_to_decimal(n / 10);
        s.append(digit_literal(n % 10));
        proof {
            assert(s@ =~= dec_str(n as nat));
        }
        s
    }
}

/// The fixed descriptive payload every response carries.
pub open spec fn payload() -> Seq<char> {
    "\n[package]\nname = \"simple-http\"\nversion = \"0.1.0\"\nedition = \"2021\"\n\n[dependencies]\n"@
}

/// The byte length of a text: the length of its UTF-8 encoding.
pub open spec fn byte_len(s: Seq<char>) -> nat {
    encode_utf8(s).len()
}

/// A built response: protocol label, status, content length, range policy,
/// body, the echoed request path, and the serving entity's name and version.
#[derive(Debug)]
pub struct HttpResponse {
    pub version: Version,
    pub status: ResponseStatus,
    pub content_length: usize,
    pub accept_ranges: AcceptRanges,
    pub response_body: String,
    pub current_path: String,
    pub package_name: String,
    pub package_version: String,
}

/// What the builder promises of every response built for a request whose
/// path is `path`: fixed label, status and payload; a content length equal
/// to the byte length of the body; and the path echoed.
pub open spec fn built_from(r: HttpResponse, path: Seq<char>) -> bool {
    &&& r.version == Version::V2_0
    &&& r.status == ResponseStatus::OK
    &&& r.accept_ranges == AcceptRanges::NoRanges
    &&& r.response_body@ == payload()
    &&& r.content_length == byte_len(r.response_body@)
    &&& r.current_path@ == path
    &&& r.package_name@ == "simple-http"@
    &&& r.package_version@ == "0.1.0"@
}

impl HttpResponse {
    /// Build the response for a parsed request: always the fixed payload,
    /// status 200 under the HTTP/2 label, with the request's path echoed.
    pub fn new(request: HttpRequest) -> (r: HttpResponse)
        ensures
            built_from(r, request.resource.path@),
    {
        let body: &'static str =
            "\n[package]\nname = \"simple-http\"\nversion = \"0.1.0\"\nedition = \"2021\"\n\n[dependencies]\n";
        let content_length = body.len();
        proof {
            reveal_strlit(
                "\n[package]\nname = \"simple-http\"\nversion = \"0.1.0\"\nedition = \"2021\"\n\n[dependencies]\n",
            );
            assert(vstd::utf8::is_ascii_chars(payload()));
            vstd::utf8::is_ascii_chars_encode_utf8(payload());
        }
        HttpResponse {
            version: Version::V2_0,
            status: ResponseStatus::OK,
            content_length,
            accept_ranges: AcceptRanges::NoRanges,
            response_body: body.to_owned(),
            current_path: request.resource.path,
            package_name: "simple-http".to_owned(),
            package_version: "0.1.0".to_owned(),
        }
    }
}

/// The exact wire form of a response: status line, Content-Length line,
/// Accept-Ranges line, the two identification lines, a blank line, then the
/// body verbatim.
pub open spec fn wire(r: HttpResponse) -> Seq<char> {
    version_label(r.version) + " "@ + status_label(r.status) + "\r\n"@ + "Content-Length: "@
        + dec_str(r.content_length as nat) + "\r\n"@ + ranges_label(r.accept_ranges) + "\r\n"@
        + "X-Package-Name: "@ + r.package_name@ + "\r\n"@ + "X-Package-Version: "@
        + r.package_version@ + "\r\n"@ + "\r\n"@ + r.response_body@
}

impl HttpResponse {
    /// Serialize the response to its wire form.
    pub fn serialize(&self) -> (r: String)
        ensures
            r@ == wire(*self),
    {
        let mut s = String::new();
        s.append(self.version.label());
        s.append(" ");
        s.append(self.status.label());
        s.append("\r\n");
        s.append("Content-Length: ");
        let d = usize_to_decimal(self.content_length);
        s.append(d.as_str());
        s.append("\r\n");
        s.append(self.accept_ranges.label());
        s.append("\r\n");
        s.append("X-Package-Name: ");
        s.append(self.package_name.as_str());
        s.append("\r\n");
        s.append("X-Package-Version: ");
        s.append(self.package_version.as_str());
        s.append("\r\n");
        s.append("\r\n");
        s.append(self.response_body.as_str());
        proof {
            assert(s@ =~= wire(*self));
        }
        s
    }
}

impl HttpRequest {
    /// Build the response for this request.
    pub fn response(self) -> (r: HttpResponse)
        ensures
            built_from(r, self.resource.path@),
    {
        HttpResponse::new(self)
    }
}

/// No carriage return and no line feed occurs in `s`.
pub open spec fn no_crlf_chars(s: Seq<char>) -> bool {
    forall|i: int| 0 <= i < s.len() ==> s[i] != '\r' && s[i] != '\n'
}

/// No carriage return occurs in `s`.
pub open spec fn no_cr_chars(s: Seq<char>) -> bool {
    forall|i: int| 0 <= i < s.len() ==> s[i] != '\r'
}

/// A CRLF pair as a character sequence.
pub open spec fn crlf_seq() -> Seq<char> {
    seq!['\r', '\n']
}

/// A decimal rendering holds digit characters only.
proof fn lemma_dec_str_no_crlf(n: nat)
    ensures
        no_crlf_chars(dec_str(n)),
    decreases n,
{
    if n < 10 {
    } else {
        lemma_dec_str_no_crlf(n / 10);
        assert forall|i: int| 0 <= i < dec_str(n).len() implies dec_str(n)[i] != '\r' && dec_str(
            n,
        )[i] != '\n' by {
            if i >= dec_str(n / 10).len() {
                assert(dec_str(n)[i] == digit_char(n % 10));
            }
        }
    }
}

/// Concatenation preserves the absence of CR and LF.
proof fn lemma_no_crlf_concat(a: Seq<char>, b: Seq<char>)
    requires
        no_crlf_chars(a),
        no_crlf_chars(b),
    ensures
        no_crlf_chars(a + b),
{
    assert forall|i: int| 0 <= i < (a + b).len() implies (a + b)[i] != '\r' && (a + b)[i]
        != '\n' by {
        if i < a.len() {
            assert((a + b)[i] == a[i]);
        } else {
            assert((a + b)[i] == b[i - a.len()]);
        }
    }
}

/// In a line without CR or LF, followed by a blank-line separator and a body
/// without CR, the separator is the only one.
proof fn lemma_sep_block(l: Seq<char>, b: Seq<char>)
    requires
        no_crlf_chars(l),
        no_cr_chars(b),
    ensures
        forall|i: int| is_2crlf_at(l + crlf_seq() + crlf_seq() + b, i) <==> i == l.len(),
{
    let q = l + crlf_seq() + crlf_seq() + b;
    assert forall|i: int| is_2crlf_at(q, i) <==> i == l.len() by {
        if i == l.len() {
            assert(q[i] == '\r' && q[i + 1] == '\n' && q[i + 2] == '\r' && q[i + 3] == '\n');
            assert(is_2crlf_at(q, i));
        } else if 0 <= i && i + 4 <= q.len() {
            if i < l.len() {
                assert(q[i] == l[i]);
                assert(!is_2crlf_at(q, i));
            } else if i == l.len() + 1 || i == l.len() + 3 {
                assert(q[i] == '\n');
                assert(!is_2crlf_at(q, i));
            } else if i == l.len() + 2 {
                assert(q[i + 2] == b[0]);
                assert(!is_2crlf_at(q, i));
            } else {
                assert(q[i] == b[i - l.len() - 4]);
                assert(!is_2crlf_at(q, i));
            }
        }
    }
}

/// Prepending a CR-free, LF-free line and its CRLF terminator moves the one
/// blank-line separator of `s` two characters past the line's end.
proof fn lemma_prepend_line(l: Seq<char>, s: Seq<char>, p: int)
    requires
        no_crlf_chars(l),
        s.len() > 0,
        s[0] != '\r',
        forall|i: int| is_2crlf_at(s, i) <==> i == p,
    ensures
        forall|i: int| is_2crlf_at(l + crlf_seq() + s, i) <==> i == l.len() + 2 + p,
{
    let q = l + crlf_seq() + s;
    assert(is_2crlf_at(s, p));
    assert forall|i: int| is_2crlf_at(q, i) <==> i == l.len() + 2 + p by {
        if i >= l.len() + 2 {
            let j = i - l.len() - 2;
            if j + 4 <= s.len() {
                assert(q[i] == s[j] && q[i + 1] == s[j + 1] && q[i + 2] == s[j + 2] && q[i + 3]
                    == s[j + 3]);
            }
            assert(is_2crlf_at(q, i) <==> is_2crlf_at(s, j));
        } else if 0 <= i && i + 4 <= q.len() {
            if i < l.len() {
                assert(q[i] == l[i]);
                assert(!is_2crlf_at(q, i));
            } else if i == l.len() {
                assert(q[i + 2] == s[0]);
                assert(!is_2crlf_at(q, i));
            } else {
                assert(q[i] == '\n');
                assert(!is_2crlf_at(q, i));
            }
        }
    }
}

/// The serialized response of the builder begins with the fixed status line
/// `HTTP/2 200 OK` and holds exactly one blank-line separator, standing
/// immediately before the body.
pub proof fn lemma_wire_single_separator(r: HttpResponse, path: Seq<char>)
    requires
        built_from(r, path),
    ensures
        wire(r).len() >= 15,
        wire(r).subrange(0, 15) == "HTTP/2 200 OK\r\n"@,
        forall|i: int|
            is_2crlf_at(wire(r), i) <==> i == wire(r).len() - payload().len() - 4,
{
    reveal_strlit("HTTP/2");
    reveal_strlit(" ");
    reveal_strlit("200 OK");
    reveal_strlit("\r\n");
    reveal_strlit("Content-Length: ");
    reveal_strlit("Accept-Ranges: none");
    reveal_strlit("X-Package-Name: ");
    reveal_strlit("simple-http");
    reveal_strlit("X-Package-Version: ");
    reveal_strlit("0.1.0");
    reveal_strlit("HTTP/2 200 OK\r\n");
    reveal_strlit(
        "\n[package]\nname = \"simple-http\"\nversion = \"0.1.0\"\nedition = \"2021\"\n\n[dependencies]\n",
    );
    let l1 = version_label(r.version) + " "@ + status_label(r.status);
    let l2 = "Content-Length: "@ + dec_str(r.content_length as nat);
    let l3 = ranges_label(r.accept_ranges);
    let l4 = "X-Package-Name: "@ + r.package_name@;
    let l5 = "X-Package-Version: "@ + r.package_version@;
    let b = r.response_body@;
    lemma_dec_str_no_crlf(r.content_length as nat);
    assert(no_crlf_chars("HTTP/2"@));
    assert(no_crlf_chars(" "@));
    assert(no_crlf_chars("200 OK"@));
    assert(no_crlf_chars("Content-Length: "@));
    assert(no_crlf_chars("Accept-Ranges: none"@));
    assert(no_crlf_chars("X-Package-Name: "@));
    assert(no_crlf_chars("simple-http"@));
    assert(no_crlf_chars("X-Package-Version: "@));
    assert(no_crlf_chars("0.1.0"@));
    assert(no_cr_chars(b));
    lemma_no_crlf_concat("HTTP/2"@, " "@);
    lemma_no_crlf_concat("HTTP/2"@ + " "@, "200 OK"@);
    lemma_no_crlf_concat("Content-Length: "@, dec_str(r.content_length as nat));
    lemma_no_crlf_concat("X-Package-Name: "@, r.package_name@);
    lemma_no_crlf_concat("X-Package-Version: "@, r.package_version@);
    let s5 = l5 + crlf_seq() + crlf_seq() + b;
    lemma_sep_block(l5, b);
    let s4 = l4 + crlf_seq() + s5;
    assert(s5[0] == l5[0]);
    lemma_prepend_line(l4, s5, l5.len() as int);
    let s3 = l3 + crlf_seq() + s4;
    assert(s4[0] == l4[0]);
    lemma_prepend_line(l3, s4, l4.len() + 2 + l5.len() as int);
    let s2 = l2 + crlf_seq() + s3;
    assert(s3[0] == l3[0]);
    lemma_prepend_line(l2, s3, l3.len() + 2 + l4.len() + 2 + l5.len() as int);
    let s1 = l1 + crlf_seq() + s2;
    assert(s2[0] == l2[0]);
    lemma_prepend_line(l1, s2, l2.len() + 2 + l3.len() + 2 + l4.len() + 2 + l5.len() as int);
    assert("\r\n"@ =~= crlf_seq());
    assert(wire(r) =~= s1);
    assert(wire(r).subrange(0, 15) =~= "HTTP/2 200 OK\r\n"@);
}

} // verus!
