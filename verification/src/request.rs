//! Request parsing: one raw text buffer in, a structured request out.
//!
//! The first line of the buffer (everything before the first CRLF) carries
//! method, path and protocol version. The lines after it, up to the first
//! empty line, carry the headers. Everything after the first blank-line
//! separator is the body. All malformed parts degrade to defaults; only a
//! missing protocol version is an error.

use vstd::prelude::*;

use crate::text::{
    find_2crlf_from, find_char_from, find_crlf_from, is_ws, trim_seq, find_2crlf_at, find_char_at,
    find_crlf_at, trim_str, str_eq, ws_char,
};

verus! {

/// The first line of the buffer: what stands before the first CRLF, if any.
pub open spec fn first_line_of(buf: Seq<char>) -> Option<Seq<char>> {
    match find_crlf_from(buf, 0) {
        Some(i) => Some(buf.subrange(0, i)),
        None => None,
    }
}

/// The request method named by the first token of the first line.
#[derive(Debug, Clone, Copy, PartialEq, Eq, Structural)]
pub enum Method {
    Get,
    Post,
    Unrecognized,
}

/// The method the parser extracts from `buf`: the token before the first
/// space of the first line, if it is a recognized method name.
pub open spec fn method_of(buf: Seq<char>) -> Method {
    match first_line_of(buf) {
        None => Method::Unrecognized,
        Some(line) => match find_char_from(line, ' ', 0) {
            None => Method::Unrecognized,
            Some(k) => {
                let tok = line.subrange(0, k);
                if tok == "GET"@ {
                    Method::Get
                } else if tok == "POST"@ {
                    Method::Post
                } else {
                    Method::Unrecognized
                }
            },
        },
    }
}

impl Method {
    /// Extract the method from a raw request buffer.
    pub fn new(request: &str) -> (m: Method)
        ensures
            m == method_of(request@),
    {
        match find_crlf_at(request, 0) {
            None => Method::Unrecognized,
            Some(e) => {
                let line = request.substring_char(0, e);
                match find_char_at(line, ' ', 0) {
                    None => Method::Unrecognized,
                    Some(k) => {
                        let tok = line.substring_char(0, k);
                        if str_eq(tok, "GET") {
                            Method::Get
                        } else if str_eq(tok, "POST") {
                            Method::Post
                        } else {
                            Method::Unrecognized
                        }
                    },
                }
            },
        }
    }
}

/// The protocol version named in the first line.
#[derive(Debug, Clone, Copy, PartialEq, Eq, Structural)]
pub enum Version {
    V1_1,
    V2_0,
}

/// The wire label of a version.
pub open spec fn version_label(v: Version) -> Seq<char> {
    match v {
        Version::V1_1 => "HTTP/1.1"@,
        Version::V2_0 => "HTTP/2"@,
    }
}

/// End of the whitespace-delimited token starting at `i`: the first index at
/// or after `i` holding whitespace, or the end of the line.
pub open spec fn tok_end(line: Seq<char>, i: int) -> int
    decreases line.len() - i,
{
    if i < 0 || i >= line.len() || is_ws(line[i]) {
        i
    } else {
        tok_end(line, i + 1)
    }
}

/// A whitespace-delimited token starts at index `i` of `line`.
pub open spec fn is_token_start(line: Seq<char>, i: int) -> bool {
    0 <= i < line.len() && !is_ws(line[i]) && (i == 0 || is_ws(line[i - 1]))
}

/// The version named by the token starting at `i`, if it is a recognized
/// protocol literal.
pub open spec fn version_at(line: Seq<char>, i: int) -> Option<Version> {
    let tok = line.subrange(i, tok_end(line, i));
    if tok == "HTTP/1.1"@ {
        Some(Version::V1_1)
    } else if tok == "HTTP/2"@ || tok == "HTTP/2.0"@ {
        Some(Version::V2_0)
    } else {
        None
    }
}

/// Scan the line left to right from `i`; the first whitespace-delimited token
/// that is a recognized protocol literal decides the version.
pub open spec fn scan_version(line: Seq<char>, i: int) -> Option<Version>
    decreases line.len() - i,
{
    if i < 0 || i >= line.len() {
        None
    } else if is_token_start(line, i) && version_at(line, i) is Some {
        version_at(line, i)
    } else {
        scan_version(line, i + 1)
    }
}

/// The version the parser extracts from `buf`, if any token of the first
/// line names one.
pub open spec fn version_of(buf: Seq<char>) -> Option<Version> {
    match first_line_of(buf) {
        None => None,
        Some(line) => scan_version(line, 0),
    }
}

/// The message carried by a version failure: a fixed prefix, then the
/// offending buffer verbatim.
pub open spec fn version_err_msg(buf: Seq<char>) -> Seq<char> {
    "Unknown Protocol Version in "@ + buf
}

/// The failure raised when no recognized protocol token stands in the first
/// line. Its message holds the whole offending buffer.
#[derive(Debug)]
pub struct VersionError {
    pub msg: String,
}

impl Version {
    /// Extract the version from a raw request buffer. Fails exactly when no
    /// token of the first line is a recognized protocol literal.
    pub fn new(request: &str) -> (r: Result<Version, VersionError>)
        ensures
            r is Ok <==> version_of(request@) is Some,
            r matches Ok(v) ==> version_of(request@) == Some(v),
            r matches Err(e) ==> e.msg@ == version_err_msg(request@),
    {
        match find_crlf_at(request, 0) {
            None => Err(VersionError { msg: version_err_string(request) }),
            Some(e) => {
                let line = request.substring_char(0, e);
                let n = line.unicode_len();
                let mut i: usize = 0;
                while i < n
                    invariant
                        0 <= i <= n,
                        n == line@.len(),
                        first_line_of(request@) == Some(line@),
                        scan_version(line@, 0) == scan_version(line@, i as int),
                    decreases n - i,
                {
                    let c = line.get_char(i);
                    let start = !ws_char(c) && (i == 0 || ws_char(line.get_char(i - 1)));
                    if start {
                        let mut j = i + 1;
                        while j < n && !ws_char(line.get_char(j))
                            invariant
                                i < j <= n,
                                n == line@.len(),
                                tok_end(line@, i as int) == tok_end(line@, j as int),
                            decreases n - j,
                        {
                            j = j + 1;
                        }
                        proof {
                            assert(tok_end(line@, j as int) == j as int);
                        }
                        let tok = line.substring_char(i, j);
                        if str_eq(tok, "HTTP/1.1") {
                            proof {
                                assert(scan_version(line@, i as int) == Some(Version::V1_1));
                            }
                            return Ok(Version::V1_1);
                        } else if str_eq(tok, "HTTP/2") || str_eq(tok, "HTTP/2.0") {
                            proof {
                                assert(scan_version(line@, i as int) == Some(Version::V2_0));
                            }
                            return Ok(Version::V2_0);
                        }
                        proof {
                            assert(version_at(line@, i as int) is None);
                        }
                    }
                    i = i + 1;
                }
                proof {
                    assert(scan_version(line@, n as int) is None);
                }
                Err(VersionError { msg: version_err_string(request) })
            },
        }
    }

    /// The wire label of this version.
    pub fn label(&self) -> (r: &'static str)
        ensures
            r@ == version_label(*self),
    {
        match self {
            Version::V1_1 => "HTTP/1.1",
            Version::V2_0 => "HTTP/2",
        }
    }
}

/// Build the message of a version failure for `request`.
fn version_err_string(request: &str) -> (r: String)
    ensures
        r@ == version_err_msg(request@),
{
    "Unknown Protocol Version in ".to_owned().concat(request)
}

/// If a recognized protocol token stands at `i` in the first line, parsing
/// the version succeeds; and if no recognized token stands before `i`, that
/// token decides the result.
pub proof fn lemma_version_first_token_wins(buf: Seq<char>, line: Seq<char>, i: int)
    requires
        first_line_of(buf) == Some(line),
        is_token_start(line, i),
        version_at(line, i) is Some,
    ensures
        version_of(buf) is Some,
        (forall|k: int| 0 <= k < i ==> !(is_token_start(line, k) && version_at(line, k) is Some))
            ==> version_of(buf) == version_at(line, i),
{
    lemma_scan_version_some(line, 0, i);
    if forall|k: int| 0 <= k < i ==> !(is_token_start(line, k) && version_at(line, k) is Some) {
        lemma_scan_version_first(line, 0, i);
    }
}

proof fn lemma_scan_version_some(line: Seq<char>, s: int, i: int)
    requires
        0 <= s <= i,
        is_token_start(line, i),
        version_at(line, i) is Some,
    ensures
        scan_version(line, s) is Some,
    decreases i - s,
{
    if s < i && !(is_token_start(line, s) && version_at(line, s) is Some) {
        lemma_scan_version_some(line, s + 1, i);
    }
}

proof fn lemma_scan_version_first(line: Seq<char>, s: int, i: int)
    requires
        0 <= s <= i,
        is_token_start(line, i),
        version_at(line, i) is Some,
        forall|k: int| s <= k < i ==> !(is_token_start(line, k) && version_at(line, k) is Some),
    ensures
        scan_version(line, s) == version_at(line, i),
    decreases i - s,
{
    if s < i {
        lemma_scan_version_first(line, s + 1, i);
    }
}

/// The requested path: the second whitespace-delimited token of the first
/// line, trimmed, with one leading separator stripped.
#[derive(Debug)]
pub struct Resource {
    pub path: String,
}

/// `t` with a single leading path separator removed, if one stands there.
pub open spec fn strip_leading_slash(t: Seq<char>) -> Seq<char> {
    if t.len() > 0 && t[0] == '/' {
        t.subrange(1, t.len() as int)
    } else {
        t
    }
}

/// The first line decomposes into at least three space-separated fields, so
/// a path token is present.
pub open spec fn resource_present(buf: Seq<char>) -> bool {
    match first_line_of(buf) {
        None => false,
        Some(line) => match find_char_from(line, ' ', 0) {
            None => false,
            Some(k) => find_char_from(line.subrange(k + 1, line.len() as int), ' ', 0) is Some,
        },
    }
}

/// The path the parser extracts from `buf`: the token between the first and
/// second space of the first line, trimmed and with one leading separator
/// stripped; the root default (the empty path) when no such token exists.
pub open spec fn path_of(buf: Seq<char>) -> Seq<char> {
    match first_line_of(buf) {
        None => Seq::empty(),
        Some(line) => match find_char_from(line, ' ', 0) {
            None => Seq::empty(),
            Some(k) => {
                let rest = line.subrange(k + 1, line.len() as int);
                match find_char_from(rest, ' ', 0) {
                    None => Seq::empty(),
                    Some(m) => strip_leading_slash(trim_seq(rest.subrange(0, m))),
                }
            },
        },
    }
}

impl Resource {
    /// Extract the path token from a raw request buffer, or nothing when the
    /// first line does not decompose into three fields.
    pub fn new(request: &str) -> (r: Option<Resource>)
        ensures
            r is Some <==> resource_present(request@),
            r matches Some(res) ==> res.path@ == path_of(request@),
            r is None ==> path_of(request@) == Seq::<char>::empty(),
    {
        match find_crlf_at(request, 0) {
            None => None,
            Some(e) => {
                let line = request.substring_char(0, e);
                match find_char_at(line, ' ', 0) {
                    None => None,
                    Some(k) => {
                        let rest = line.substring_char(k + 1, line.unicode_len());
                        match find_char_at(rest, ' ', 0) {
                            None => None,
                            Some(m) => {
                                let t = trim_str(rest.substring_char(0, m));
                                let tn = t.unicode_len();
                                let stripped = if tn > 0 && t.get_char(0) == '/' {
                                    t.substring_char(1, tn)
                                } else {
                                    t
                                };
                                Some(Resource { path: stripped.to_owned() })
                            },
                        }
                    },
                }
            },
        }
    }
}

/// The header map built from a list of name/value pairs, later pairs
/// overwriting earlier ones.
spec fn pairs_map(ps: Seq<(String, String)>) -> Map<Seq<char>, Seq<char>>
    decreases ps.len(),
{
    if ps.len() == 0 {
        Map::empty()
    } else {
        pairs_map(ps.drop_last()).insert(ps.last().0@, ps.last().1@)
    }
}

/// Fold the header lines of `s` into `acc`: one line per CRLF, stopping at
/// the first empty line; a line without a colon is skipped; otherwise the
/// trimmed name and trimmed value are inserted, overwriting earlier ones.
pub open spec fn fold_headers(s: Seq<char>, acc: Map<Seq<char>, Seq<char>>) -> Map<
    Seq<char>,
    Seq<char>,
>
    decreases s.len(),
    via fold_headers_dec
{
    if s.len() == 0 {
        acc
    } else {
        let line = match find_crlf_from(s, 0) {
            Some(i) => s.subrange(0, i),
            None => s,
        };
        let rest = match find_crlf_from(s, 0) {
            Some(i) => s.subrange(i + 2, s.len() as int),
            None => Seq::<char>::empty(),
        };
        if line.len() == 0 {
            acc
        } else {
            match find_char_from(line, ':', 0) {
                None => fold_headers(rest, acc),
                Some(c) => fold_headers(
                    rest,
                    acc.insert(
                        trim_seq(line.subrange(0, c)),
                        trim_seq(line.subrange(c + 1, line.len() as int)),
                    ),
                ),
            }
        }
    }
}

#[via_fn]
proof fn fold_headers_dec(s: Seq<char>, acc: Map<Seq<char>, Seq<char>>) {
    crate::text::lemma_find_crlf_first(s, 0);
}

/// One step of the header fold: splitting off the first line of `s` and
/// handling it relates `fold_headers` on `s` to `fold_headers` on the rest.
proof fn lemma_fold_headers_line(
    s: Seq<char>,
    m: Map<Seq<char>, Seq<char>>,
    line: Seq<char>,
    next: Seq<char>,
)
    requires
        s.len() > 0,
        line.len() > 0,
        match find_crlf_from(s, 0) {
            Some(i) => line == s.subrange(0, i) && next == s.subrange(i + 2, s.len() as int),
            None => line == s && next.len() == 0,
        },
    ensures
        match find_char_from(line, ':', 0) {
            None => fold_headers(s, m) == fold_headers(next, m),
            Some(c) => fold_headers(s, m) == fold_headers(
                next,
                m.insert(trim_seq(line.subrange(0, c)), trim_seq(line.subrange(c + 1, line.len() as int))),
            ),
        },
{
    if find_crlf_from(s, 0) is None {
        assert(next =~= Seq::<char>::empty());
    }
}

/// The header map the parser extracts from `buf`: built from the lines after
/// the first CRLF, up to the first empty line.
pub open spec fn headers_of(buf: Seq<char>) -> Map<Seq<char>, Seq<char>> {
    match find_crlf_from(buf, 0) {
        Some(i) => fold_headers(buf.subrange(i + 2, buf.len() as int), Map::empty()),
        None => Map::empty(),
    }
}

/// The parsed header block: a mapping from trimmed header names to trimmed
/// header values, the last occurrence of a name winning.
#[derive(Debug)]
pub struct HttpHeader {
    pairs: Vec<(String, String)>,
}

impl View for HttpHeader {
    type V = Map<Seq<char>, Seq<char>>;

    closed spec fn view(&self) -> Map<Seq<char>, Seq<char>> {
        pairs_map(self.pairs@)
    }
}

impl HttpHeader {
    /// Parse the header block of a raw request buffer. Always succeeds; a
    /// buffer without a header block yields the empty map.
    pub fn new(request: &str) -> (r: Option<HttpHeader>)
        ensures
            r matches Some(h) && h@ == headers_of(request@),
    {
        let mut pairs: Vec<(String, String)> = Vec::new();
        let n = request.unicode_len();
        match find_crlf_at(request, 0) {
            None => Some(HttpHeader { pairs }),
            Some(e) => {
                let mut rest = request.substring_char(e + 2, n);
                #[verifier::loop_isolation(false)]
                while !rest.is_empty()
                    invariant
                        fold_headers(rest@, pairs_map(pairs@)) == headers_of(request@),
                    decreases rest@.len(),
                {
                    let rl = rest.unicode_len();
                    let (line, next) = match find_crlf_at(rest, 0) {
                        Some(le) => (rest.substring_char(0, le), rest.substring_char(le + 2, rl)),
                        None => (rest, rest.substring_char(rl, rl)),
                    };
                    if line.is_empty() {
                        proof {
                            assert(fold_headers(rest@, pairs_map(pairs@)) == pairs_map(pairs@));
                        }
                        rest = line;
                        break ;
                    }
                    let ghost m = pairs_map(pairs@);
                    match find_char_at(line, ':', 0) {
                        None => {
                            proof {
                                lemma_fold_headers_line(rest@, m, line@, next@);
                            }
                        },
                        Some(c) => {
                            let ln = line.unicode_len();
                            let name = trim_str(line.substring_char(0, c));
                            let value = trim_str(line.substring_char(c + 1, ln));
                            let ghost old_pairs = pairs@;
                            pairs.push((name.to_owned(), value.to_owned()));
                            proof {
                                assert(pairs@.drop_last() =~= old_pairs);
                                assert(pairs_map(pairs@) == m.insert(name@, value@));
                                lemma_fold_headers_line(rest@, m, line@, next@);
                            }
                        },
                    }
                    rest = next;
                }
                proof {
                    assert(fold_headers(rest@, pairs_map(pairs@)) == pairs_map(pairs@));
                }
                Some(HttpHeader { pairs })
            },
        }
    }

    /// Look a header up by its exact name.
    pub fn get<'a>(&'a self, name: &str) -> (r: Option<&'a String>)
        ensures
            r is Some <==> self@.contains_key(name@),
            r matches Some(v) ==> v@ == self@[name@],
    {
        let mut i = self.pairs.len();
        proof {
            assert(self.pairs@.take(i as int) =~= self.pairs@);
        }
        while i > 0
            invariant
                0 <= i <= self.pairs.len(),
                pairs_map(self.pairs@).contains_key(name@) == pairs_map(
                    self.pairs@.take(i as int),
                ).contains_key(name@),
                pairs_map(self.pairs@.take(i as int)).contains_key(name@) ==> pairs_map(
                    self.pairs@,
                )[name@] == pairs_map(self.pairs@.take(i as int))[name@],
            decreases i,
        {
            proof {
                assert(self.pairs@.take(i as int).drop_last() =~= self.pairs@.take(i - 1));
                assert(self.pairs@.take(i as int).last() == self.pairs@[i - 1]);
            }
            if str_eq(self.pairs[i - 1].0.as_str(), name) {
                return Some(&self.pairs[i - 1].1);
            }
            i = i - 1;
        }
        None
    }
}

/// The body the parser extracts from `buf`: everything after the first
/// blank-line separator, verbatim; empty when no separator exists.
pub open spec fn body_of(buf: Seq<char>) -> Seq<char> {
    match find_2crlf_from(buf, 0) {
        Some(i) => buf.subrange(i + 4, buf.len() as int),
        None => Seq::empty(),
    }
}

/// A parsed request: method, path, version, header map and body, extracted
/// from one raw text buffer.
#[derive(Debug)]
pub struct HttpRequest {
    pub method: Method,
    pub resource: Resource,
    pub version: Version,
    pub headers: HttpHeader,
    pub request_body: String,
}

impl HttpRequest {
    /// Parse one raw request buffer. Every malformed part degrades to its
    /// default; only the absence of a recognized protocol version in the
    /// first line is an error, and the error message holds the buffer.
    pub fn new(request: &str) -> (r: Result<HttpRequest, VersionError>)
        ensures
            r is Ok <==> version_of(request@) is Some,
            r matches Ok(req) ==> {
                &&& version_of(request@) == Some(req.version)
                &&& req.method == method_of(request@)
                &&& req.resource.path@ == path_of(request@)
                &&& req.headers@ == headers_of(request@)
                &&& req.request_body@ == body_of(request@)
            },
            r matches Err(e) ==> e.msg@ == version_err_msg(request@),
    {
        let method = Method::new(request);
        let resource = match Resource::new(request) {
            Some(res) => res,
            None => Resource { path: String::new() },
        };
        let version = match Version::new(request) {
            Ok(v) => v,
            Err(e) => {
                return Err(e);
            },
        };
        let headers = match HttpHeader::new(request) {
            Some(h) => h,
            None => HttpHeader { pairs: Vec::new() },
        };
        let n = request.unicode_len();
        let request_body = match find_2crlf_at(request, 0) {
            Some(i) => request.substring_char(i + 4, n).to_owned(),
            None => String::new(),
        };
        Ok(HttpRequest { method, resource, version, headers, request_body })
    }
}

} // verus!
