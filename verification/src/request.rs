//! Parsing an HTTP/1.1 request head (request line plus headers) out of the
//! text read from a connection.
//!
//! The whole head is handed in as one string, line terminators included;
//! the caller reads it from the socket line by line and stops at the first
//! blank line or at end of stream.

use vstd::prelude::*;
use vstd::string::StringSliceAdditionalSpecFns;

use crate::headers::HeaderMap;
use crate::headers::seq_insert;
use crate::text::byte_len;
use crate::text::find_sep;
use crate::text::find_sep_exec;
use crate::text::lemma_byte_len_concat;
use crate::text::lemma_line_end_bounds;
use crate::text::line_end;
use crate::text::line_end_exec;
use crate::text::skip_ws;
use crate::text::skip_ws_exec;
use crate::text::str_eq;
use crate::text::token_end;
use crate::text::token_end_exec;
use crate::text::trim_exec;
use crate::text::trim_spec;

verus! {

/// The request methods the table can route on.
#[derive(Clone, Copy, Debug, PartialEq, Eq, Hash, Structural)]
pub enum Method {
    Get,
    Post,
    Patch,
    Delete,
}

/// Why a request head was rejected.
#[derive(Clone, Copy, Debug, PartialEq, Eq, Structural)]
pub enum ParseError {
    /// The stream closed before any byte arrived.
    EmptyRequest,
    /// The request line held fewer than two tokens.
    MalformedRequestLine,
    /// A method token outside the closed enumeration.
    UnknownMethod,
}

impl Method {
    /// The method a request-line token decodes to, if any.
    pub open spec fn from_token(t: Seq<char>) -> Option<Method> {
        if t == "GET"@ {
            Some(Method::Get)
        } else if t == "POST"@ {
            Some(Method::Post)
        } else if t == "PATCH"@ {
            Some(Method::Patch)
        } else if t == "DELETE"@ {
            Some(Method::Delete)
        } else {
            None
        }
    }

    /// Decode a request-line token; an unrecognized token is an error, and
    /// the caller decides the fallback policy.
    pub fn try_from(value: &str) -> (r: Result<Method, ParseError>)
        ensures
            (match Method::from_token(value@) {
                Some(m) => r == Ok::<Method, ParseError>(m),
                None => r == Err::<Method, ParseError>(ParseError::UnknownMethod),
            }),
    {
        if str_eq(value, "GET") {
            Ok(Method::Get)
        } else if str_eq(value, "POST") {
            Ok(Method::Post)
        } else if str_eq(value, "PATCH") {
            Ok(Method::Patch)
        } else if str_eq(value, "DELETE") {
            Ok(Method::Delete)
        } else {
            Err(ParseError::UnknownMethod)
        }
    }
}

/// A line that ends the header block: nothing, or a bare terminator.
pub open spec fn is_blank_line(l: Seq<char>) -> bool {
    l.len() == 0 || l == "\n"@ || l == "\r\n"@
}

/// The header entry a line yields: the part before the first `": "` and the
/// part after it, both trimmed; a line without the delimiter yields none.
pub open spec fn header_entry(line: Seq<char>) -> Option<(Seq<char>, Seq<char>)> {
    let j = find_sep(line, 0);
    if j < line.len() {
        Some(
            (
                trim_spec(line.subrange(0, j)),
                trim_spec(line.subrange(j + 2, line.len() as int)),
            ),
        )
    } else {
        None
    }
}

/// Fold the header lines of `s` from position `i` into the accumulated
/// entries `acc` and consumed byte count `sz`, stopping at a blank line or
/// at the end of the text.
pub open spec fn parse_headers_from(
    s: Seq<char>,
    i: int,
    acc: Seq<(Seq<char>, Seq<char>)>,
    sz: nat,
) -> (Seq<(Seq<char>, Seq<char>)>, nat)
    decreases s.len() - i,
    via parse_headers_from_dec
{
    if i < 0 || i >= s.len() {
        (acc, sz)
    } else {
        let e = line_end(s, i);
        let line = s.subrange(i, e);
        if is_blank_line(line) {
            (acc, sz)
        } else {
            let acc2 = match header_entry(line) {
                Some(kv) => seq_insert(acc, kv.0, kv.1),
                None => acc,
            };
            parse_headers_from(s, e, acc2, sz + byte_len(line))
        }
    }
}

#[via_fn]
proof fn parse_headers_from_dec(s: Seq<char>, i: int, acc: Seq<(Seq<char>, Seq<char>)>, sz: nat) {
    if 0 <= i < s.len() {
        lemma_line_end_bounds(s, i);
    }
}

/// The mathematical value of a parsed request head.
pub ghost struct ReqView {
    pub method: Method,
    pub pathname: Seq<char>,
    pub headers: Seq<(Seq<char>, Seq<char>)>,
    pub size: nat,
}

/// What parsing a head text yields: the method and path tokens of the first
/// line, the entries of the header lines up to the first blank line, and
/// the UTF-8 byte count of the consumed lines (blank line excluded).
pub open spec fn parse_head_spec(s: Seq<char>) -> Result<ReqView, ParseError> {
    if s.len() == 0 {
        Err(ParseError::EmptyRequest)
    } else {
        let e0 = line_end(s, 0);
        let line0 = s.subrange(0, e0);
        let t0s = skip_ws(line0, 0);
        let t0e = token_end(line0, t0s);
        let t1s = skip_ws(line0, t0e);
        let t1e = token_end(line0, t1s);
        if t0s >= t0e || t1s >= t1e {
            Err(ParseError::MalformedRequestLine)
        } else {
            let hd = parse_headers_from(s, e0, Seq::empty(), 0);
            Ok(
                (ReqView {
                    method: match Method::from_token(line0.subrange(t0s, t0e)) {
                        Some(m) => m,
                        None => Method::Get,
                    },
                    pathname: line0.subrange(t1s, t1e),
                    headers: hd.0,
                    size: byte_len(line0) + hd.1,
                }),
            )
        }
    }
}

/// One parsed request: never mutated after creation.
#[derive(Debug)]
pub struct Request {
    pub method: Method,
    pub pathname: String,
    pub headers: HeaderMap,
    pub size: usize,
}

impl Request {
    /// Parse a request head out of `raw`, exactly as [`parse_head_spec`]
    /// describes. A token that is no known method falls back to `Get`.
    pub fn parse_raw(raw: &str) -> (r: Result<Request, ParseError>)
        ensures
            (match (parse_head_spec(raw@), r) {
                (Ok(v), Ok(req)) => req.method == v.method && req.pathname@ == v.pathname
                    && req.headers@ == v.headers && req.size == v.size,
                (Err(e), Err(e2)) => e == e2,
                _ => false,
            }),
    {
        let n = raw.unicode_len();
        let total_bytes = raw.as_bytes().len();
        proof {
            assert(total_bytes == byte_len(raw@));
        }
        if n == 0 {
            return Err(ParseError::EmptyRequest);
        }
        let e0 = line_end_exec(raw, 0);
        let line0 = raw.substring_char(0, e0);
        let t0s = skip_ws_exec(line0, 0);
        let t0e = token_end_exec(line0, t0s);
        let t1s = skip_ws_exec(line0, t0e);
        let t1e = token_end_exec(line0, t1s);
        if t0s >= t0e || t1s >= t1e {
            return Err(ParseError::MalformedRequestLine);
        }
        let method = match Method::try_from(line0.substring_char(t0s, t0e)) {
            Ok(m) => m,
            Err(_) => Method::Get,
        };
        let pathname = String::from_str(line0.substring_char(t1s, t1e));
        let mut size: usize = line0.len();
        let mut headers = HeaderMap::new();
        let mut pos: usize = e0;
        let ghost line0_view = raw@.subrange(0, e0 as int);
        let ghost target = parse_headers_from(raw@, e0 as int, Seq::empty(), 0);
        let ghost mut hsz: nat = 0;
        proof {
            assert(raw@.subrange(0, e0 as int) + raw@.subrange(e0 as int, n as int) =~= raw@);
            lemma_byte_len_concat(
                raw@.subrange(0, e0 as int),
                raw@.subrange(e0 as int, n as int),
            );
            assert(line0.spec_bytes() == vstd::utf8::encode_utf8(line0@));
            assert(size == byte_len(line0_view));
        }
        while pos < n
            invariant
                n == raw@.len(),
                total_bytes == byte_len(raw@),
                e0 == line_end(raw@, 0),
                e0 <= pos <= n,
                parse_headers_from(raw@, pos as int, headers@, hsz) == target,
                size == byte_len(line0_view) + hsz,
                size == byte_len(raw@.subrange(0, pos as int)),
            ensures
                parse_headers_from(raw@, pos as int, headers@, hsz) == (headers@, hsz),
                size == byte_len(line0_view) + hsz,
                parse_headers_from(raw@, pos as int, headers@, hsz) == target,
            decreases n - pos,
        {
            let e = line_end_exec(raw, pos);
            let line = raw.substring_char(pos, e);
            if line.unicode_len() == 0 || str_eq(line, "\n") || str_eq(line, "\r\n") {
                break;
            }
            proof {
                assert(raw@.subrange(0, pos as int) + raw@.subrange(pos as int, e as int)
                    =~= raw@.subrange(0, e as int));
                lemma_byte_len_concat(
                    raw@.subrange(0, pos as int),
                    raw@.subrange(pos as int, e as int),
                );
                assert(raw@.subrange(0, e as int) + raw@.subrange(e as int, n as int) =~= raw@);
                lemma_byte_len_concat(
                    raw@.subrange(0, e as int),
                    raw@.subrange(e as int, n as int),
                );
            }
            size = size + line.len();
            let j = find_sep_exec(line);
            let llen = line.unicode_len();
            if j < llen {
                let k = trim_exec(line.substring_char(0, j));
                let v = trim_exec(line.substring_char(j + 2, llen));
                headers.insert(k, v);
            }
            proof {
                hsz = hsz + byte_len(line@);
            }
            pos = e;
        }
        proof {
            assert(parse_headers_from(raw@, pos as int, headers@, hsz) == (headers@, hsz));
            assert(target == (headers@, hsz));
        }
        Ok(Request { method, pathname, headers, size })
    }
}

} // verus!
