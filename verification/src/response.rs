//! Building an HTTP/1.1 response and serializing it to its exact wire text.
//!
//! A `Response` accumulates a status, headers and a body. Serialization
//! emits the status line, the stored headers with the forced
//! `Connection`, `Content-Length` and `Date` entries (and a `text/plain`
//! default for `Content-Type` when none was set), a blank line, and the
//! body. The socket write itself is the caller's business: every
//! serializing method hands back the wire text.

use vstd::prelude::*;

use crate::headers::HeaderMap;
use crate::headers::has_key;
use crate::headers::lemma_insert_other_key;
use crate::headers::lookup;
use crate::headers::seq_insert;
use crate::text::byte_len;
use crate::text::dec_digits;
use crate::text::dec_string;

verus! {

/// The status codes a response can carry, each with a fixed reason phrase.
#[derive(Clone, Copy, Debug, PartialEq, Eq, Structural)]
pub enum HttpCode {
    OK,
    BadRequest,
    NotFound,
    ServerError,
}

impl HttpCode {
    /// The numeric code on the wire.
    pub open spec fn code_spec(self) -> u16 {
        match self {
            HttpCode::OK => 200,
            HttpCode::BadRequest => 400,
            HttpCode::NotFound => 404,
            HttpCode::ServerError => 500,
        }
    }

    /// The reason phrase on the wire.
    pub open spec fn reason_spec(self) -> Seq<char> {
        match self {
            HttpCode::OK => "OK"@,
            HttpCode::BadRequest => "Bad Request"@,
            HttpCode::NotFound => "Not Found"@,
            HttpCode::ServerError => "Server Error"@,
        }
    }

    /// The reason phrase and numeric code of this status.
    pub fn get_raw(&self) -> (r: (&'static str, u16))
        ensures
            r.0@ == self.reason_spec(),
            r.1 == self.code_spec(),
    {
        match self {
            HttpCode::OK => ("OK", 200),
            HttpCode::BadRequest => ("Bad Request", 400),
            HttpCode::NotFound => ("Not Found", 404),
            HttpCode::ServerError => ("Server Error", 500),
        }
    }
}

/// The content types the library names.
#[derive(Clone, Copy, Debug)]
pub enum MimeType {
    TextPlain,
    TextHtml,
    ApplicationJson,
    ImageJpeg,
    ImagePng,
}

impl MimeType {
    /// The media-type string of this variant.
    pub open spec fn str_spec(self) -> Seq<char> {
        match self {
            MimeType::TextPlain => "text/plain"@,
            MimeType::TextHtml => "text/html"@,
            MimeType::ApplicationJson => "application/json"@,
            MimeType::ImageJpeg => "image/jpeg"@,
            MimeType::ImagePng => "image/png"@,
        }
    }

    /// The media-type string, as a fresh `String`.
    pub fn to_string(&self) -> (r: String)
        ensures
            r@ == self.str_spec(),
    {
        match self {
            MimeType::TextPlain => String::from_str("text/plain"),
            MimeType::TextHtml => String::from_str("text/html"),
            MimeType::ApplicationJson => String::from_str("application/json"),
            MimeType::ImageJpeg => String::from_str("image/jpeg"),
            MimeType::ImagePng => String::from_str("image/png"),
        }
    }
}

/// The status line, without its terminator.
pub open spec fn status_line_spec(c: HttpCode) -> Seq<char> {
    "HTTP/1.1 "@ + dec_digits(c.code_spec() as int) + " "@ + c.reason_spec()
}

/// The headers a serialized response carries: the stored ones, with
/// `Connection`, `Content-Length` and `Date` forced, and `Content-Type`
/// defaulted to `text/plain` when absent.
pub open spec fn effective_headers(
    h: Seq<(Seq<char>, Seq<char>)>,
    clen: int,
    date: Seq<char>,
) -> Seq<(Seq<char>, Seq<char>)> {
    let h1 = seq_insert(h, "Connection"@, "keep-alive"@);
    let h2 = seq_insert(h1, "Content-Length"@, dec_digits(clen));
    let h3 = seq_insert(h2, "Date"@, date);
    if has_key(h3, "Content-Type"@) {
        h3
    } else {
        seq_insert(h3, "Content-Type"@, "text/plain"@)
    }
}

/// The header block from entry `i` on: one `name: value` line per entry.
pub open spec fn header_lines_from(h: Seq<(Seq<char>, Seq<char>)>, i: int) -> Seq<char>
    decreases h.len() - i,
{
    if i < 0 || i >= h.len() {
        Seq::empty()
    } else {
        h[i].0 + ": "@ + h[i].1 + "\r\n"@ + header_lines_from(h, i + 1)
    }
}

/// The full wire text of a response with the given date value.
pub open spec fn serialize_spec(
    status: HttpCode,
    content: Seq<char>,
    headers: Seq<(Seq<char>, Seq<char>)>,
    date: Seq<char>,
) -> Seq<char> {
    status_line_spec(status) + "\r\n"@ + header_lines_from(
        effective_headers(headers, byte_len(content) as int, date),
        0,
    ) + "\r\n"@ + content
}

/// Relies on chrono's `Utc::now` and `DateTime::format` to produce the
/// `Date` header value. The result depends on the clock, so nothing is
/// claimed of it; callers state what holds whatever came back.
#[verifier::external_body]
fn http_date_now() -> (r: String) {
    chrono::Utc::now().format("%a, %d %b %Y %H:%M:%S GMT").to_string()
}

/// What the application observed when asked to read a file to render.
#[derive(Debug)]
pub enum RenderOutcome {
    /// The file was opened and read as text.
    Content(String),
    /// The file is missing or is no valid text.
    Missing,
    /// The file could not be opened for another reason.
    OpenFailed,
}

/// A response being built for one connection.
#[derive(Debug)]
pub struct Response {
    pub status: HttpCode,
    pub content: String,
    pub headers: HeaderMap,
}

impl Response {
    /// A fresh response: status `OK`, empty body, no headers.
    pub fn new() -> (r: Response)
        ensures
            r.status == HttpCode::OK,
            r.content@ == Seq::<char>::empty(),
            r.headers@ == Seq::<(Seq<char>, Seq<char>)>::empty(),
    {
        Response { status: HttpCode::OK, content: String::new(), headers: HeaderMap::new() }
    }

    /// The status line for the current status.
    pub fn status_line(&self) -> (r: String)
        ensures
            r@ == status_line_spec(self.status),
    {
        let raw = self.status.get_raw();
        let mut s = String::from_str("HTTP/1.1 ");
        let code_s = dec_string(raw.1 as usize);
        s.append(code_s.as_str());
        s.append(" ");
        s.append(raw.0);
        proof {
            assert(s@ =~= status_line_spec(self.status));
        }
        s
    }

    /// Serialize with an explicit `Date` value: the exact wire text.
    pub fn parse_raw_with_date(&self, date: &str) -> (r: String)
        ensures
            r@ == serialize_spec(self.status, self.content@, self.headers@, date@),
    {
        let clen = self.content.as_str().as_bytes().len();
        let ghost clen_spec = byte_len(self.content@) as int;
        let mut hdrs = self.headers.duplicate();
        hdrs.insert(String::from_str("Connection"), String::from_str("keep-alive"));
        hdrs.insert(String::from_str("Content-Length"), dec_string(clen));
        hdrs.insert(String::from_str("Date"), String::from_str(date));
        if !hdrs.contains_key("Content-Type") {
            hdrs.insert(String::from_str("Content-Type"), MimeType::TextPlain.to_string());
        }
        proof {
            assert(hdrs@ == effective_headers(self.headers@, clen_spec, date@));
        }
        let mut msg = self.status_line();
        msg.append("\r\n");
        let m = hdrs.len();
        let mut i: usize = 0;
        while i < m
            invariant
                m == hdrs@.len(),
                i <= m,
                msg@ + header_lines_from(hdrs@, i as int) == status_line_spec(self.status)
                    + "\r\n"@ + header_lines_from(hdrs@, 0),
            decreases m - i,
        {
            let ghost before = msg@;
            msg.append(hdrs.key_at(i).as_str());
            msg.append(": ");
            msg.append(hdrs.val_at(i).as_str());
            msg.append("\r\n");
            proof {
                assert(header_lines_from(hdrs@, i as int) == hdrs@[i as int].0 + ": "@
                    + hdrs@[i as int].1 + "\r\n"@ + header_lines_from(hdrs@, i + 1));
                assert(msg@ + header_lines_from(hdrs@, i + 1) =~= before + header_lines_from(
                    hdrs@,
                    i as int,
                ));
            }
            i += 1;
        }
        msg.append("\r\n");
        msg.append(self.content.as_str());
        proof {
            assert(header_lines_from(hdrs@, m as int) == Seq::<char>::empty());
            assert(msg@ =~= serialize_spec(self.status, self.content@, self.headers@, date@));
        }
        msg
    }

    /// Serialize with the current date: some `Date` value is used, and the
    /// rest of the text is exactly the serialization with that value.
    pub fn parse_raw(&self) -> (r: String)
        ensures
            exists|d: Seq<char>|
                r@ == serialize_spec(self.status, self.content@, self.headers@, d),
    {
        let date = http_date_now();
        let r = self.parse_raw_with_date(date.as_str());
        proof {
            assert(r@ == serialize_spec(self.status, self.content@, self.headers@, date@));
        }
        r
    }

    /// The serialized response as UTF-8 bytes.
    pub fn as_bytes(&self) -> (r: Vec<u8>)
        ensures
            exists|d: Seq<char>|
                r@ == vstd::utf8::encode_utf8(
                    serialize_spec(self.status, self.content@, self.headers@, d),
                ),
    {
        let s = self.parse_raw();
        let r = s.as_str().as_bytes_vec();
        proof {
            let d = choose|d: Seq<char>|
                s@ == serialize_spec(self.status, self.content@, self.headers@, d);
            assert(r@ == vstd::utf8::encode_utf8(
                serialize_spec(self.status, self.content@, self.headers@, d),
            ));
        }
        r
    }

    /// Replace the status.
    pub fn status(&mut self, http_code: HttpCode)
        ensures
            final(self).status == http_code,
            final(self).content == old(self).content,
            final(self).headers == old(self).headers,
    {
        self.status = http_code;
    }

    /// Store `content` as the body and serialize the whole response. The
    /// caller writes the returned wire text to the connection.
    pub fn send(&mut self, content: &str) -> (wire: String)
        ensures
            final(self).status == old(self).status,
            final(self).headers == old(self).headers,
            final(self).content@ == content@,
            exists|d: Seq<char>|
                wire@ == serialize_spec(old(self).status, content@, old(self).headers@, d),
    {
        self.content = String::from_str(content);
        self.parse_raw()
    }

    /// Apply the outcome of a file render: on content, mark it as HTML with
    /// its byte size and send it; on a missing or unreadable file, send a
    /// `Not Found` body naming the file; on any other open failure, send a
    /// fixed `Server Error` body.
    pub fn render(&mut self, file: &str, outcome: RenderOutcome) -> (wire: String)
        ensures
            (match outcome {
                RenderOutcome::Content(c) => {
                    &&& final(self).status == old(self).status
                    &&& final(self).content@ == c@
                    &&& final(self).headers@ == seq_insert(
                        seq_insert(old(self).headers@, "Content-Type"@, "text/html"@),
                        "Content-Length"@,
                        dec_digits(byte_len(c@) as int),
                    )
                    &&& exists|d: Seq<char>|
                        wire@ == serialize_spec(old(self).status, c@, final(self).headers@, d)
                },
                RenderOutcome::Missing => {
                    &&& final(self).status == HttpCode::NotFound
                    &&& final(self).content@ == file@ + " NOT FOUND"@
                    &&& final(self).headers == old(self).headers
                    &&& exists|d: Seq<char>|
                        wire@ == serialize_spec(
                            HttpCode::NotFound,
                            file@ + " NOT FOUND"@,
                            old(self).headers@,
                            d,
                        )
                },
                RenderOutcome::OpenFailed => {
                    &&& final(self).status == HttpCode::ServerError
                    &&& final(self).content@ == "Internal server exception"@
                    &&& final(self).headers == old(self).headers
                    &&& exists|d: Seq<char>|
                        wire@ == serialize_spec(
                            HttpCode::ServerError,
                            "Internal server exception"@,
                            old(self).headers@,
                            d,
                        )
                },
            }),
    {
        match outcome {
            RenderOutcome::Content(c) => {
                let clen = c.as_str().as_bytes().len();
                self.headers.insert(
                    String::from_str("Content-Type"),
                    MimeType::TextHtml.to_string(),
                );
                self.headers.insert(String::from_str("Content-Length"), dec_string(clen));
                self.send(c.as_str())
            },
            RenderOutcome::Missing => {
                let mut body = String::from_str(file);
                body.append(" NOT FOUND");
                self.status(HttpCode::NotFound);
                self.send(body.as_str())
            },
            RenderOutcome::OpenFailed => {
                self.status(HttpCode::ServerError);
                self.send("Internal server exception")
            },
        }
    }
}

/// Every serialized response carries `Connection: keep-alive`, a
/// `Content-Length` holding the body's decimal byte count, the `Date` value
/// that was handed in, and some `Content-Type`.
pub proof fn lemma_forced_headers(h: Seq<(Seq<char>, Seq<char>)>, clen: int, date: Seq<char>)
    ensures
        ({
            let eff = effective_headers(h, clen, date);
            &&& has_key(eff, "Connection"@) && lookup(eff, "Connection"@) == "keep-alive"@
            &&& has_key(eff, "Content-Length"@) && lookup(eff, "Content-Length"@) == dec_digits(
                clen,
            )
            &&& has_key(eff, "Date"@) && lookup(eff, "Date"@) == date
            &&& has_key(eff, "Content-Type"@)
        }),
{
    reveal_strlit("Connection");
    reveal_strlit("Content-Length");
    reveal_strlit("Date");
    reveal_strlit("Content-Type");
    assert("Connection"@.len() == 10);
    assert("Content-Length"@.len() == 14);
    assert("Date"@.len() == 4);
    assert("Content-Type"@.len() == 12);
    let h1 = seq_insert(h, "Connection"@, "keep-alive"@);
    let h2 = seq_insert(h1, "Content-Length"@, dec_digits(clen));
    let h3 = seq_insert(h2, "Date"@, date);
    crate::headers::lemma_insert_same_key(h, "Connection"@, "keep-alive"@);
    lemma_insert_other_key(h1, "Content-Length"@, dec_digits(clen), "Connection"@);
    lemma_insert_other_key(h2, "Date"@, date, "Connection"@);
    crate::headers::lemma_insert_same_key(h1, "Content-Length"@, dec_digits(clen));
    lemma_insert_other_key(h2, "Date"@, date, "Content-Length"@);
    crate::headers::lemma_insert_same_key(h2, "Date"@, date);
    if !has_key(h3, "Content-Type"@) {
        crate::headers::lemma_insert_same_key(h3, "Content-Type"@, "text/plain"@);
        lemma_insert_other_key(h3, "Content-Type"@, "text/plain"@, "Connection"@);
        lemma_insert_other_key(h3, "Content-Type"@, "text/plain"@, "Content-Length"@);
        lemma_insert_other_key(h3, "Content-Type"@, "text/plain"@, "Date"@);
    }
}

/// A `Content-Type` set before serialization keeps its value: the
/// serializer forces the other headers but applies no `text/plain`
/// default over an existing entry.
pub proof fn lemma_content_type_preserved(
    h: Seq<(Seq<char>, Seq<char>)>,
    clen: int,
    date: Seq<char>,
)
    requires
        has_key(h, "Content-Type"@),
    ensures
        has_key(effective_headers(h, clen, date), "Content-Type"@),
        lookup(effective_headers(h, clen, date), "Content-Type"@) == lookup(h, "Content-Type"@),
{
    reveal_strlit("Connection");
    reveal_strlit("Content-Length");
    reveal_strlit("Date");
    reveal_strlit("Content-Type");
    assert("Connection"@.len() == 10);
    assert("Content-Length"@.len() == 14);
    assert("Date"@.len() == 4);
    assert("Content-Type"@.len() == 12);
    assert("Connection"@ != "Content-Type"@);
    assert("Content-Length"@ != "Content-Type"@);
    assert("Date"@ != "Content-Type"@);
    let h1 = seq_insert(h, "Connection"@, "keep-alive"@);
    let h2 = seq_insert(h1, "Content-Length"@, dec_digits(clen));
    lemma_insert_other_key(h, "Connection"@, "keep-alive"@, "Content-Type"@);
    lemma_insert_other_key(h1, "Content-Length"@, dec_digits(clen), "Content-Type"@);
    lemma_insert_other_key(h2, "Date"@, date, "Content-Type"@);
}

} // verus!
