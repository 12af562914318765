//! Responses: a status, headers, and either no body or the content of a file.

use vstd::prelude::*;
use vstd::string::StringExecFns;
use vstd::utf8::is_ascii_chars;

verus! {

/// The request was served.
pub const OK: u16 = 200;

/// The decoded path holds a NUL character.
pub const BAD_REQUEST: u16 = 400;

/// The path names a directory, or leads out of the base directory.
pub const FORBIDDEN: u16 = 403;

/// The path names nothing that can be read.
pub const NOT_FOUND: u16 = 404;

/// The method is neither `GET` nor `HEAD`.
pub const METHOD_NOT_ALLOWED: u16 = 405;

/// One header line of a response.
#[derive(Clone, Debug, PartialEq, Eq)]
pub struct Header {
    pub field: String,
    pub value: String,
}

/// What a header holds.
pub struct HeaderModel {
    pub field: Seq<char>,
    pub value: Seq<char>,
}

impl View for Header {
    type V = HeaderModel;

    open spec fn view(&self) -> HeaderModel {
        HeaderModel { field: self.field@, value: self.value@ }
    }
}

impl DeepView for Header {
    type V = HeaderModel;

    open spec fn deep_view(&self) -> HeaderModel {
        self@
    }
}

/// The body of a response.
#[derive(Clone, Debug, PartialEq, Eq)]
pub enum Body {
    /// No content.
    Empty,
    /// The content of the file at this path, which is safe to open.
    File(Vec<u8>),
}

/// What a body holds.
pub enum BodyModel {
    Empty,
    File(Seq<u8>),
}

impl View for Body {
    type V = BodyModel;

    open spec fn view(&self) -> BodyModel {
        match self {
            Body::Empty => BodyModel::Empty,
            Body::File(path) => BodyModel::File(path@),
        }
    }
}

/// A response, ready for the transport.
#[derive(Clone, Debug, PartialEq, Eq)]
pub struct Response {
    pub status: u16,
    pub headers: Vec<Header>,
    pub body: Body,
}

/// What a response holds.
pub struct ResponseModel {
    pub status: u16,
    pub headers: Seq<HeaderModel>,
    pub body: BodyModel,
}

impl View for Response {
    type V = ResponseModel;

    open spec fn view(&self) -> ResponseModel {
        ResponseModel {
            status: self.status,
            headers: self.headers.deep_view(),
            body: self.body@,
        }
    }
}

/// Whether the transport takes a header: both halves must be ASCII.
pub open spec fn header_is_sendable(header: HeaderModel) -> bool {
    is_ascii_chars(header.field) && is_ascii_chars(header.value)
}

/// A rejection: the status alone, without headers or body.
pub open spec fn rejection(status: u16) -> ResponseModel {
    ResponseModel { status, headers: seq![], body: BodyModel::Empty }
}

/// The digit `0` to `9` as a character.
pub open spec fn digit_char(digit: nat) -> char
    recommends
        digit < 10,
{
    if digit == 0 {
        '0'
    } else if digit == 1 {
        '1'
    } else if digit == 2 {
        '2'
    } else if digit == 3 {
        '3'
    } else if digit == 4 {
        '4'
    } else if digit == 5 {
        '5'
    } else if digit == 6 {
        '6'
    } else if digit == 7 {
        '7'
    } else if digit == 8 {
        '8'
    } else {
        '9'
    }
}

/// A number in decimal, without leading zeros.
pub open spec fn decimal(n: nat) -> Seq<char>
    decreases n,
{
    if n < 10 {
        seq![digit_char(n)]
    } else {
        decimal(n / 10).push(digit_char(n % 10))
    }
}

/// The value of the `Content-Disposition` header that names a file.
pub open spec fn named_attachment(name: Seq<char>) -> Seq<char> {
    "attachment; filename=\""@ + name + "\""@
}

/// The `Content-Disposition` header for a file of the given name: it names
/// the file where the transport takes the name, and says `attachment` alone
/// where it does not.
pub open spec fn disposition_header(name: Seq<char>) -> HeaderModel {
    let field = "Content-Disposition"@;
    let named = HeaderModel { field, value: named_attachment(name) };
    if header_is_sendable(named) {
        named
    } else {
        HeaderModel { field, value: "attachment"@ }
    }
}

/// The `Content-Length` header for a body of `size` bytes.
pub open spec fn length_header(size: u64) -> HeaderModel {
    HeaderModel { field: "Content-Length"@, value: decimal(size as nat) }
}

/// The answer to `HEAD` for a file: its name and size, no body.
pub open spec fn headers_only(name: Seq<char>, size: u64) -> ResponseModel {
    ResponseModel {
        status: OK,
        headers: seq![disposition_header(name), length_header(size)],
        body: BodyModel::Empty,
    }
}

/// The answer to `GET` for a file: its name, and its content as the body.
pub open spec fn download(name: Seq<char>, path: Seq<u8>) -> ResponseModel {
    ResponseModel {
        status: OK,
        headers: seq![disposition_header(name)],
        body: BodyModel::File(path),
    }
}

/// Whether the transport takes every header of a response.
pub open spec fn is_sendable(response: ResponseModel) -> bool {
    forall|i: int| 0 <= i < response.headers.len() ==> header_is_sendable(#[trigger] response.headers[i])
}

/// A number in decimal is made of digits.
pub proof fn lemma_decimal_is_ascii(n: nat)
    ensures
        is_ascii_chars(decimal(n)),
        decimal(n).len() >= 1,
    decreases n,
{
    if n >= 10 {
        lemma_decimal_is_ascii(n / 10);
    }
}

/// A file name of ASCII characters is named in the `Content-Disposition`
/// header as it stands, between quotes; any other is left out.
pub proof fn lemma_disposition_names_ascii(name: Seq<char>)
    ensures
        disposition_header(name).field == "Content-Disposition"@,
        is_ascii_chars(name) ==> disposition_header(name).value == named_attachment(name),
        !is_ascii_chars(name) ==> disposition_header(name).value == "attachment"@,
        header_is_sendable(disposition_header(name)),
{
    reveal_strlit("Content-Disposition");
    reveal_strlit("attachment; filename=\"");
    reveal_strlit("\"");
    reveal_strlit("attachment");
    let opening = "attachment; filename=\""@;
    let closing = "\""@;
    let named = named_attachment(name);
    assert(is_ascii_chars("Content-Disposition"@));
    assert(is_ascii_chars("attachment"@));
    if is_ascii_chars(name) {
        assert forall|i: int| 0 <= i < named.len() implies '\0' <= #[trigger] named[i]
            <= '\u{7f}' by {
            if i < opening.len() {
                assert(named[i] == opening[i]);
            } else if i < opening.len() + name.len() {
                assert(named[i] == name[i - opening.len()]);
            } else {
                assert(named[i] == closing[i - opening.len() - name.len()]);
            }
        }
    } else {
        let k = choose|k: int|
            0 <= k < name.len() && !('\0' <= #[trigger] name[k] <= '\u{7f}');
        assert(named[opening.len() + k] == name[k]);
    }
}

/// The transport takes every header of every response that this module
/// builds.
pub proof fn lemma_responses_are_sendable(status: u16, name: Seq<char>, size: u64, path: Seq<u8>)
    ensures
        is_sendable(rejection(status)),
        is_sendable(headers_only(name, size)),
        is_sendable(download(name, path)),
{
    lemma_disposition_names_ascii(name);
    lemma_decimal_is_ascii(size as nat);
    reveal_strlit("Content-Length");
    assert(is_ascii_chars("Content-Length"@));
}

/// Calls `tiny_http::Header::from_bytes` and says whether it built a header.
/// It does so exactly when the field and the value are both ASCII.
#[verifier::external_body]
fn transport_takes(field: &str, value: &str) -> (out: bool)
    ensures
        out == header_is_sendable(HeaderModel { field: field@, value: value@ }),
{
    tiny_http::Header::from_bytes(field.as_bytes(), value.as_bytes()).is_ok()
}

fn digit_str(digit: u64) -> (out: &'static str)
    requires
        digit < 10,
    ensures
        out@ == seq![digit_char(digit as nat)],
{
    proof {
        reveal_strlit("0");
        reveal_strlit("1");
        reveal_strlit("2");
        reveal_strlit("3");
        reveal_strlit("4");
        reveal_strlit("5");
        reveal_strlit("6");
        reveal_strlit("7");
        reveal_strlit("8");
        reveal_strlit("9");
    }
    let out = if digit == 0 {
        "0"
    } else if digit == 1 {
        "1"
    } else if digit == 2 {
        "2"
    } else if digit == 3 {
        "3"
    } else if digit == 4 {
        "4"
    } else if digit == 5 {
        "5"
    } else if digit == 6 {
        "6"
    } else if digit == 7 {
        "7"
    } else if digit == 8 {
        "8"
    } else {
        "9"
    };
    assert(out@ =~= seq![digit_char(digit as nat)]);
    out
}

/// Writes a number in decimal.
pub fn decimal_string(n: u64) -> (out: String)
    ensures
        out@ == decimal(n as nat),
    decreases n,
{
    if n < 10 {
        String::from_str(digit_str(n))
    } else {
        let mut out = decimal_string(n / 10);
        out.append(digit_str(n % 10));
        assert(out@ =~= decimal(n as nat));
        out
    }
}

impl Header {
    /// The `Content-Disposition` header for a file of the given name.
    pub fn content_disposition(name: &str) -> (out: Header)
        ensures
            out@ == disposition_header(name@),
    {
        let field = String::from_str("Content-Disposition");
        let named = String::from_str("attachment; filename=\"").concat(name).concat("\"");
        if transport_takes(field.as_str(), named.as_str()) {
            Header { field, value: named }
        } else {
            Header { field, value: String::from_str("attachment") }
        }
    }

    /// The `Content-Length` header for a body of `size` bytes.
    pub fn content_length(size: u64) -> (out: Header)
        ensures
            out@ == length_header(size),
    {
        Header { field: String::from_str("Content-Length"), value: decimal_string(size) }
    }
}

impl Response {
    /// A rejection with the given status.
    pub fn reject(status: u16) -> (out: Response)
        ensures
            out@ == rejection(status),
    {
        let out = Response { status, headers: Vec::new(), body: Body::Empty };
        assert(out@.headers =~= seq![]);
        out
    }

    /// The answer to `HEAD` for a file of the given name and size.
    pub fn headers_only(name: &str, size: u64) -> (out: Response)
        ensures
            out@ == headers_only(name@, size),
    {
        let mut headers: Vec<Header> = Vec::new();
        headers.push(Header::content_disposition(name));
        headers.push(Header::content_length(size));
        let out = Response { status: OK, headers, body: Body::Empty };
        assert(out@.headers =~= seq![disposition_header(name@), length_header(size)]);
        out
    }

    /// The answer to `GET` for the file of the given name at the given path.
    pub fn download(name: &str, path: Vec<u8>) -> (out: Response)
        ensures
            out@ == download(name@, path@),
    {
        let mut headers: Vec<Header> = Vec::new();
        headers.push(Header::content_disposition(name));
        let out = Response { status: OK, headers, body: Body::File(path) };
        assert(out@.headers =~= seq![disposition_header(name@)]);
        out
    }
}

} // verus!
