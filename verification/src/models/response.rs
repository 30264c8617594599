//! Protocol responses and the failure kinds they report.

use crate::utils::bucket::xml_error_response;
use crate::utils::text::{decimal, decimal_string, element};
use vstd::prelude::*;
use vstd::string::{StrSliceExecFns, StringExecFns};
use vstd::utf8::encode_utf8;

verus! {

/// The kinds of failure that the protocol reports.
#[derive(Clone, Copy, Debug, PartialEq, Eq, Structural)]
pub enum S3Error {
    AccessDenied,
    InvalidBucketName,
    NoSuchKey,
    InternalError,
    NotImplemented,
}

impl S3Error {
    /// The HTTP status that goes with the kind.
    pub open spec fn status(self) -> u16 {
        match self {
            S3Error::AccessDenied => 403,
            S3Error::InvalidBucketName => 400,
            S3Error::NoSuchKey => 404,
            S3Error::InternalError => 500,
            S3Error::NotImplemented => 501,
        }
    }

    /// The machine-readable code of the kind.
    pub open spec fn code_text(self) -> Seq<char> {
        match self {
            S3Error::AccessDenied => "AccessDenied"@,
            S3Error::InvalidBucketName => "InvalidBucketName"@,
            S3Error::NoSuchKey => "NoSuchKey"@,
            S3Error::InternalError => "InternalError"@,
            S3Error::NotImplemented => "NotImplemented"@,
        }
    }

    pub fn status_code(&self) -> (s: u16)
        ensures
            s == self.status(),
    {
        match self {
            S3Error::AccessDenied => 403,
            S3Error::InvalidBucketName => 400,
            S3Error::NoSuchKey => 404,
            S3Error::InternalError => 500,
            S3Error::NotImplemented => 501,
        }
    }

    pub fn code(&self) -> (c: &'static str)
        ensures
            c@ == self.code_text(),
    {
        match self {
            S3Error::AccessDenied => "AccessDenied",
            S3Error::InvalidBucketName => "InvalidBucketName",
            S3Error::NoSuchKey => "NoSuchKey",
            S3Error::InternalError => "InternalError",
            S3Error::NotImplemented => "NotImplemented",
        }
    }
}

/// A protocol response: status, headers in the order they are sent, body.
#[derive(Debug)]
pub struct Response {
    pub status: u16,
    pub headers: Vec<(String, String)>,
    pub body: Vec<u8>,
}

/// What a response is, as plain values.
pub ghost struct ResponseView {
    pub status: u16,
    pub headers: Seq<(Seq<char>, Seq<char>)>,
    pub body: Seq<u8>,
}

pub open spec fn header_view(h: (String, String)) -> (Seq<char>, Seq<char>) {
    (h.0@, h.1@)
}

impl View for Response {
    type V = ResponseView;

    open spec fn view(&self) -> ResponseView {
        ResponseView {
            status: self.status,
            headers: self.headers@.map_values(|h: (String, String)| header_view(h)),
            body: self.body@,
        }
    }
}

/// The response with no header and no body.
pub open spec fn bare_response(status: u16) -> ResponseView {
    ResponseView { status, headers: Seq::empty(), body: Seq::empty() }
}

/// The response that carries `body` as an XML document: the content type,
/// then the length of the encoded body, then the body in UTF-8.
pub open spec fn xml_response(status: u16, body: Seq<char>) -> ResponseView {
    ResponseView {
        status,
        headers: seq![
            ("Content-Type"@, "application/xml"@),
            ("Content-Length"@, decimal(encode_utf8(body).len())),
        ],
        body: encode_utf8(body),
    }
}

/// The response that carries `body` as bytes.
pub open spec fn binary_response(status: u16, body: Seq<u8>) -> ResponseView {
    ResponseView {
        status,
        headers: seq![
            ("Content-Type"@, "application/octet-stream"@),
            ("Content-Length"@, decimal(body.len())),
        ],
        body,
    }
}

/// The error document for `code` and `message`, both escaped.
pub open spec fn error_xml(code: Seq<char>, message: Seq<char>) -> Seq<char> {
    "<?xml version=\"1.0\" encoding=\"UTF-8\"?>\n        <Error>\n            "@ + element(
        "Code"@,
        code,
    ) + "\n            "@ + element("Message"@, message) + "\n        </Error>"@
}

/// The response that reports a failure of `kind` with `message`.
pub open spec fn error_response(kind: S3Error, message: Seq<char>) -> ResponseView {
    xml_response(kind.status(), error_xml(kind.code_text(), message))
}

impl Response {
    /// A response with no header and no body.
    pub fn bare(status: u16) -> (r: Response)
        ensures
            r@ == bare_response(status),
    {
        let r = Response { status, headers: Vec::new(), body: Vec::new() };
        assert(r@.headers =~= Seq::empty());
        r
    }

    /// A response that carries an XML document.
    pub fn xml(status: u16, body: &str) -> (r: Response)
        ensures
            r@ == xml_response(status, body@),
    {
        let bytes = body.as_bytes_vec();
        let mut headers: Vec<(String, String)> = Vec::new();
        headers.push((String::from_str("Content-Type"), String::from_str("application/xml")));
        headers.push((String::from_str("Content-Length"), decimal_string(bytes.len() as u64)));
        let r = Response { status, headers, body: bytes };
        assert(r@.headers =~= xml_response(status, body@).headers);
        r
    }

    /// A response that carries bytes.
    pub fn binary(status: u16, body: Vec<u8>) -> (r: Response)
        ensures
            r@ == binary_response(status, body@),
    {
        let mut headers: Vec<(String, String)> = Vec::new();
        headers.push(
            (String::from_str("Content-Type"), String::from_str("application/octet-stream")),
        );
        headers.push((String::from_str("Content-Length"), decimal_string(body.len() as u64)));
        let r = Response { status, headers, body };
        assert(r@.headers =~= binary_response(status, r.body@).headers);
        r
    }

    /// A response that reports a failure of `kind` with `message`.
    pub fn error(kind: S3Error, message: &str) -> (r: Response)
        ensures
            r@ == error_response(kind, message@),
    {
        xml_error_response(kind.status_code(), kind.code(), message)
    }
}

} // verus!
