//! HTTP responses of the static file responder.
//!
//! The responder itself performs no I/O: it is handed the outcome of the
//! file read and maps it to a response, the file bytes under the content
//! type inferred from the name on success, 404 when the file was missing,
//! 500 for every other filesystem error.

use vstd::prelude::*;
use crate::mime::{content_type_spec, content_type_for};

verus! {

/// The outcome of a filesystem read, as the library sees it.
#[derive(Clone, Copy, PartialEq, Eq, Structural, Debug)]
pub enum FsError {
    NotFound,
    PermissionDenied,
    Other,
}

/// A response body: raw file bytes, or rendered text.
pub enum Body {
    Bytes(Vec<u8>),
    Text(String),
}

/// The mathematical value of a body.
pub enum BodyV {
    Bytes(Seq<u8>),
    Text(Seq<char>),
}

impl View for Body {
    type V = BodyV;

    open spec fn view(&self) -> BodyV {
        match self {
            Body::Bytes(b) => BodyV::Bytes(b@),
            Body::Text(s) => BodyV::Text(s@),
        }
    }
}

/// An HTTP response: status, content type, body.
pub struct HttpResponse {
    pub status: u16,
    pub content_type: String,
    pub body: Body,
}

/// The mathematical value of a response.
pub struct RespV {
    pub status: int,
    pub content_type: Seq<char>,
    pub body: BodyV,
}

impl View for HttpResponse {
    type V = RespV;

    open spec fn view(&self) -> RespV {
        RespV { status: self.status as int, content_type: self.content_type@, body: self.body@ }
    }
}

/// The view of a read outcome.
pub open spec fn read_view(read: Result<Vec<u8>, FsError>) -> Result<Seq<u8>, FsError> {
    match read {
        Result::Ok(bytes) => Result::Ok(bytes@),
        Result::Err(e) => Result::Err(e),
    }
}

/// The response owed for a file name and a read outcome: 200 with the bytes
/// and the name's content type on success, 404 for a missing file, 500 for
/// any other filesystem error, errors with an empty plain-text body.
pub open spec fn file_response(name: Seq<char>, read: Result<Seq<u8>, FsError>) -> RespV {
    match read {
        Result::Ok(bytes) => RespV {
            status: 200,
            content_type: content_type_spec(name),
            body: BodyV::Bytes(bytes),
        },
        Result::Err(FsError::NotFound) => RespV {
            status: 404,
            content_type: "text/plain"@,
            body: BodyV::Text(Seq::empty()),
        },
        Result::Err(_) => RespV {
            status: 500,
            content_type: "text/plain"@,
            body: BodyV::Text(Seq::empty()),
        },
    }
}

/// Builds the response for a file request from the outcome of the read.
pub fn respond_with_file(name: &str, read: Result<Vec<u8>, FsError>) -> (r: HttpResponse)
    ensures
        r@ == file_response(name@, read_view(read)),
{
    match read {
        Result::Ok(bytes) => HttpResponse {
            status: 200,
            content_type: content_type_for(name),
            body: Body::Bytes(bytes),
        },
        Result::Err(e) => {
            let status: u16 = match e {
                FsError::NotFound => 404,
                FsError::PermissionDenied => 500,
                FsError::Other => 500,
            };
            HttpResponse {
                status,
                content_type: "text/plain".to_owned(),
                body: Body::Text(String::new()),
            }
        },
    }
}

} // verus!
