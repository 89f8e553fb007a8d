//! The responses of the gateway: a status and a payload.

use vstd::prelude::*;

use crate::auth::AuthError;
use crate::record::{JsonValue, Record};

verus! {

/// The status of a request whose records were reconciled with the store.
pub const STATUS_OK: u16 = 200;

/// The status of a request for a collection outside the allowed namespace.
pub const STATUS_BAD_REQUEST: u16 = 400;

/// The status of a request with a wrong token.
pub const STATUS_UNAUTHORIZED: u16 = 401;

/// The status of a request whose batch the store rejected.
pub const STATUS_WRITE_FAILED: u16 = 500;

/// The payload of a response.
#[derive(Debug, PartialEq, Eq)]
pub enum ResponseBody {
    /// The records that were newly written, as they were submitted.
    Success { data: Vec<Record> },
    /// Why the request failed, in words fit for the caller.
    Error { message: String },
}

/// What the gateway answers to a request.
#[derive(Debug, PartialEq, Eq)]
pub struct Response {
    pub status: u16,
    pub body: ResponseBody,
}

/// The mathematical content of a [`ResponseBody`].
pub enum BodyView {
    Success { data: Seq<Map<Seq<char>, JsonValue>> },
    Error { message: Seq<char> },
}

/// The mathematical content of a [`Response`].
pub struct ResponseView {
    pub status: u16,
    pub body: BodyView,
}

impl View for ResponseBody {
    type V = BodyView;

    open spec fn view(&self) -> BodyView {
        match self {
            ResponseBody::Success { data } => BodyView::Success {
                data: data@.map_values(|record: Record| record@),
            },
            ResponseBody::Error { message } => BodyView::Error { message: message@ },
        }
    }
}

impl View for Response {
    type V = ResponseView;

    open spec fn view(&self) -> ResponseView {
        ResponseView { status: self.status, body: self.body@ }
    }
}

/// The answer to a wrong token.
pub open spec fn unauthorized_response() -> ResponseView {
    ResponseView {
        status: STATUS_UNAUTHORIZED,
        body: BodyView::Error { message: "Provide access token"@ },
    }
}

/// The answer to a collection outside the allowed namespace.
pub open spec fn forbidden_response() -> ResponseView {
    ResponseView {
        status: STATUS_BAD_REQUEST,
        body: BodyView::Error { message: "Can not write to this db collection"@ },
    }
}

/// The answer to a batch that the store rejected. It says nothing of the cause.
pub open spec fn write_failed_response() -> ResponseView {
    ResponseView {
        status: STATUS_WRITE_FAILED,
        body: BodyView::Error { message: "Failed to write update to db"@ },
    }
}

/// The answer that echoes the newly written records.
pub open spec fn success_response(data: Seq<Map<Seq<char>, JsonValue>>) -> ResponseView {
    ResponseView { status: STATUS_OK, body: BodyView::Success { data } }
}

/// The answer to a request that failed authorization.
pub open spec fn auth_failure_response(error: AuthError) -> ResponseView {
    match error {
        AuthError::Unauthorized => unauthorized_response(),
        AuthError::Forbidden => forbidden_response(),
    }
}

/// The value of the payload's `type` member.
pub open spec fn kind_of(body: BodyView) -> Seq<char> {
    match body {
        BodyView::Success { .. } => "success"@,
        BodyView::Error { .. } => "error"@,
    }
}

impl ResponseBody {
    /// The value of the payload's `type` member: `success` or `error`.
    pub fn kind(&self) -> (name: &'static str)
        ensures
            name@ == kind_of(self@),
    {
        match self {
            ResponseBody::Success { .. } => "success",
            ResponseBody::Error { .. } => "error",
        }
    }
}

impl Response {
    /// Turns a request away for the given reason.
    pub fn auth_failure(error: AuthError) -> (response: Response)
        ensures
            response@ == auth_failure_response(error),
    {
        match error {
            AuthError::Unauthorized => Response {
                status: STATUS_UNAUTHORIZED,
                body: ResponseBody::Error { message: "Provide access token".to_owned() },
            },
            AuthError::Forbidden => Response {
                status: STATUS_BAD_REQUEST,
                body: ResponseBody::Error {
                    message: "Can not write to this db collection".to_owned(),
                },
            },
        }
    }

    /// Reports that the store rejected the batch.
    pub fn write_failed() -> (response: Response)
        ensures
            response@ == write_failed_response(),
    {
        Response {
            status: STATUS_WRITE_FAILED,
            body: ResponseBody::Error { message: "Failed to write update to db".to_owned() },
        }
    }

    /// Echoes the newly written records.
    pub fn success(data: Vec<Record>) -> (response: Response)
        ensures
            response@ == success_response(data@.map_values(|record: Record| record@)),
    {
        Response { status: STATUS_OK, body: ResponseBody::Success { data } }
    }
}

} // verus!
