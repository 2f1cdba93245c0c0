//! The gRPC-style envelope of the hub's binary transport: statuses, the
//! request and response envelopes, and the replies to unary calls.
//!
//! Encoding and decoding the envelopes as MessagePack is done by the
//! caller; this module decides what is answered.
use vstd::prelude::*;
use vstd::slice::slice_to_vec;
use vstd::string::StringSliceAdditionalSpecFns;
use vstd::utf8::encode_utf8;
use crate::text::{concat2, same_text};

verus! {

/// gRPC status codes.
#[derive(Debug, Clone, Copy, PartialEq, Eq, Structural)]
pub enum GrpcStatus {
    Okay,
    Cancelled,
    Unknown,
    InvalidArgument,
    DeadlineExceeded,
    NotFound,
    AlreadyExists,
    PermissionDenied,
    ResourceExhausted,
    FailedPrecondition,
    Aborted,
    OutOfRange,
    Unimplemented,
    Internal,
    Unavailable,
    DataLoss,
    Unauthenticated,
}

/// The gRPC status that stands for HTTP status `status`.
pub open spec fn status_for_http(status: u16) -> GrpcStatus {
    if status == 200 {
        GrpcStatus::Okay
    } else if status == 400 {
        GrpcStatus::InvalidArgument
    } else if status == 401 {
        GrpcStatus::Unauthenticated
    } else if status == 403 {
        GrpcStatus::PermissionDenied
    } else if status == 404 {
        GrpcStatus::NotFound
    } else if status == 409 {
        GrpcStatus::AlreadyExists
    } else if status == 429 {
        GrpcStatus::ResourceExhausted
    } else if status == 499 {
        GrpcStatus::Cancelled
    } else if status == 500 {
        GrpcStatus::Internal
    } else if status == 501 {
        GrpcStatus::Unimplemented
    } else if status == 503 {
        GrpcStatus::Unavailable
    } else if status == 504 {
        GrpcStatus::DeadlineExceeded
    } else {
        GrpcStatus::Unknown
    }
}

impl GrpcStatus {
    /// The gRPC status that stands for HTTP status `status`; statuses
    /// without a counterpart are `Unknown`.
    pub fn from_http_status(status: u16) -> (r: Self)
        ensures
            r == status_for_http(status),
    {
        match status {
            200 => GrpcStatus::Okay,
            400 => GrpcStatus::InvalidArgument,
            401 => GrpcStatus::Unauthenticated,
            403 => GrpcStatus::PermissionDenied,
            404 => GrpcStatus::NotFound,
            409 => GrpcStatus::AlreadyExists,
            429 => GrpcStatus::ResourceExhausted,
            499 => GrpcStatus::Cancelled,
            500 => GrpcStatus::Internal,
            501 => GrpcStatus::Unimplemented,
            503 => GrpcStatus::Unavailable,
            504 => GrpcStatus::DeadlineExceeded,
            _ => GrpcStatus::Unknown,
        }
    }
}

/// gRPC-style request envelope. The body is a MessagePack-encoded message.
#[derive(Debug, Clone)]
pub struct GrpcRequest {
    pub method: String,
    pub headers: Vec<(String, String)>,
    pub body: Vec<u8>,
}

/// gRPC-style response envelope.
#[derive(Debug, Clone)]
pub struct GrpcResponse {
    pub status: GrpcStatus,
    pub headers: Vec<(String, String)>,
    pub body: Vec<u8>,
    pub trailers: Vec<(String, String)>,
}

/// The method that sends a message through the hub.
pub open spec fn send_method() -> Seq<char> {
    "xfiles.Message/Send"@
}

/// Whether `r` has status `status`, no headers or trailers, and the UTF-8
/// bytes of `text` as its body.
pub open spec fn is_reply(r: GrpcResponse, status: GrpcStatus, text: Seq<char>) -> bool {
    &&& r.status == status
    &&& r.headers@.len() == 0
    &&& r.body@ == encode_utf8(text)
    &&& r.trailers@.len() == 0
}

impl GrpcResponse {
    /// A response with status `status`, no headers or trailers, and `text`
    /// as its body.
    pub fn reply(status: GrpcStatus, text: &str) -> (r: Self)
        ensures
            is_reply(r, status, text@),
    {
        GrpcResponse { status, headers: Vec::new(), body: slice_to_vec(text.as_bytes()), trailers: Vec::new() }
    }

    /// The response to a request envelope that could not be decoded, the
    /// decoder having said `error`.
    pub fn undecodable(error: &str) -> (r: Self)
        ensures
            is_reply(r, GrpcStatus::InvalidArgument, "decode error: "@ + error@),
    {
        let text = concat2("decode error: ", error);
        GrpcResponse::reply(GrpcStatus::InvalidArgument, text.as_str())
    }

    /// The response to a unary call of `method`. For the send method,
    /// `decode_error` is what decoding its body as a message said, if it
    /// failed; a decoded message is accepted.
    pub fn for_call(method: &str, decode_error: Option<&str>) -> (r: Self)
        ensures
            method@ != send_method() ==> is_reply(r, GrpcStatus::Unimplemented, "unimplemented"@),
            method@ == send_method() && decode_error is None ==> is_reply(r, GrpcStatus::Okay, "ok"@),
            method@ == send_method() && decode_error is Some ==>
                is_reply(r, GrpcStatus::InvalidArgument, "bad message: "@ + decode_error->0@),
    {
        if !same_text(method, "xfiles.Message/Send") {
            return GrpcResponse::reply(GrpcStatus::Unimplemented, "unimplemented");
        }
        match decode_error {
            None => GrpcResponse::reply(GrpcStatus::Okay, "ok"),
            Some(e) => {
                let text = concat2("bad message: ", e);
                GrpcResponse::reply(GrpcStatus::InvalidArgument, text.as_str())
            }
        }
    }
}

/// gRPC transport codec.
#[derive(Debug, Clone, Copy)]
pub struct GrpcCodec;

impl GrpcCodec {
    pub fn new() -> (r: Self) {
        GrpcCodec
    }
}

} // verus!
