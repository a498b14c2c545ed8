//! Transport-level JSON-RPC frame types.
//!
//! A frame is either a message (a request when it carries an id, a
//! notification when it does not) or a response, which carries exactly one
//! of a result and an error, and the id of the request it answers.
//! Identifiers are opaque strings.  Payloads (`params`, `result`, `error`)
//! are carried as raw JSON text: their content is not this layer's concern,
//! only that they can be framed and recovered intact.

use vstd::prelude::*;

verus! {

/// Mathematical model of a message: every field as a character sequence.
pub ghost struct RpcMessageModel {
    pub version: Seq<char>,
    pub method: Seq<char>,
    pub params: Option<Seq<char>>,
    pub id: Option<Seq<char>>,
}

/// An outbound request (id present) or notification (id absent).
#[derive(Debug, Clone)]
pub struct RpcMessage {
    /// Protocol version, normally `2.0`.
    pub version: String,
    /// Name of the remote method invoked.
    pub method: String,
    /// Raw JSON text of the call's parameters, if any.
    pub params: Option<String>,
    /// Correlation id; present exactly on requests.
    pub id: Option<String>,
}

impl View for RpcMessage {
    type V = RpcMessageModel;

    open spec fn view(&self) -> RpcMessageModel {
        RpcMessageModel {
            version: self.version@,
            method: self.method@,
            params: match self.params {
                Some(ref p) => Some(p@),
                None => None,
            },
            id: match self.id {
                Some(ref i) => Some(i@),
                None => None,
            },
        }
    }
}

/// Mathematical model of a response.
pub ghost struct RpcResponseModel {
    pub version: Seq<char>,
    pub result: Option<Seq<char>>,
    pub error: Option<Seq<char>>,
    pub id: Seq<char>,
}

/// An inbound response, correlated to a request by its id.
#[derive(Debug, Clone)]
pub struct RpcResponse {
    /// Protocol version, normally `2.0`.
    pub version: String,
    /// Raw JSON text of the result, on success.
    pub result: Option<String>,
    /// Raw JSON text of the error, on failure.
    pub error: Option<String>,
    /// Id of the request this answers.
    pub id: String,
}

impl View for RpcResponse {
    type V = RpcResponseModel;

    open spec fn view(&self) -> RpcResponseModel {
        RpcResponseModel {
            version: self.version@,
            result: match self.result {
                Some(ref r) => Some(r@),
                None => None,
            },
            error: match self.error {
                Some(ref e) => Some(e@),
                None => None,
            },
            id: self.id@,
        }
    }
}

impl RpcResponseModel {
    /// Exactly one of result and error is set.
    pub open spec fn wf(self) -> bool {
        self.result is Some <==> self.error is None
    }
}

/// Mathematical model of a decoded frame.
pub ghost enum FrameModel {
    Message(RpcMessageModel),
    Response(RpcResponseModel),
}

/// A decoded frame: a message (request or notification) or a response.
#[derive(Debug, Clone)]
pub enum Frame {
    /// A request or notification.
    Message(RpcMessage),
    /// A response to an earlier request.
    Response(RpcResponse),
}

impl View for Frame {
    type V = FrameModel;

    open spec fn view(&self) -> FrameModel {
        match self {
            Frame::Message(m) => FrameModel::Message(m@),
            Frame::Response(r) => FrameModel::Response(r@),
        }
    }
}

} // verus!
