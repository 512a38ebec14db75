//! Client-side remote procedure calls: results, the requests sent to the
//! server, and the answers to calls from the server.
//!
//! Handlers for calls from the server are closures supplied by the game; the
//! caller runs the one registered under a name and hands its outcome in.
use vstd::prelude::*;
use crate::shared::types::{ObjectId, StatusCode};
use crate::text::{owned, decimal, format_u64};

verus! {

/// The result of an RPC call.
#[derive(Debug)]
pub struct RpcResult {
    pub status: StatusCode,
    /// Result data (JSON text).
    pub data: Option<String>,
    pub error: Option<String>,
}

impl RpcResult {
    /// A successful result.
    pub fn success(data: Option<String>) -> (r: Self)
        ensures
            r == (RpcResult { status: StatusCode::Success, data, error: None }),
    {
        RpcResult { status: StatusCode::Success, data, error: None }
    }

    /// A failed result with a message and a status.
    pub fn failure(error_msg: &str, status: StatusCode) -> (r: Self)
        ensures
            r.status == status,
            r.data is None,
            r.error matches Some(e) && e@ == error_msg@,
    {
        RpcResult { status, data: None, error: Some(owned(error_msg)) }
    }
}

/// The text of an RPC request to the server.
pub open spec fn request_text(client_id: u64, object_id: ObjectId, function_name: Seq<char>, args_json: Seq<char>)
    -> Seq<char> {
    "{\n            \"client_id\": "@ + decimal(client_id as nat) + ",\n            \"object_id\": "@
        + decimal(object_id as nat) + ",\n            \"function\": \""@ + function_name
        + "\",\n            \"args\": "@ + args_json + "\n        }"@
}

/// Build the text of an RPC request to the server.
pub fn send_rpc_to_server(client_id: u64, object_id: ObjectId, function_name: &str, args_json: &str) -> (r: String)
    ensures
        r@ == request_text(client_id, object_id, function_name@, args_json@),
{
    let mut s = owned("{\n            \"client_id\": ");
    let c = format_u64(client_id);
    s.append(c.as_str());
    s.append(",\n            \"object_id\": ");
    let o = format_u64(object_id);
    s.append(o.as_str());
    s.append(",\n            \"function\": \"");
    s.append(function_name);
    s.append("\",\n            \"args\": ");
    s.append(args_json);
    s.append("\n        }");
    s
}

/// Call a server RPC function: the request text to send, or an error when
/// not connected.
pub fn call_server_function(connected: bool, client_id: u64, object_id: ObjectId, function_name: &str,
    args_json: &str) -> (r: Result<String, String>)
    ensures
        connected ==> (r matches Ok(t) && t@ == request_text(client_id, object_id, function_name@, args_json@)),
        !connected ==> (r matches Err(e) && e@ == "Not connected to server"@),
{
    if !connected {
        return Err(owned("Not connected to server"));
    }
    Ok(send_rpc_to_server(client_id, object_id, function_name, args_json))
}

/// The result of a call to the server, given how sending its request went:
/// success, or a network error with the send's message.
pub fn call_result(sent: Result<(), String>) -> (r: RpcResult)
    ensures
        match sent {
            Ok(()) => r == RpcResult { status: StatusCode::Success, data: None, error: None },
            Err(e) => r.status == StatusCode::NetworkError && r.data is None && r.error == Some(e),
        },
{
    match sent {
        Ok(()) => RpcResult::success(None),
        Err(e) => RpcResult { status: StatusCode::NetworkError, data: None, error: Some(e) },
    }
}

/// The result of an incoming call from the server, given the outcome of the
/// handler registered under its name (`None` when there is none): success,
/// a failure with the handler's message, or "not found".
pub fn handle_server_call(function_name: &str, outcome: Option<Result<(), String>>) -> (r: Result<RpcResult, String>)
    ensures
        match outcome {
            Some(Ok(())) => r == Ok::<RpcResult, String>(RpcResult { status: StatusCode::Success, data: None, error: None }),
            Some(Err(e)) => r matches Ok(x) && x.status == StatusCode::Failure && x.data is None && x.error == Some(e),
            None => r matches Ok(x) && x.status == StatusCode::NotFound && x.data is None
                && (x.error matches Some(m) && m@ == "No handler registered for RPC function: "@ + function_name@),
        },
{
    match outcome {
        Some(Ok(())) => Ok(RpcResult::success(None)),
        Some(Err(e)) => Ok(RpcResult { status: StatusCode::Failure, data: None, error: Some(e) }),
        None => {
            let mut msg = owned("No handler registered for RPC function: ");
            msg.append(function_name);
            Ok(RpcResult { status: StatusCode::NotFound, data: None, error: Some(msg) })
        },
    }
}

/// The response to a server RPC call, carrying its data (JSON text) if any.
pub fn create_response(data: Option<&str>) -> (r: String)
    ensures
        r@ == match data {
            Some(d) => "{\"status\": \"success\", \"data\": "@ + d@ + "}"@,
            None => "{\"status\": \"success\"}"@,
        },
{
    match data {
        Some(d) => {
            let mut s = owned("{\"status\": \"success\", \"data\": ");
            s.append(d);
            s.append("}");
            s
        },
        None => owned("{\"status\": \"success\"}"),
    }
}

/// The error response to a server RPC call.
pub fn create_error_response(error_msg: &str) -> (r: String)
    ensures
        r@ == "{\"status\": \"error\", \"message\": \""@ + error_msg@ + "\"}"@,
{
    let mut s = owned("{\"status\": \"error\", \"message\": \"");
    s.append(error_msg);
    s.append("\"}");
    s
}

} // verus!
