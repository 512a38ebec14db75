//! Remote procedure call types shared by client and server.
use vstd::prelude::*;
use crate::shared::types::ObjectId;

verus! {

/// Types of RPC calls.
#[derive(Debug, Clone, Copy, PartialEq, Eq, Structural)]
pub enum RpcType {
    /// Server to client.
    Client,
    /// Client to server.
    Server,
    /// Multicast to all clients from the server.
    Multicast,
    /// Server to the owner client only.
    OwnerOnly,
}

/// Status of an RPC call.
#[derive(Debug, Clone, Copy, PartialEq, Eq, Structural)]
pub enum RpcStatus {
    Success,
    Failed,
    Pending,
    Rejected,
}

/// Error kinds of RPC calls.
#[derive(Debug)]
pub enum RpcError {
    FunctionNotFound,
    InvalidArguments(String),
    ObjectNotFound(ObjectId),
    PermissionDenied,
    InternalError(String),
    NetworkError(String),
    Timeout,
    ExecutionFailed(String),
}

impl Clone for RpcError {
    fn clone(&self) -> (r: Self)
        ensures
            r == *self,
    {
        match self {
            RpcError::FunctionNotFound => RpcError::FunctionNotFound,
            RpcError::InvalidArguments(s) => RpcError::InvalidArguments(s.clone()),
            RpcError::ObjectNotFound(id) => RpcError::ObjectNotFound(*id),
            RpcError::PermissionDenied => RpcError::PermissionDenied,
            RpcError::InternalError(s) => RpcError::InternalError(s.clone()),
            RpcError::NetworkError(s) => RpcError::NetworkError(s.clone()),
            RpcError::Timeout => RpcError::Timeout,
            RpcError::ExecutionFailed(s) => RpcError::ExecutionFailed(s.clone()),
        }
    }
}

/// An RPC call request.
#[derive(Debug)]
pub struct RpcCall {
    pub object_id: ObjectId,
    pub function_name: String,
    pub arguments_json: String,
    pub rpc_type: RpcType,
    pub call_id: Option<u64>,
}

/// Response to an RPC call.
#[derive(Debug)]
pub struct RpcResponse {
    pub call_id: u64,
    pub status: RpcStatus,
    pub result_json: Option<String>,
    pub error: Option<RpcError>,
}

/// RPC function registration info.
#[derive(Debug)]
pub struct RpcFunctionInfo {
    pub name: String,
    pub class_name: String,
    pub rpc_type: RpcType,
    pub is_reliable: bool,
}

impl Clone for RpcFunctionInfo {
    fn clone(&self) -> (r: Self)
        ensures
            r == *self,
    {
        RpcFunctionInfo {
            name: self.name.clone(),
            class_name: self.class_name.clone(),
            rpc_type: self.rpc_type,
            is_reliable: self.is_reliable,
        }
    }
}

} // verus!
