//! Dispatch of RPC calls from clients to the registered functions, the log
//! of calls, and RPCs from the server to clients.
//!
//! Application handlers are closures kept by the application: a call whose
//! function has one is handed back to be run there, and its result is then
//! turned into the response here.
use vstd::prelude::*;
use crate::shared::types::ObjectId;
use crate::shared::rpc::{RpcCall, RpcResponse, RpcStatus, RpcError, RpcType};
use crate::shared::lifecycle::ObjectLifecycleState;
use crate::server::rpc::{RpcRegistry, CallIds, HandlerRun, ServerRpcHandler, FunctionInfoView, execute_handler,
    function_exists, get_next_call_id};
use crate::server::object::ObjectInstance;
use crate::server::connection::{Identity, ClientInfo, client_views, client_index, find_client};

verus! {

/// A logged RPC call.
#[derive(Debug)]
pub struct RpcLog {
    pub call_id: u64,
    pub sender: Option<Identity>,
    pub object_id: ObjectId,
    pub function_name: String,
    pub timestamp: u64,
    pub status: RpcStatus,
    pub error: Option<RpcError>,
}

/// Whether a live (not destroyed) object has an ID.
pub open spec fn live_object(objects: Seq<ObjectInstance>, id: ObjectId) -> bool {
    exists|i: int| 0 <= i < objects.len() && (#[trigger] objects[i]).object_id == id
        && objects[i].state != ObjectLifecycleState::Destroyed
}

fn has_live_object(objects: &Vec<ObjectInstance>, id: ObjectId) -> (r: bool)
    ensures
        r == live_object(objects@, id),
{
    let n = objects.len();
    let mut i: usize = 0;
    while i < n
        invariant
            n == objects@.len(),
            i <= n,
            forall|k: int| 0 <= k < i ==> !((#[trigger] objects@[k]).object_id == id
                && objects@[k].state != ObjectLifecycleState::Destroyed),
        decreases n - i,
    {
        if objects[i].object_id == id && objects[i].state != ObjectLifecycleState::Destroyed {
            return true;
        }
        i = i + 1;
    }
    false
}

/// A log entry of a call.
pub open spec fn log_entry(e: RpcLog, call_id: u64, sender: Option<Identity>, call: RpcCall, ts: u64,
    status: RpcStatus, error: Option<RpcError>) -> bool {
    &&& e.call_id == call_id
    &&& e.sender == sender
    &&& e.object_id == call.object_id
    &&& e.function_name@ == call.function_name@
    &&& e.timestamp == ts
    &&& e.status == status
    &&& e.error == error
}

/// Log an RPC call.
fn log_rpc_call(log: &mut Vec<RpcLog>, sender: Option<Identity>, call: &RpcCall, call_id: u64, timestamp: u64,
    status: RpcStatus, error: Option<RpcError>)
    ensures
        final(log)@.len() == old(log)@.len() + 1,
        final(log)@.drop_last() == old(log)@,
        log_entry(final(log)@.last(), call_id, sender, *call, timestamp, status, error),
{
    log.push(RpcLog {
        call_id,
        sender,
        object_id: call.object_id,
        function_name: call.function_name.clone(),
        timestamp,
        status,
        error,
    });
    assert(log@.drop_last() =~= old(log)@);
}

/// What dispatching a call gives: the response, or the application handler
/// (by key) to run for the call with the given ID.
pub enum CallStep {
    Respond(RpcResponse),
    RunApplication { call_id: u64, handler: u64 },
}

/// A failed response.
pub open spec fn failed(r: RpcResponse, call_id: u64, error: RpcError) -> bool {
    r.call_id == call_id && r.status == RpcStatus::Failed && r.result_json is None && r.error == Some(error)
}

/// The response for a handler's result.
pub open spec fn response_for(r: RpcResponse, call_id: u64, result: Result<String, RpcError>) -> bool {
    match result {
        Ok(s) => r.call_id == call_id && r.status == RpcStatus::Success && r.error is None
            && (r.result_json matches Some(t) && t@ == s@),
        Err(e) => failed(r, call_id, e),
    }
}

/// What finishing a call does: `r` is the response for the handler's result,
/// and the log gained one row that records the call with that result.
pub open spec fn completed(before: Seq<RpcLog>, after: Seq<RpcLog>, sender: Option<Identity>, timestamp: u64,
    call: RpcCall, call_id: u64, result: Result<String, RpcError>, r: RpcResponse) -> bool {
    &&& response_for(r, call_id, result)
    &&& after.drop_last() == before
    &&& after.len() == before.len() + 1
    &&& log_entry(after.last(), call_id, sender, call, timestamp,
            if result is Ok { RpcStatus::Success } else { RpcStatus::Failed },
            match result { Ok(_) => None, Err(e) => Some(e) })
}

/// Finish a call with the result of its handler: the call is logged and the
/// response built.
pub fn complete_call(log: &mut Vec<RpcLog>, sender: Option<Identity>, timestamp: u64, call: &RpcCall, call_id: u64,
    result: Result<String, RpcError>) -> (r: RpcResponse)
    ensures
        completed(old(log)@, final(log)@, sender, timestamp, *call, call_id, result, r),
{
    match result {
        Ok(s) => {
            log_rpc_call(log, sender, call, call_id, timestamp, RpcStatus::Success, None);
            RpcResponse { call_id, status: RpcStatus::Success, result_json: Some(s), error: None }
        },
        Err(e) => {
            log_rpc_call(log, sender, call, call_id, timestamp, RpcStatus::Failed, Some(e.clone()));
            RpcResponse { call_id, status: RpcStatus::Failed, result_json: None, error: Some(e) }
        },
    }
}

/// Dispatch a call to its handler.
pub fn dispatch_client_rpc(registry: &RpcRegistry, call: &RpcCall) -> (r: HandlerRun)
    ensures
        !registry@.contains_key(call.function_name@) ==> r matches HandlerRun::Done(Err(RpcError::FunctionNotFound)),
        registry@.contains_key(call.function_name@) ==> match registry@[call.function_name@].1 {
            ServerRpcHandler::Ping => r matches HandlerRun::Done(Ok(s)) && s@ == "\"pong\""@,
            ServerRpcHandler::Echo => r matches HandlerRun::Done(Ok(s)) && s@ == call.arguments_json@,
            ServerRpcHandler::Registered(k) => r == HandlerRun::Application(k),
        },
{
    execute_handler(registry, call.function_name.as_str(), call.object_id, call.arguments_json.as_str())
}

/// The ID a call is handled under: its own, or the next one.
pub open spec fn assigned_id(call: RpcCall, next: u64) -> u64 {
    match call.call_id {
        Some(c) => c,
        None => next,
    }
}

/// What handling a call under `call_id` does: an unknown function or object
/// fails and is logged; a built-in handler answers and is logged; an
/// application handler is handed back to run, with the log unchanged.
pub open spec fn call_step(registry: Map<Seq<char>, (FunctionInfoView, ServerRpcHandler)>,
    objects: Seq<ObjectInstance>, call: RpcCall, call_id: u64, sender: Option<Identity>, timestamp: u64,
    before: Seq<RpcLog>, after: Seq<RpcLog>, r: CallStep) -> bool {
    if !registry.contains_key(call.function_name@) {
        &&& r matches CallStep::Respond(resp) && failed(resp, call_id, RpcError::FunctionNotFound)
        &&& after.drop_last() == before && after.len() == before.len() + 1
        &&& log_entry(after.last(), call_id, sender, call, timestamp, RpcStatus::Failed,
            Some(RpcError::FunctionNotFound))
    } else if !live_object(objects, call.object_id) {
        &&& r matches CallStep::Respond(resp) && failed(resp, call_id, RpcError::ObjectNotFound(call.object_id))
        &&& after.drop_last() == before && after.len() == before.len() + 1
        &&& log_entry(after.last(), call_id, sender, call, timestamp, RpcStatus::Failed,
            Some(RpcError::ObjectNotFound(call.object_id)))
    } else {
        match registry[call.function_name@].1 {
            ServerRpcHandler::Registered(k) => {
                &&& r == CallStep::RunApplication { call_id, handler: k }
                &&& after == before
            },
            ServerRpcHandler::Ping => {
                &&& r matches CallStep::Respond(resp) && resp.call_id == call_id
                    && resp.status == RpcStatus::Success && resp.error is None
                    && (resp.result_json matches Some(t) && t@ == "\"pong\""@)
                &&& after.drop_last() == before && after.len() == before.len() + 1
                &&& log_entry(after.last(), call_id, sender, call, timestamp, RpcStatus::Success, None)
            },
            ServerRpcHandler::Echo => {
                &&& r matches CallStep::Respond(resp) && resp.call_id == call_id
                    && resp.status == RpcStatus::Success && resp.error is None
                    && (resp.result_json matches Some(t) && t@ == call.arguments_json@)
                &&& after.drop_last() == before && after.len() == before.len() + 1
                &&& log_entry(after.last(), call_id, sender, call, timestamp, RpcStatus::Success, None)
            },
        }
    }
}

/// Handle a client's call of a server function: the call gets its own ID
/// (or the next one); an unknown function or object (absent or destroyed)
/// fails; otherwise its handler runs (a built-in one here, an application
/// one by the caller, see `complete_call`). Every answered call is logged.
pub fn call_server_function(
    registry: &RpcRegistry,
    objects: &Vec<ObjectInstance>,
    ids: &mut CallIds,
    log: &mut Vec<RpcLog>,
    sender: Option<Identity>,
    timestamp: u64,
    call: &RpcCall,
) -> (r: CallStep)
    requires
        old(ids).next < u64::MAX,
    ensures
        final(ids).next == (if call.call_id is Some { old(ids).next } else { (old(ids).next + 1) as u64 }),
        call_step(registry@, objects@, *call, assigned_id(*call, old(ids).next), sender, timestamp,
            old(log)@, final(log)@, r),
{
    let call_id = match call.call_id {
        Some(c) => c,
        None => get_next_call_id(ids),
    };
    if !function_exists(registry, call.function_name.as_str()) {
        let resp = complete_call(log, sender, timestamp, call, call_id, Err(RpcError::FunctionNotFound));
        return CallStep::Respond(resp);
    }
    if !has_live_object(objects, call.object_id) {
        let resp = complete_call(log, sender, timestamp, call, call_id, Err(RpcError::ObjectNotFound(call.object_id)));
        return CallStep::Respond(resp);
    }
    match dispatch_client_rpc(registry, call) {
        HandlerRun::Done(result) => CallStep::Respond(complete_call(log, sender, timestamp, call, call_id, result)),
        HandlerRun::Application(k) => CallStep::RunApplication { call_id, handler: k },
    }
}

/// A call answered once: the response carries the call's ID, reports success
/// exactly when it carries a result and exactly when it carries no error, and
/// the log gained one row, with that ID and that status.
pub open spec fn answered(resp: RpcResponse, call_id: u64, before: Seq<RpcLog>, after: Seq<RpcLog>) -> bool {
    &&& resp.call_id == call_id
    &&& (resp.status == RpcStatus::Success) == (resp.result_json is Some)
    &&& (resp.result_json is Some) == (resp.error is None)
    &&& after.len() == before.len() + 1
    &&& after.drop_last() == before
    &&& after.last().call_id == call_id
    &&& after.last().status == resp.status
}

/// Every call of a server function is answered once. Whatever handling the
/// call decides, and, where it hands an application handler back, whatever
/// that handler returns and `complete_call` makes of it: the response carries
/// the call's own ID (or the next one), reports success exactly when it
/// carries a result and no error, and exactly one log row with that ID and
/// that status is added. A response for an application handler carries what
/// the handler returned: its result text, or its error.
pub proof fn law_call_answered(registry: Map<Seq<char>, (FunctionInfoView, ServerRpcHandler)>,
    objects: Seq<ObjectInstance>, call: RpcCall, next: u64, sender: Option<Identity>, timestamp: u64,
    log0: Seq<RpcLog>, log1: Seq<RpcLog>, step: CallStep, result: Result<String, RpcError>,
    log2: Seq<RpcLog>, resp: RpcResponse)
    requires
        call_step(registry, objects, call, assigned_id(call, next), sender, timestamp, log0, log1, step),
        step is RunApplication ==> completed(log1, log2, sender, timestamp, call, assigned_id(call, next),
            result, resp),
    ensures
        match step {
            CallStep::Respond(r) => answered(r, assigned_id(call, next), log0, log1),
            CallStep::RunApplication { call_id, handler: _ } => call_id == assigned_id(call, next)
                && answered(resp, call_id, log0, log2)
                && (result matches Ok(s) ==> (resp.result_json matches Some(t) && t@ == s@))
                && (result matches Err(x) ==> resp.error == Some(x)),
        },
{
}

/// An RPC addressed to a client.
pub open spec fn client_call(c: RpcCall, object_id: ObjectId, function_name: Seq<char>, args_json: Seq<char>,
    call_id: u64) -> bool {
    &&& c.object_id == object_id
    &&& c.function_name@ == function_name
    &&& c.arguments_json@ == args_json
    &&& c.rpc_type == RpcType::Client
    &&& c.call_id == Some(call_id)
}

/// Address an RPC to a connected client (one in the client table), with
/// the next call ID; `None` (and no ID used) when the client is not connected.
pub fn send_rpc_to_client(clients: &Vec<ClientInfo>, ids: &mut CallIds, client_identity: Identity,
    object_id: ObjectId, function_name: &str, args_json: &str) -> (r: Option<RpcCall>)
    requires
        old(ids).next < u64::MAX,
    ensures
        client_index(client_views(clients@), client_identity) is None ==> r is None && final(ids).next == old(ids).next,
        client_index(client_views(clients@), client_identity) is Some ==> (r matches Some(c) && client_call(c,
            object_id, function_name@, args_json@, old(ids).next)) && final(ids).next == old(ids).next + 1,
{
    if find_client(clients, client_identity).is_none() {
        return None;
    }
    let call_id = get_next_call_id(ids);
    Some(RpcCall {
        object_id,
        function_name: crate::text::owned(function_name),
        arguments_json: crate::text::owned(args_json),
        rpc_type: RpcType::Client,
        call_id: Some(call_id),
    })
}

/// The identities of the connected clients other than `excluded` (if any), in table order.
pub open spec fn recipients(clients: Seq<ClientInfo>, excluded: Option<Identity>) -> Seq<Identity> {
    clients.map_values(|c: ClientInfo| c.identity).filter(|id: Identity| Some(id) != excluded)
}

/// Address an RPC to each connected client except `excluded` (all of them
/// when `None`), each with its own call ID; returns the calls in table order.
pub fn send_rpc_to_others(clients: &Vec<ClientInfo>, ids: &mut CallIds, excluded: Option<Identity>,
    object_id: ObjectId, function_name: &str, args_json: &str) -> (r: Vec<(Identity, RpcCall)>)
    requires
        old(ids).next + clients@.len() <= u64::MAX,
    ensures
        r@.len() == recipients(clients@, excluded).len(),
        final(ids).next == old(ids).next + r@.len(),
        forall|i: int| 0 <= i < r@.len() ==> (#[trigger] r@[i]).0 == recipients(clients@, excluded)[i]
            && client_call(r@[i].1, object_id, function_name@, args_json@, (old(ids).next + i) as u64),
{
    let ghost ids_all = clients@.map_values(|c: ClientInfo| c.identity);
    let ghost keep = |id: Identity| Some(id) != excluded;
    let mut out: Vec<(Identity, RpcCall)> = Vec::new();
    let n = clients.len();
    let mut i: usize = 0;
    while i < n
        invariant
            n == clients@.len(),
            i <= n,
            ids_all == clients@.map_values(|c: ClientInfo| c.identity),
            keep == (|id: Identity| Some(id) != excluded),
            old(ids).next + n <= u64::MAX,
            out@.len() == ids_all.subrange(0, i as int).filter(keep).len(),
            out@.len() <= i,
            ids.next == old(ids).next + out@.len(),
            forall|k: int| 0 <= k < out@.len() ==> (#[trigger] out@[k]).0 == ids_all.subrange(0, i as int).filter(keep)[k]
                && client_call(out@[k].1, object_id, function_name@, args_json@, (old(ids).next + k) as u64),
        decreases n - i,
    {
        proof {
            reveal(Seq::filter);
            assert(ids_all.subrange(0, i + 1).drop_last() =~= ids_all.subrange(0, i as int));
        }
        let id = clients[i].identity;
        if Some(id) != excluded {
            let call_id = get_next_call_id(ids);
            out.push((id, RpcCall {
                object_id,
                function_name: crate::text::owned(function_name),
                arguments_json: crate::text::owned(args_json),
                rpc_type: RpcType::Client,
                call_id: Some(call_id),
            }));
        }
        i = i + 1;
    }
    assert(ids_all.subrange(0, n as int) =~= ids_all);
    out
}

/// Address an RPC to every connected client; returns how many there are,
/// and the calls.
pub fn broadcast_rpc(clients: &Vec<ClientInfo>, ids: &mut CallIds, object_id: ObjectId, function_name: &str,
    args_json: &str) -> (r: (usize, Vec<(Identity, RpcCall)>))
    requires
        old(ids).next + clients@.len() <= u64::MAX,
    ensures
        r.0 == clients@.len(),
        r.1@.len() == recipients(clients@, None).len(),
        final(ids).next == old(ids).next + r.1@.len(),
        forall|i: int| 0 <= i < r.1@.len() ==> (#[trigger] r.1@[i]).0 == recipients(clients@, None)[i]
            && client_call(r.1@[i].1, object_id, function_name@, args_json@, (old(ids).next + i) as u64),
{
    let calls = send_rpc_to_others(clients, ids, None, object_id, function_name, args_json);
    (clients.len(), calls)
}

/// The owner of the first live object with an ID, if it has one.
pub open spec fn live_owner(objects: Seq<ObjectInstance>, id: ObjectId) -> Option<Identity> {
    if live_object(objects, id) {
        let i = choose|i: int| 0 <= i < objects.len() && (#[trigger] objects[i]).object_id == id
            && objects[i].state != ObjectLifecycleState::Destroyed
            && forall|k: int| 0 <= k < i ==> !(objects[k].object_id == id && objects[k].state != ObjectLifecycleState::Destroyed);
        objects[i].owner_identity
    } else {
        None
    }
}

fn find_live_owner(objects: &Vec<ObjectInstance>, id: ObjectId) -> (r: Option<Identity>)
    ensures
        r == live_owner(objects@, id),
{
    let n = objects.len();
    let mut i: usize = 0;
    while i < n
        invariant
            n == objects@.len(),
            i <= n,
            forall|k: int| 0 <= k < i ==> !((#[trigger] objects@[k]).object_id == id
                && objects@[k].state != ObjectLifecycleState::Destroyed),
        decreases n - i,
    {
        if objects[i].object_id == id && objects[i].state != ObjectLifecycleState::Destroyed {
            proof {
                let c = choose|c: int| 0 <= c < objects@.len() && (#[trigger] objects@[c]).object_id == id
                    && objects@[c].state != ObjectLifecycleState::Destroyed
                    && forall|k: int| 0 <= k < c ==> !(objects@[k].object_id == id
                    && objects@[k].state != ObjectLifecycleState::Destroyed);
                if c > i {
                    assert(objects@[i as int].object_id == id);
                }
            }
            return objects[i].owner_identity;
        }
        i = i + 1;
    }
    None
}

/// Address an RPC to the owner of an object: an error when the object is
/// absent, destroyed or has no owner; otherwise the owner and the call (none
/// when the owner is not connected, see `send_rpc_to_client`).
pub fn send_rpc_to_owner(objects: &Vec<ObjectInstance>, clients: &Vec<ClientInfo>, ids: &mut CallIds,
    object_id: ObjectId, function_name: &str, args_json: &str) -> (r: Result<(Identity, Option<RpcCall>), String>)
    requires
        old(ids).next < u64::MAX,
    ensures
        match live_owner(objects@, object_id) {
            None => (r matches Err(e) && e@ == "No owner found for object "@ + crate::text::decimal(object_id as nat))
                && final(ids).next == old(ids).next,
            Some(owner) => r matches Ok((o, c)) && o == owner && (client_index(client_views(clients@), owner) is None
                ==> c is None && final(ids).next == old(ids).next) && (client_index(client_views(clients@), owner)
                is Some ==> (c matches Some(call) && client_call(call, object_id, function_name@, args_json@,
                old(ids).next)) && final(ids).next == old(ids).next + 1),
        },
{
    match find_live_owner(objects, object_id) {
        Some(owner) => {
            let call = send_rpc_to_client(clients, ids, owner, object_id, function_name, args_json);
            Ok((owner, call))
        },
        None => Err(crate::text::ending_with_number("No owner found for object ", object_id)),
    }
}

} // verus!
