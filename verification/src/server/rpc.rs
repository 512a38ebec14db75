//! The server's registry of RPC functions, and the dispatch of calls to them.
use vstd::prelude::*;
use crate::collections::AssocMap;
use crate::shared::types::ObjectId;
use crate::shared::rpc::{RpcType, RpcError, RpcFunctionInfo};
use crate::text::owned;

verus! {

/// The handler of an RPC function: a built-in one, or one that the
/// application keeps under a key.
#[derive(Debug, Clone, Copy, PartialEq, Eq, Structural)]
pub enum ServerRpcHandler {
    /// Answers `"pong"`.
    Ping,
    /// Answers with its arguments.
    Echo,
    /// A handler of the application.
    Registered(u64),
}

/// What RPC function registration info says, with its names as character sequences.
pub type FunctionInfoView = (Seq<char>, Seq<char>, RpcType, bool);

impl View for RpcFunctionInfo {
    type V = FunctionInfoView;

    open spec fn view(&self) -> FunctionInfoView {
        (self.name@, self.class_name@, self.rpc_type, self.is_reliable)
    }
}

/// The registry of RPC functions, by name.
pub struct RpcRegistry {
    entries: AssocMap<String, (RpcFunctionInfo, ServerRpcHandler)>,
}

impl View for RpcRegistry {
    type V = Map<Seq<char>, (FunctionInfoView, ServerRpcHandler)>;

    closed spec fn view(&self) -> Map<Seq<char>, (FunctionInfoView, ServerRpcHandler)> {
        self.entries@.map_values(|e: (RpcFunctionInfo, ServerRpcHandler)| (e.0@, e.1))
    }
}

impl RpcRegistry {
    pub fn new() -> (r: Self)
        ensures
            r@ == Map::<Seq<char>, (FunctionInfoView, ServerRpcHandler)>::empty(),
    {
        let r = RpcRegistry { entries: AssocMap::new() };
        assert(r@ =~= Map::<Seq<char>, (FunctionInfoView, ServerRpcHandler)>::empty());
        r
    }

    /// The registered functions, in the order in which they are listed.
    pub closed spec fn order(self) -> Seq<Seq<char>> {
        self.entries.key_seq()
    }
}

/// Register an RPC function with a handler, replacing any function of the same name.
pub fn register_rpc(
    registry: &mut RpcRegistry,
    name: &str,
    class_name: &str,
    rpc_type: RpcType,
    is_reliable: bool,
    handler: ServerRpcHandler,
)
    ensures
        final(registry)@ == old(registry)@.insert(name@, ((name@, class_name@, rpc_type, is_reliable), handler)),
{
    let info = RpcFunctionInfo { name: owned(name), class_name: owned(class_name), rpc_type, is_reliable };
    registry.entries.insert(owned(name), (info, handler));
    assert(registry@ =~= old(registry)@.insert(name@, ((name@, class_name@, rpc_type, is_reliable), handler)));
}

/// Get the registration info of all RPC functions.
pub fn get_registered_functions(registry: &RpcRegistry) -> (r: Vec<RpcFunctionInfo>)
    ensures
        r@.len() == registry.order().len(),
        registry.order().no_duplicates(),
        registry.order().to_set() == registry@.dom(),
        forall|i: int| 0 <= i < r@.len() ==> (#[trigger] r@[i])@ == registry@[registry.order()[i]].0,
{
    proof {
        registry.entries.lemma_dom();
        assert(registry@.dom() =~= registry.entries@.dom());
    }
    let n = registry.entries.len();
    let mut out: Vec<RpcFunctionInfo> = Vec::new();
    let mut i: usize = 0;
    while i < n
        invariant
            n == registry.order().len(),
            i <= n,
            out@.len() == i,
            forall|j: int| 0 <= j < i ==> (#[trigger] out@[j])@ == registry@[registry.order()[j]].0,
        decreases n - i,
    {
        let (_, e) = registry.entries.entry_at(i);
        out.push(e.0.clone());
        i = i + 1;
    }
    out
}

/// Look up the handler of a function.
pub fn get_handler(registry: &RpcRegistry, function_name: &str) -> (r: Option<ServerRpcHandler>)
    ensures
        r == (if registry@.contains_key(function_name@) { Some(registry@[function_name@].1) } else { None::<ServerRpcHandler> }),
{
    match registry.entries.get(&owned(function_name)) {
        Some(e) => Some(e.1),
        None => None,
    }
}

/// Get the registration info of a function.
pub fn get_function_info(registry: &RpcRegistry, function_name: &str) -> (r: Option<RpcFunctionInfo>)
    ensures
        match r {
            Some(info) => registry@.contains_key(function_name@) && info@ == registry@[function_name@].0,
            None => !registry@.contains_key(function_name@),
        },
{
    match registry.entries.get(&owned(function_name)) {
        Some(e) => Some(e.0.clone()),
        None => None,
    }
}

/// Check if a function exists in the registry.
pub fn function_exists(registry: &RpcRegistry, function_name: &str) -> (r: bool)
    ensures
        r == registry@.contains_key(function_name@),
{
    registry.entries.contains_key(&owned(function_name))
}

/// Register the RPC functions of a module: `register_fn` is called with the module's name.
pub fn register_module_rpcs<F: FnOnce(&str)>(module_name: &str, register_fn: F)
    requires
        call_requires(register_fn, (module_name,)),
    ensures
        call_ensures(register_fn, (module_name,), ()),
{
    register_fn(module_name);
}

/// Unregister an RPC function.
pub fn unregister_rpc(registry: &mut RpcRegistry, function_name: &str)
    ensures
        final(registry)@ == old(registry)@.remove(function_name@),
{
    let _ = registry.entries.remove(&owned(function_name));
    assert(registry@ =~= old(registry)@.remove(function_name@));
}

/// Clear all registered RPC functions.
pub fn clear_registry(registry: &mut RpcRegistry)
    ensures
        final(registry)@ == Map::<Seq<char>, (FunctionInfoView, ServerRpcHandler)>::empty(),
{
    registry.entries = AssocMap::new();
    assert(registry@ =~= Map::<Seq<char>, (FunctionInfoView, ServerRpcHandler)>::empty());
}

/// Register the built-in RPC functions `ping` and `echo`.
pub fn register_builtin_rpcs(registry: &mut RpcRegistry)
    ensures
        final(registry)@ == old(registry)@
            .insert("ping"@, (("ping"@, "Global"@, RpcType::Server, true), ServerRpcHandler::Ping))
            .insert("echo"@, (("echo"@, "Global"@, RpcType::Server, true), ServerRpcHandler::Echo)),
{
    register_rpc(registry, "ping", "Global", RpcType::Server, true, ServerRpcHandler::Ping);
    register_rpc(registry, "echo", "Global", RpcType::Server, true, ServerRpcHandler::Echo);
}

/// Initialize the RPC system: the built-in functions are registered.
pub fn init(registry: &mut RpcRegistry)
    ensures
        final(registry)@ == old(registry)@
            .insert("ping"@, (("ping"@, "Global"@, RpcType::Server, true), ServerRpcHandler::Ping))
            .insert("echo"@, (("echo"@, "Global"@, RpcType::Server, true), ServerRpcHandler::Echo)),
{
    register_builtin_rpcs(registry);
}

/// What running a handler gives: a result computed here, or the key of an
/// application handler that is to be run on the call.
pub enum HandlerRun {
    Done(Result<String, RpcError>),
    Application(u64),
}

/// Run the handler of a function on a call with arguments `args_json`.
pub fn execute_handler(registry: &RpcRegistry, function_name: &str, object_id: ObjectId, args_json: &str) -> (r: HandlerRun)
    ensures
        !registry@.contains_key(function_name@) ==> r matches HandlerRun::Done(Err(RpcError::FunctionNotFound)),
        registry@.contains_key(function_name@) ==> match registry@[function_name@].1 {
            ServerRpcHandler::Ping => r matches HandlerRun::Done(Ok(s)) && s@ == "\"pong\""@,
            ServerRpcHandler::Echo => r matches HandlerRun::Done(Ok(s)) && s@ == args_json@,
            ServerRpcHandler::Registered(k) => r == HandlerRun::Application(k),
        },
{
    match get_handler(registry, function_name) {
        None => HandlerRun::Done(Err(RpcError::FunctionNotFound)),
        Some(ServerRpcHandler::Ping) => HandlerRun::Done(Ok(owned("\"pong\""))),
        Some(ServerRpcHandler::Echo) => HandlerRun::Done(Ok(owned(args_json))),
        Some(ServerRpcHandler::Registered(k)) => HandlerRun::Application(k),
    }
}

/// The source of RPC call IDs: each call gets the next one, starting at 1.
pub struct CallIds {
    pub next: u64,
}

impl CallIds {
    pub fn new() -> (c: Self)
        ensures
            c.next == 1,
    {
        CallIds { next: 1 }
    }
}

/// A new RPC call ID.
pub fn get_next_call_id(ids: &mut CallIds) -> (r: u64)
    requires
        old(ids).next < u64::MAX,
    ensures
        r == old(ids).next,
        final(ids).next == old(ids).next + 1,
{
    let id = ids.next;
    ids.next = ids.next + 1;
    id
}

} // verus!
