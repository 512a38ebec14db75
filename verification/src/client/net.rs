//! Connection state of the client, the table update handlers, subscriptions
//! and the decoding of messages from the server.
//!
//! Sending and receiving text is left to the caller: the functions here decide
//! what to send (as JSON documents) and what a received document means.
use vstd::prelude::*;
use crate::json::{JsonValue, JsonOut, field, get_field, take_field};
use crate::shared::connection::{ConnectionState, ConnectionParams, DisconnectReason};
use crate::client::property::{PropertyDefinitions, TableOp, TableRowOperation, TableUpdate, RowOp, row_ops,
    definition_update, handle_property_definition_update, ClassDefinitions, string_member};
use crate::text::{owned, str_eq};

verus! {

broadcast use vstd::string::group_string_axioms;

/// The client ID a connection is given.
pub const SIMULATED_CLIENT_ID: u64 = 12345;

/// The largest message, in bytes, that can be sent.
pub const MAX_MESSAGE_BYTES: usize = 10000;

/// What a table handler does with the updates of its table.
#[derive(Debug, Clone, Copy, PartialEq, Eq, Structural)]
pub enum TableHandlerKind {
    /// Applies property definition rows to the property definitions.
    PropertyDefinitions,
    /// Accepts the update and does nothing with it.
    LogUpdates,
    /// A handler of the application's, by its key; the application runs it.
    Application(u64),
}

/// A handler for the updates of one table.
pub struct TableHandler {
    pub table_name: String,
    pub kind: TableHandlerKind,
}

impl View for TableHandler {
    type V = (Seq<char>, TableHandlerKind);

    open spec fn view(&self) -> (Seq<char>, TableHandlerKind) {
        (self.table_name@, self.kind)
    }
}

/// The client's side of the connection: its state, its ID, the table
/// handlers and the subscribed tables.
pub struct NetClient {
    pub state: ConnectionState,
    pub client_id: u64,
    pub handlers: Vec<TableHandler>,
    pub subscribed: Vec<String>,
}

/// The handlers, by table name and kind.
pub open spec fn handler_views(hs: Seq<TableHandler>) -> Seq<(Seq<char>, TableHandlerKind)> {
    hs.map_values(|h: TableHandler| h@)
}

/// The subscribed table names.
pub open spec fn name_views(ns: Seq<String>) -> Seq<Seq<char>> {
    ns.map_values(|n: String| n@)
}

impl NetClient {
    pub fn new() -> (c: Self)
        ensures
            c.state == ConnectionState::Disconnected,
            c.client_id == 0,
            c.handlers@.len() == 0,
            c.subscribed@.len() == 0,
    {
        NetClient { state: ConnectionState::Disconnected, client_id: 0, handlers: Vec::new(), subscribed: Vec::new() }
    }
}

/// Register a handler for the updates of a table.
pub fn register_table_handler(client: &mut NetClient, table_name: &str, kind: TableHandlerKind)
    ensures
        handler_views(final(client).handlers@) == handler_views(old(client).handlers@).push((table_name@, kind)),
        final(client).state == old(client).state,
        final(client).client_id == old(client).client_id,
        final(client).subscribed@ == old(client).subscribed@,
{
    client.handlers.push(TableHandler { table_name: owned(table_name), kind });
    assert(handler_views(client.handlers@) =~= handler_views(old(client).handlers@).push((table_name@, kind)));
}

/// Connect to the server: the client becomes connected with its ID, unless it
/// is connected or connecting already.
pub fn connect(client: &mut NetClient, params: ConnectionParams) -> (r: Result<(), String>)
    ensures
        (old(client).state == ConnectionState::Connected || old(client).state == ConnectionState::Connecting) ==> {
            &&& r matches Err(e) && e@ == "Already connected or connecting"@
            &&& *final(client) == *old(client)
        },
        !(old(client).state == ConnectionState::Connected || old(client).state == ConnectionState::Connecting) ==> {
            &&& r is Ok
            &&& final(client).state == ConnectionState::Connected
            &&& final(client).client_id == SIMULATED_CLIENT_ID
            &&& final(client).handlers == old(client).handlers
            &&& final(client).subscribed == old(client).subscribed
        },
{
    if client.state == ConnectionState::Connected || client.state == ConnectionState::Connecting {
        return Err(owned("Already connected or connecting"));
    }
    client.state = ConnectionState::Connecting;
    client.state = ConnectionState::Connected;
    client.client_id = SIMULATED_CLIENT_ID;
    Ok(())
}

/// Disconnect from the server; returns false when there was no connection to close.
pub fn disconnect(client: &mut NetClient) -> (r: bool)
    ensures
        r == (old(client).state == ConnectionState::Connected || old(client).state == ConnectionState::Connecting),
        r ==> final(client).state == ConnectionState::Disconnected && final(client).client_id == 0
            && final(client).handlers == old(client).handlers && final(client).subscribed == old(client).subscribed,
        !r ==> *final(client) == *old(client),
{
    if client.state != ConnectionState::Connected && client.state != ConnectionState::Connecting {
        return false;
    }
    client.state = ConnectionState::Disconnected;
    client.client_id = 0;
    true
}

/// The message passed to the disconnection handler when the client disconnects.
pub fn client_disconnect_message() -> (r: String)
    ensures
        r@ == "Disconnected by client"@,
{
    owned("Disconnected by client")
}

/// Check if connected to the server.
pub fn is_connected(client: &NetClient) -> (r: bool)
    ensures
        r == (client.state == ConnectionState::Connected),
{
    client.state == ConnectionState::Connected
}

/// Get the client ID.
pub fn get_client_id(client: &NetClient) -> (r: u64)
    ensures
        r == client.client_id,
{
    client.client_id
}

/// The hexadecimal digits, in order.
pub open spec fn hex_digits() -> Seq<char> {
    "0123456789abcdef"@
}

/// The `i`-th of the 16 hexadecimal digits of `id`, most significant first.
pub open spec fn hex_digit_of(id: u64, i: int) -> int {
    ((id >> ((60 - 4 * i) as u64)) & 15u64) as int
}

/// `id` written as 16 lowercase hexadecimal digits.
pub open spec fn hex16(id: u64) -> Seq<char> {
    Seq::new(16, |i: int| hex_digits()[hex_digit_of(id, i)])
}

/// `id` written as 16 lowercase hexadecimal digits, with leading zeros.
pub fn format_hex16(id: u64) -> (r: String)
    ensures
        r@ == hex16(id),
{
    let digits: &str = "0123456789abcdef";
    proof {
        reveal_strlit("0123456789abcdef");
    }
    let mut out = String::new();
    let mut i: u64 = 0;
    while i < 16
        invariant
            i <= 16,
            digits@ == hex_digits(),
            digits@.len() == 16,
            out@ == hex16(id).take(i as int),
        decreases 16 - i,
    {
        let sh: u64 = 60 - 4 * i;
        let d: u64 = (id >> sh) & 15;
        assert(d < 16) by (bit_vector)
            requires
                d == (id >> sh) & 15,
        ;
        let du = d as usize;
        let piece = digits.substring_char(du, du + 1);
        out.append(piece);
        proof {
            assert(hex_digit_of(id, i as int) == d as int);
            assert(hex16(id).take(i as int + 1) =~= hex16(id).take(i as int).push(hex_digits()[d as int]));
            assert(piece@ =~= seq![hex_digits()[d as int]]);
        }
        i = i + 1;
    }
    proof {
        assert(hex16(id).take(16) =~= hex16(id));
    }
    out
}

/// Get the client identity as a hex string: the client ID as 16 lowercase
/// hexadecimal digits while connected with a non-zero ID.
pub fn get_client_identity_hex(client: &NetClient) -> (r: Option<String>)
    ensures
        match r {
            Some(s) => client.state == ConnectionState::Connected && client.client_id != 0 && s@ == hex16(client.client_id),
            None => client.state != ConnectionState::Connected || client.client_id == 0,
        },
{
    if !is_connected(client) {
        return None;
    }
    let client_id = get_client_id(client);
    if client_id == 0 {
        return None;
    }
    Some(format_hex16(client_id))
}

/// The disconnect reason a transport reason names.
pub open spec fn spec_disconnect_reason(reason: Seq<char>) -> DisconnectReason {
    if reason == "ClosedByClient"@ {
        DisconnectReason::ClientRequest
    } else if reason == "ClosedByServer"@ {
        DisconnectReason::ServerShutdown
    } else if reason == "Timeout"@ {
        DisconnectReason::Timeout
    } else {
        DisconnectReason::Unknown
    }
}

/// Convert a transport's disconnect reason to the shared disconnect reason.
pub fn convert_disconnect_reason(reason: String) -> (r: DisconnectReason)
    ensures
        reason@ == "ConnectionError"@ ==> (r matches DisconnectReason::NetworkError(m) && m@ == reason@),
        reason@ != "ConnectionError"@ ==> r == spec_disconnect_reason(reason@),
{
    proof {
        reveal_strlit("ClosedByClient");
        reveal_strlit("ClosedByServer");
        reveal_strlit("ConnectionError");
        reveal_strlit("Timeout");
        assert("ConnectionError"@.len() != "ClosedByClient"@.len());
        assert("ConnectionError"@.len() != "ClosedByServer"@.len());
    }
    if str_eq(reason.as_str(), "ClosedByClient") {
        DisconnectReason::ClientRequest
    } else if str_eq(reason.as_str(), "ClosedByServer") {
        DisconnectReason::ServerShutdown
    } else if str_eq(reason.as_str(), "ConnectionError") {
        DisconnectReason::NetworkError(reason)
    } else if str_eq(reason.as_str(), "Timeout") {
        DisconnectReason::Timeout
    } else {
        DisconnectReason::Unknown
    }
}

/// Check a message before it is sent: the client must be connected and the
/// message at most `MAX_MESSAGE_BYTES` bytes long. A message that is too long
/// is also reported to the error handler with the returned notice.
pub fn send_message(client: &NetClient, message: &str) -> (r: (Result<(), String>, Option<String>))
    ensures
        client.state != ConnectionState::Connected ==> (r.0 matches Err(e) && e@ == "Not connected to server"@) && r.1 is None,
        client.state == ConnectionState::Connected && message.len() > MAX_MESSAGE_BYTES ==>
            (r.0 matches Err(e) && e@ == "Message too large"@) && (r.1 matches Some(n) && n@ == "Network error: Message too large"@),
        client.state == ConnectionState::Connected && message.len() <= MAX_MESSAGE_BYTES ==> r.0 is Ok && r.1 is None,
{
    if !is_connected(client) {
        return (Err(owned("Not connected to server")), None);
    }
    if message.len() > MAX_MESSAGE_BYTES {
        return (Err(owned("Message too large")), Some(owned("Network error: Message too large")));
    }
    (Ok(()), None)
}

/// A message `{"type": kind, "table": table, "client_id": id}`.
pub open spec fn table_message(o: JsonOut, kind: Seq<char>, table: Seq<char>, client_id: u64) -> bool {
    match o {
        JsonOut::Object(fs) => {
            &&& fs@.len() == 3
            &&& fs@[0].0@ == "type"@ && (fs@[0].1 matches JsonOut::String(t) && t@ == kind)
            &&& fs@[1].0@ == "table"@ && (fs@[1].1 matches JsonOut::String(t) && t@ == table)
            &&& fs@[2].0@ == "client_id"@ && fs@[2].1 == JsonOut::UInt(client_id)
        },
        _ => false,
    }
}

fn make_table_message(kind: &str, table: &str, client_id: u64) -> (o: JsonOut)
    ensures
        table_message(o, kind@, table@, client_id),
{
    let mut fs: Vec<(String, JsonOut)> = Vec::new();
    fs.push((owned("type"), JsonOut::String(owned(kind))));
    fs.push((owned("table"), JsonOut::String(owned(table))));
    fs.push((owned("client_id"), JsonOut::UInt(client_id)));
    JsonOut::Object(fs)
}

/// The subscription request for a table.
pub fn subscription_message(client: &NetClient, table_name: &str) -> (o: JsonOut)
    ensures
        table_message(o, "subscribe"@, table_name@, client.client_id),
{
    make_table_message("subscribe", table_name, client.client_id)
}

/// The unsubscription request for a table.
pub fn unsubscription_message(client: &NetClient, table_name: &str) -> (o: JsonOut)
    ensures
        table_message(o, "unsubscribe"@, table_name@, client.client_id),
{
    make_table_message("unsubscribe", table_name, client.client_id)
}

/// An RPC message `{"type": "rpc", "payload": payload, "client_id": id}`.
pub open spec fn rpc_envelope(o: JsonOut, payload: JsonOut, client_id: u64) -> bool {
    match o {
        JsonOut::Object(fs) => {
            &&& fs@.len() == 3
            &&& fs@[0].0@ == "type"@ && (fs@[0].1 matches JsonOut::String(t) && t@ == "rpc"@)
            &&& fs@[1].0@ == "payload"@ && fs@[1].1 == payload
            &&& fs@[2].0@ == "client_id"@ && fs@[2].1 == JsonOut::UInt(client_id)
        },
        _ => false,
    }
}

/// Wrap an RPC request in its message envelope.
pub fn rpc_message(client: &NetClient, payload: JsonOut) -> (o: JsonOut)
    ensures
        rpc_envelope(o, payload, client.client_id),
{
    let mut fs: Vec<(String, JsonOut)> = Vec::new();
    fs.push((owned("type"), JsonOut::String(owned("rpc"))));
    fs.push((owned("payload"), payload));
    fs.push((owned("client_id"), JsonOut::UInt(client.client_id)));
    JsonOut::Object(fs)
}

/// A property update message.
pub open spec fn property_update_envelope(o: JsonOut, object_id: u64, property: Seq<char>, value: JsonOut, client_id: u64) -> bool {
    match o {
        JsonOut::Object(fs) => {
            &&& fs@.len() == 5
            &&& fs@[0].0@ == "type"@ && (fs@[0].1 matches JsonOut::String(t) && t@ == "property_update"@)
            &&& fs@[1].0@ == "object_id"@ && fs@[1].1 == JsonOut::UInt(object_id)
            &&& fs@[2].0@ == "property"@ && (fs@[2].1 matches JsonOut::String(t) && t@ == property)
            &&& fs@[3].0@ == "value"@ && fs@[3].1 == value
            &&& fs@[4].0@ == "client_id"@ && fs@[4].1 == JsonOut::UInt(client_id)
        },
        _ => false,
    }
}

/// Build the message that sends a property's new value to the server.
pub fn property_update_message(client: &NetClient, object_id: u64, property_name: &str, value: JsonOut) -> (o: JsonOut)
    ensures
        property_update_envelope(o, object_id, property_name@, value, client.client_id),
{
    let mut fs: Vec<(String, JsonOut)> = Vec::new();
    fs.push((owned("type"), JsonOut::String(owned("property_update"))));
    fs.push((owned("object_id"), JsonOut::UInt(object_id)));
    fs.push((owned("property"), JsonOut::String(owned(property_name))));
    fs.push((owned("value"), value));
    fs.push((owned("client_id"), JsonOut::UInt(client.client_id)));
    JsonOut::Object(fs)
}

/// How running the handlers `hs` of table `table` on its row operations
/// `ops`, from the `start`-th handler on, ends: the definitions afterwards, the
/// first error a handler returned, if any (the handlers after it do not run;
/// what it applied before failing stays), and, where an application handler
/// comes first, its key and the position to go on from once it has run.
pub open spec fn handlers_from(
    m: Map<Seq<char>, ClassDefinitions>,
    hs: Seq<(Seq<char>, TableHandlerKind)>,
    start: int,
    table: Seq<char>,
    ops: Seq<RowOp>,
) -> (Map<Seq<char>, ClassDefinitions>, Option<Seq<char>>, Option<(u64, int)>)
    decreases hs.len() - start,
{
    if start < 0 || start >= hs.len() {
        (m, None, None)
    } else if hs[start].0 != table {
        handlers_from(m, hs, start + 1, table, ops)
    } else {
        match hs[start].1 {
            TableHandlerKind::LogUpdates => handlers_from(m, hs, start + 1, table, ops),
            TableHandlerKind::Application(k) => (m, None, Some((k, start + 1))),
            TableHandlerKind::PropertyDefinitions => match definition_update(m, ops) {
                (m2, Some(e)) => (m2, Some(e), None),
                (m2, None) => handlers_from(m2, hs, start + 1, table, ops),
            },
        }
    }
}

/// Where running the handlers of a table update stops: at its end, with the
/// result, or at an application handler, which the application runs on the
/// update before the rest run from `resume` on.
#[derive(Debug)]
pub enum TableStep {
    Done(Result<(), String>),
    RunApplication { handler: u64, resume: usize },
}

/// The step that ends a run of handlers (see `handlers_from`).
pub open spec fn step_of(e: Option<Seq<char>>, p: Option<(u64, int)>, r: TableStep) -> bool {
    match p {
        Some((k, next)) => r matches TableStep::RunApplication { handler, resume } && handler == k && resume == next,
        None => match e {
            Some(msg) => r matches TableStep::Done(Err(x)) && x@ == msg,
            None => r matches TableStep::Done(Ok(())),
        },
    }
}

/// Process a table update: run, in registration order from the `from`-th
/// handler on, every handler of its table, up to the first that fails or the
/// first of the application's.
pub fn process_table_update(client: &NetClient, defs: &mut PropertyDefinitions, update: &TableUpdate, from: usize)
    -> (r: TableStep)
    ensures
        ({
            let (m, e, p) = handlers_from(old(defs)@, handler_views(client.handlers@), from as int,
                update.table_name@, row_ops(update.table_row_operations@));
            &&& final(defs)@ == m
            &&& step_of(e, p, r)
        }),
{
    let ghost hvs = handler_views(client.handlers@);
    let ghost ops = row_ops(update.table_row_operations@);
    let ghost goal = handlers_from(defs@, hvs, from as int, update.table_name@, ops);
    let n = client.handlers.len();
    let mut i: usize = from;
    while i < n
        invariant
            n == client.handlers@.len(),
            hvs == handler_views(client.handlers@),
            ops == row_ops(update.table_row_operations@),
            from <= i,
            goal == handlers_from(defs@, hvs, i as int, update.table_name@, ops),
            goal == handlers_from(old(defs)@, hvs, from as int, update.table_name@, ops),
        decreases n - i,
    {
        let h = &client.handlers[i];
        assert(hvs[i as int] == h@);
        if str_eq(h.table_name.as_str(), update.table_name.as_str()) {
            match h.kind {
                TableHandlerKind::LogUpdates => {},
                TableHandlerKind::Application(k) => {
                    return TableStep::RunApplication { handler: k, resume: i + 1 };
                },
                TableHandlerKind::PropertyDefinitions => {
                    let ghost before = defs@;
                    match handle_property_definition_update(defs, update) {
                        Ok(()) => {},
                        Err(e) => {
                            assert(definition_update(before, ops) == (defs@, Some(e@)));
                            return TableStep::Done(Err(e));
                        },
                    }
                },
            }
        }
        i = i + 1;
    }
    TableStep::Done(Ok(()))
}

/// What a received row operation does: `update` and `delete` name themselves,
/// anything else is an insertion.
pub open spec fn op_of(v: JsonValue) -> TableOp {
    match v {
        JsonValue::Object(f) => match field(f@, "op"@) {
            Some(JsonValue::String(s)) => if s@ == "update"@ {
                TableOp::Update
            } else if s@ == "delete"@ {
                TableOp::Delete
            } else {
                TableOp::Insert
            },
            _ => TableOp::Insert,
        },
        _ => TableOp::Insert,
    }
}

/// The row of a received row operation, when it is an object.
pub open spec fn row_of(v: JsonValue) -> Option<Seq<(String, JsonValue)>> {
    match v {
        JsonValue::Object(f) => match field(f@, "row"@) {
            Some(JsonValue::Object(m)) => Some(m@),
            _ => None,
        },
        _ => None,
    }
}

/// The row operations a message's `operations` member gives (none unless it is an array).
pub open spec fn decoded_ops(v: Option<JsonValue>) -> Seq<RowOp> {
    match v {
        Some(JsonValue::Array(ops)) => ops@.map_values(|o: JsonValue| (op_of(o), row_of(o))),
        _ => Seq::empty(),
    }
}

fn decode_operation(op: JsonValue) -> (r: TableRowOperation)
    ensures
        r@ == (op_of(op), row_of(op)),
{
    match op {
        JsonValue::Object(mut f) => {
            let ghost f0 = f@;
            let operation = match get_field(&f, "op") {
                Some(JsonValue::String(s)) => {
                    if str_eq(s.as_str(), "update") {
                        TableOp::Update
                    } else if str_eq(s.as_str(), "delete") {
                        TableOp::Delete
                    } else {
                        TableOp::Insert
                    }
                },
                _ => TableOp::Insert,
            };
            let row = match take_field(&mut f, "row") {
                Some(JsonValue::Object(m)) => Some(m),
                _ => None,
            };
            TableRowOperation { operation, row }
        },
        _ => TableRowOperation { operation: TableOp::Insert, row: None },
    }
}

fn decode_operations(v: Option<JsonValue>) -> (r: Vec<TableRowOperation>)
    ensures
        row_ops(r@) == decoded_ops(v),
{
    match v {
        Some(JsonValue::Array(ops)) => {
            let ghost all = ops@;
            let mut rest = ops;
            let mut out: Vec<TableRowOperation> = Vec::new();
            let n = rest.len();
            let mut k: usize = 0;
            while k < n
                invariant
                    n == all.len(),
                    k <= n,
                    rest@ == all.skip(k as int),
                    row_ops(out@) == all.take(k as int).map_values(|o: JsonValue| (op_of(o), row_of(o))),
                decreases n - k,
            {
                assert(rest@.len() > 0);
                let op = rest.remove(0);
                assert(op == all[k as int]);
                let d = decode_operation(op);
                let ghost out0 = out@;
                out.push(d);
                proof {
                    assert(out@ == out0.push(d));
                    assert(row_ops(out@) =~= row_ops(out0).push(d@));
                    assert(rest@ =~= all.skip(k + 1));
                    assert(all.take(k + 1) =~= all.take(k as int).push(all[k as int]));
                    assert(row_ops(out@) =~= all.take(k + 1).map_values(|o: JsonValue| (op_of(o), row_of(o))));
                }
                k = k + 1;
            }
            assert(all.take(n as int) =~= all);
            out
        },
        _ => {
            let out: Vec<TableRowOperation> = Vec::new();
            assert(row_ops(out@) =~= Seq::<RowOp>::empty());
            out
        },
    }
}

/// The message type of a received document.
pub open spec fn message_type(msg: JsonValue) -> Option<Seq<char>> {
    match msg {
        JsonValue::Object(f) => string_member(f@, "type"@),
        _ => None,
    }
}

/// The members of a received document (none unless it is an object).
pub open spec fn members(msg: JsonValue) -> Seq<(String, JsonValue)> {
    match msg {
        JsonValue::Object(f) => f@,
        _ => Seq::empty(),
    }
}

/// What a received message does: the definitions afterwards, the result, the
/// message passed to the error handler, if any, and, for a table update that
/// reaches a handler of the application's, its key and the position to go on
/// from (see `handlers_from`).
pub open spec fn incoming_outcome(
    hs: Seq<(Seq<char>, TableHandlerKind)>,
    m: Map<Seq<char>, ClassDefinitions>,
    msg: JsonValue,
) -> (Map<Seq<char>, ClassDefinitions>, Result<(), Seq<char>>, Option<Seq<char>>, Option<(u64, int)>) {
    let f = members(msg);
    match message_type(msg) {
        None => (m, Err("Missing or invalid message type"@), None, None),
        Some(t) => if t == "table_update"@ {
            match string_member(f, "table"@) {
                None => (m, Err("Missing or invalid table name in table update"@), None, None),
                Some(table) => {
                    let (m2, e, p) = handlers_from(m, hs, 0, table, decoded_ops(field(f, "operations"@)));
                    (m2, match e { Some(x) => Err(x), None => Ok(()) }, None, p)
                },
            }
        } else if t == "connection_status"@ {
            (m, Ok(()), None, None)
        } else if t == "error"@ {
            let em = match string_member(f, "message"@) {
                Some(x) => x,
                None => "Unknown error from server"@,
            };
            (m, Err("Server error: "@ + em), Some(em), None)
        } else {
            (m, Err("Unknown message type: "@ + t), None, None)
        },
    }
}

/// What processing a received message gives: the result and the message to
/// pass to the error handler, if any; or a table update that has reached a
/// handler of the application's, which the application runs on it before
/// the rest of the table's handlers run from `resume` on
/// (`process_table_update`).
pub enum Received {
    Done(Result<(), String>, Option<String>),
    RunApplication { update: TableUpdate, handler: u64, resume: usize },
}

/// Process a message received from the server, as a parsed document.
pub fn process_incoming_data(client: &NetClient, defs: &mut PropertyDefinitions, msg: JsonValue) -> (r: Received)
    ensures
        ({
            let (m, res, notice, p) = incoming_outcome(handler_views(client.handlers@), old(defs)@, msg);
            &&& final(defs)@ == m
            &&& match p {
                Some((k, next)) => r matches Received::RunApplication { update, handler, resume } && handler == k
                    && resume == next && string_member(members(msg), "table"@) == Some(update.table_name@)
                    && row_ops(update.table_row_operations@) == decoded_ops(field(members(msg), "operations"@)),
                None => r matches Received::Done(result, note) && (match res {
                    Ok(()) => result is Ok,
                    Err(e) => result matches Err(x) && x@ == e,
                }) && (match notice {
                    Some(n) => note matches Some(x) && x@ == n,
                    None => note is None,
                }),
            }
        }),
{
    let ghost msg0 = msg;
    let mut fields = match msg {
        JsonValue::Object(f) => f,
        _ => return Received::Done(Err(owned("Missing or invalid message type")), None),
    };
    let ghost f0 = fields@;
    let msg_type = match get_field(&fields, "type") {
        Some(JsonValue::String(t)) => t.clone(),
        _ => return Received::Done(Err(owned("Missing or invalid message type")), None),
    };
    if str_eq(msg_type.as_str(), "table_update") {
        let table_name = match get_field(&fields, "table") {
            Some(JsonValue::String(t)) => t.clone(),
            _ => return Received::Done(Err(owned("Missing or invalid table name in table update")), None),
        };
        let operations = take_field(&mut fields, "operations");
        let ops = decode_operations(operations);
        let update = TableUpdate { table_name, table_row_operations: ops };
        match process_table_update(client, defs, &update, 0) {
            TableStep::Done(result) => Received::Done(result, None),
            TableStep::RunApplication { handler, resume } => Received::RunApplication { update, handler, resume },
        }
    } else if str_eq(msg_type.as_str(), "connection_status") {
        Received::Done(Ok(()), None)
    } else if str_eq(msg_type.as_str(), "error") {
        let error_msg = match get_field(&fields, "message") {
            Some(JsonValue::String(m)) => m.clone(),
            _ => owned("Unknown error from server"),
        };
        let mut err = owned("Server error: ");
        err.append(error_msg.as_str());
        Received::Done(Err(err), Some(error_msg))
    } else {
        let mut err = owned("Unknown message type: ");
        err.append(msg_type.as_str());
        Received::Done(Err(err), None)
    }
}

/// A received table update does what processing its decoded update does.
/// For a message of type `table_update` that names table `table`, the
/// definitions afterwards, the result and the application handler reached,
/// if any, are those of running the table's handlers from the first
/// (`process_table_update` from 0) on the update of that table whose row
/// operations are the message's decoded `operations`: `update` and `delete`
/// name themselves, any other operation inserts, and a row that is not an
/// object is no row. Nothing is passed to the error handler.
pub proof fn law_table_update_message(hs: Seq<(Seq<char>, TableHandlerKind)>, m: Map<Seq<char>, ClassDefinitions>,
    msg: JsonValue, table: Seq<char>)
    requires
        message_type(msg) == Some("table_update"@),
        string_member(members(msg), "table"@) == Some(table),
    ensures
        ({
            let (m1, res, notice, p) = incoming_outcome(hs, m, msg);
            let (m2, e, p2) = handlers_from(m, hs, 0, table, decoded_ops(field(members(msg), "operations"@)));
            &&& m1 == m2
            &&& p == p2
            &&& notice is None
            &&& match e {
                Some(x) => res == Err::<(), Seq<char>>(x),
                None => res is Ok,
            }
        }),
{
}

/// Whether some handler is registered for table `n`.
pub open spec fn has_handler(hs: Seq<(Seq<char>, TableHandlerKind)>, n: Seq<char>) -> bool {
    exists|i: int| 0 <= i < hs.len() && #[trigger] hs[i].0 == n
}

fn has_handler_for(hs: &Vec<TableHandler>, name: &String) -> (r: bool)
    ensures
        r == has_handler(handler_views(hs@), name@),
{
    let n = hs.len();
    let mut i: usize = 0;
    while i < n
        invariant
            n == hs@.len(),
            i <= n,
            forall|j: int| 0 <= j < i ==> (#[trigger] handler_views(hs@)[j]).0 != name@,
        decreases n - i,
    {
        if str_eq(hs[i].table_name.as_str(), name.as_str()) {
            assert(handler_views(hs@)[i as int].0 == name@);
            return true;
        }
        i = i + 1;
    }
    false
}

fn contains_name(v: &Vec<String>, name: &String) -> (r: bool)
    ensures
        r == name_views(v@).contains(name@),
{
    let n = v.len();
    let mut i: usize = 0;
    while i < n
        invariant
            n == v@.len(),
            i <= n,
            forall|j: int| 0 <= j < i ==> (#[trigger] name_views(v@)[j]) != name@,
        decreases n - i,
    {
        if str_eq(v[i].as_str(), name.as_str()) {
            assert(name_views(v@)[i as int] == name@);
            return true;
        }
        i = i + 1;
    }
    false
}

/// The subscribed tables, the handlers and the tables to request, after
/// subscribing to `names` in order: a table not yet subscribed is added, gets a
/// handler that accepts its updates unless it has one, and is requested.
pub open spec fn subscribe_fold(
    subs: Seq<Seq<char>>,
    hs: Seq<(Seq<char>, TableHandlerKind)>,
    names: Seq<Seq<char>>,
) -> (Seq<Seq<char>>, Seq<(Seq<char>, TableHandlerKind)>, Seq<Seq<char>>)
    decreases names.len(),
{
    if names.len() == 0 {
        (subs, hs, Seq::empty())
    } else {
        let (s, h, req) = subscribe_fold(subs, hs, names.drop_last());
        let n = names.last();
        if s.contains(n) {
            (s, h, req)
        } else {
            (s.push(n), if has_handler(h, n) { h } else { h.push((n, TableHandlerKind::LogUpdates)) }, req.push(n))
        }
    }
}

/// Subscribe to a set of tables. Returns the subscription requests to send,
/// one for each table that was not subscribed yet.
pub fn subscribe_to_tables(client: &mut NetClient, table_names: &Vec<String>) -> (r: Result<Vec<JsonOut>, String>)
    ensures
        old(client).state != ConnectionState::Connected ==> (r matches Err(e) && e@ == "Not connected to server"@)
            && *final(client) == *old(client),
        old(client).state == ConnectionState::Connected ==> ({
            let (s, h, req) = subscribe_fold(name_views(old(client).subscribed@), handler_views(old(client).handlers@),
                name_views(table_names@));
            &&& r is Ok
            &&& name_views(final(client).subscribed@) == s
            &&& handler_views(final(client).handlers@) == h
            &&& final(client).state == old(client).state
            &&& final(client).client_id == old(client).client_id
            &&& r->Ok_0@.len() == req.len()
            &&& forall|i: int| 0 <= i < req.len() ==> table_message(#[trigger] r->Ok_0@[i], "subscribe"@, req[i], old(client).client_id)
        }),
{
    if !is_connected(client) {
        return Err(owned("Not connected to server"));
    }
    let ghost names = name_views(table_names@);
    let ghost subs0 = name_views(client.subscribed@);
    let ghost hs0 = handler_views(client.handlers@);
    let mut requests: Vec<JsonOut> = Vec::new();
    let n = table_names.len();
    let mut i: usize = 0;
    while i < n
        invariant
            n == table_names@.len(),
            names == name_views(table_names@),
            i <= n,
            client.state == ConnectionState::Connected,
            client.client_id == old(client).client_id,
            client.state == old(client).state,
            ({
                let (s, h, req) = subscribe_fold(subs0, hs0, names.take(i as int));
                &&& name_views(client.subscribed@) == s
                &&& handler_views(client.handlers@) == h
                &&& requests@.len() == req.len()
                &&& forall|j: int| 0 <= j < req.len() ==> table_message(#[trigger] requests@[j], "subscribe"@, req[j], client.client_id)
            }),
        decreases n - i,
    {
        let name = &table_names[i];
        proof {
            assert(names.take(i + 1).drop_last() =~= names.take(i as int));
            assert(names.take(i + 1).last() == name@);
        }
        if !contains_name(&client.subscribed, name) {
            let ghost s0 = client.subscribed@;
            client.subscribed.push(name.clone());
            assert(name_views(client.subscribed@) =~= name_views(s0).push(name@));
            if !has_handler_for(&client.handlers, name) {
                register_table_handler(client, name.as_str(), TableHandlerKind::LogUpdates);
            }
            let msg = subscription_message(client, name.as_str());
            requests.push(msg);
        }
        i = i + 1;
    }
    assert(names.take(n as int) =~= names);
    Ok(requests)
}

/// The predicate that holds of every name but `n`.
pub open spec fn other_than(n: Seq<char>) -> spec_fn(Seq<char>) -> bool {
    |x: Seq<char>| x != n
}

/// The subscribed tables and the tables to request, after unsubscribing from
/// `names` in order: a subscribed table is removed and requested.
pub open spec fn unsubscribe_fold(subs: Seq<Seq<char>>, names: Seq<Seq<char>>) -> (Seq<Seq<char>>, Seq<Seq<char>>)
    decreases names.len(),
{
    if names.len() == 0 {
        (subs, Seq::empty())
    } else {
        let (s, req) = unsubscribe_fold(subs, names.drop_last());
        let n = names.last();
        if s.contains(n) {
            (s.filter(other_than(n)), req.push(n))
        } else {
            (s, req)
        }
    }
}

fn remove_name(v: &Vec<String>, name: &String) -> (r: Vec<String>)
    ensures
        name_views(r@) == name_views(v@).filter(other_than(name@)),
{
    let ghost all = name_views(v@);
    let ghost keep = other_than(name@);
    let mut out: Vec<String> = Vec::new();
    let n = v.len();
    let mut i: usize = 0;
    while i < n
        invariant
            n == v@.len(),
            all == name_views(v@),
            keep == other_than(name@),
            i <= n,
            name_views(out@) == all.take(i as int).filter(keep),
        decreases n - i,
    {
        proof {
            reveal(Seq::filter);
            assert(all.take(i + 1).drop_last() =~= all.take(i as int));
            assert(all.take(i + 1).last() == v@[i as int]@);
        }
        if !str_eq(v[i].as_str(), name.as_str()) {
            let ghost o0 = out@;
            out.push(v[i].clone());
            assert(name_views(out@) =~= name_views(o0).push(v@[i as int]@));
        }
        i = i + 1;
    }
    assert(all.take(n as int) =~= all);
    out
}

/// Unsubscribe from tables. Returns the unsubscription requests to send, one
/// for each table that was subscribed.
pub fn unsubscribe_from_tables(client: &mut NetClient, table_names: &Vec<String>) -> (r: Result<Vec<JsonOut>, String>)
    ensures
        old(client).state != ConnectionState::Connected ==> (r matches Err(e) && e@ == "Not connected to server"@)
            && *final(client) == *old(client),
        old(client).state == ConnectionState::Connected ==> ({
            let (s, req) = unsubscribe_fold(name_views(old(client).subscribed@), name_views(table_names@));
            &&& r is Ok
            &&& name_views(final(client).subscribed@) == s
            &&& final(client).handlers == old(client).handlers
            &&& final(client).state == old(client).state
            &&& final(client).client_id == old(client).client_id
            &&& r->Ok_0@.len() == req.len()
            &&& forall|i: int| 0 <= i < req.len() ==> table_message(#[trigger] r->Ok_0@[i], "unsubscribe"@, req[i], old(client).client_id)
        }),
{
    if !is_connected(client) {
        return Err(owned("Not connected to server"));
    }
    let ghost names = name_views(table_names@);
    let ghost subs0 = name_views(client.subscribed@);
    let mut requests: Vec<JsonOut> = Vec::new();
    let n = table_names.len();
    let mut i: usize = 0;
    while i < n
        invariant
            n == table_names@.len(),
            names == name_views(table_names@),
            i <= n,
            client.state == old(client).state,
            client.client_id == old(client).client_id,
            client.handlers == old(client).handlers,
            ({
                let (s, req) = unsubscribe_fold(subs0, names.take(i as int));
                &&& name_views(client.subscribed@) == s
                &&& requests@.len() == req.len()
                &&& forall|j: int| 0 <= j < req.len() ==> table_message(#[trigger] requests@[j], "unsubscribe"@, req[j], client.client_id)
            }),
        decreases n - i,
    {
        let name = &table_names[i];
        proof {
            assert(names.take(i + 1).drop_last() =~= names.take(i as int));
            assert(names.take(i + 1).last() == name@);
        }
        if contains_name(&client.subscribed, name) {
            let kept = remove_name(&client.subscribed, name);
            client.subscribed = kept;
            let msg = unsubscription_message(client, name.as_str());
            requests.push(msg);
        }
        i = i + 1;
    }
    assert(names.take(n as int) =~= names);
    Ok(requests)
}

/// Get the list of currently subscribed tables.
pub fn get_subscribed_tables(client: &NetClient) -> (r: Vec<String>)
    ensures
        name_views(r@) == name_views(client.subscribed@),
{
    let mut out: Vec<String> = Vec::new();
    let n = client.subscribed.len();
    let mut i: usize = 0;
    while i < n
        invariant
            n == client.subscribed@.len(),
            i <= n,
            name_views(out@) == name_views(client.subscribed@).take(i as int),
        decreases n - i,
    {
        let ghost o0 = out@;
        let c = client.subscribed[i].clone();
        assert(c@ == client.subscribed@[i as int]@);
        out.push(c);
        assert(name_views(out@) =~= name_views(o0).push(c@));
        assert(name_views(out@) =~= name_views(client.subscribed@).take(i + 1));
        i = i + 1;
    }
    assert(name_views(client.subscribed@).take(n as int) =~= name_views(client.subscribed@));
    out
}

} // verus!
