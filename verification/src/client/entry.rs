//! Entry points of the client module: connecting, property updates in both
//! directions, and RPC requests for objects.
//!
//! Messages to the server are returned as JSON documents; sending them is
//! left to the caller.
use vstd::prelude::*;
use crate::json::{JsonValue, JsonOut};
use crate::shared::types::{ObjectId, Quat};
use crate::shared::property::PropertyValue;
use crate::shared::connection::{ConnectionParams, ConnectionState};
use crate::client::net::{NetClient, connect, property_update_message, property_update_envelope, rpc_message,
    rpc_envelope};
use crate::client::object::{ObjectRegistry, objects_view, property_applied, update_object_property};
use crate::client::property::{PropertyCache, cached};
use crate::client::serialization::{deserialize_property_value, spec_deserialize, serialize_property_value,
    spec_serialized, deserialize_message};
use crate::text::{owned, decimal, with_number};

verus! {

/// Connect to the server with a host, database name and token (empty for
/// none). Fails, with the reason, when already connected or connecting.
pub fn connect_to_server(client: &mut NetClient, host: String, db_name: String, auth_token: String) -> (r: Result<(), String>)
    ensures
        (old(client).state == ConnectionState::Connected || old(client).state == ConnectionState::Connecting) ==> {
            &&& r matches Err(e) && e@ == "Failed to connect: "@ + "Already connected or connecting"@
            &&& *final(client) == *old(client)
        },
        !(old(client).state == ConnectionState::Connected || old(client).state == ConnectionState::Connecting) ==> {
            &&& r is Ok
            &&& final(client).state == ConnectionState::Connected
            &&& final(client).client_id == crate::client::net::SIMULATED_CLIENT_ID
            &&& final(client).handlers == old(client).handlers
            &&& final(client).subscribed == old(client).subscribed
        },
{
    let token = if auth_token.as_str().unicode_len() > 0 { Some(auth_token) } else { None };
    let params = ConnectionParams { host, database_name: db_name, auth_token: token };
    match connect(client, params) {
        Ok(()) => Ok(()),
        Err(e) => {
            let mut msg = owned("Failed to connect: ");
            msg.append(e.as_str());
            Err(msg)
        },
    }
}

/// Handle a property update received from the server: the value (a parsed
/// JSON document with canonical text `canonical`) is read and applied to the
/// object (see `update_object_property`); a value that cannot be read is an
/// error and changes nothing.
pub fn handle_property_update(
    reg: &mut ObjectRegistry,
    cache: &mut PropertyCache,
    object_id: ObjectId,
    property_name: &str,
    value_doc: &JsonValue,
    canonical: &String,
    rotator_quat: Quat,
) -> (r: Result<(), String>)
    ensures
        match spec_deserialize(*value_doc, *canonical) {
            None => (r matches Err(e) && e@ == deserialize_message(*value_doc))
                && objects_view(*final(reg)) == objects_view(*old(reg)) && final(cache)@ == old(cache)@,
            Some(v) => {
                &&& r is Ok
                &&& objects_view(*final(reg)) == (if objects_view(*old(reg)).contains_key(object_id) {
                    objects_view(*old(reg)).insert(object_id, property_applied(objects_view(*old(reg))[object_id],
                        property_name@, v, rotator_quat))
                } else {
                    objects_view(*old(reg))
                })
                &&& final(cache)@ == cached(old(cache)@, object_id, property_name@, v)
            },
        },
        final(reg).component_owners == old(reg).component_owners,
        final(reg).temp_id_mapping == old(reg).temp_id_mapping,
{
    let value = match deserialize_property_value(value_doc, canonical) {
        Ok(v) => v,
        Err(e) => return Err(e),
    };
    update_object_property(reg, cache, object_id, property_name, value, rotator_quat)
}

/// Set a property on an object and, if asked, build the update message for
/// the server carrying the serialized value.
pub fn set_property(
    reg: &mut ObjectRegistry,
    cache: &mut PropertyCache,
    client: &NetClient,
    object_id: ObjectId,
    property_name: &str,
    value: PropertyValue,
    replicate_to_server: bool,
    rotator_quat: Quat,
) -> (r: Result<Option<JsonOut>, String>)
    ensures
        r matches Ok(m) && (replicate_to_server ==> (m matches Some(o) && exists|v: JsonOut| spec_serialized(value, v)
            && #[trigger] property_update_envelope(o, object_id, property_name@, v, client.client_id)))
            && (!replicate_to_server ==> m is None),
        objects_view(*final(reg)) == (if objects_view(*old(reg)).contains_key(object_id) {
            objects_view(*old(reg)).insert(object_id, property_applied(objects_view(*old(reg))[object_id],
                property_name@, value, rotator_quat))
        } else {
            objects_view(*old(reg))
        }),
        final(cache)@ == cached(old(cache)@, object_id, property_name@, value),
        final(reg).component_owners == old(reg).component_owners,
        final(reg).temp_id_mapping == old(reg).temp_id_mapping,
{
    let json = serialize_property_value(&value);
    let _ = update_object_property(reg, cache, object_id, property_name, value, rotator_quat);
    if replicate_to_server {
        let ghost v = json;
        let msg = property_update_message(client, object_id, property_name, json);
        assert(spec_serialized(value, v) && property_update_envelope(msg, object_id, property_name@, v, client.client_id));
        Ok(Some(msg))
    } else {
        Ok(None)
    }
}

/// Whether a document embeds a JSON text as it is.
pub open spec fn embeds(v: JsonOut, text: String) -> bool {
    v matches JsonOut::Embedded { text: t, .. } && t == text
}

/// Set a property on an object from a JSON value (a parsed document with
/// canonical text `canonical`) and, if asked, build the update message for
/// the server carrying that text. A value that cannot be read is an error
/// and changes nothing.
pub fn set_object_property_with_replication(
    reg: &mut ObjectRegistry,
    cache: &mut PropertyCache,
    client: &NetClient,
    object_id: ObjectId,
    property_name: &str,
    value_doc: &JsonValue,
    canonical: &String,
    replicate: bool,
    rotator_quat: Quat,
) -> (r: Result<Option<JsonOut>, String>)
    ensures
        match spec_deserialize(*value_doc, *canonical) {
            None => (r matches Err(e) && e@ == deserialize_message(*value_doc))
                && objects_view(*final(reg)) == objects_view(*old(reg)) && final(cache)@ == old(cache)@,
            Some(v) => {
                &&& r matches Ok(m) && (replicate ==> (m matches Some(o) && exists|v: JsonOut| embeds(v, *canonical)
                    && #[trigger] property_update_envelope(o, object_id, property_name@, v, client.client_id)))
                    && (!replicate ==> m is None)
                &&& objects_view(*final(reg)) == (if objects_view(*old(reg)).contains_key(object_id) {
                    objects_view(*old(reg)).insert(object_id, property_applied(objects_view(*old(reg))[object_id],
                        property_name@, v, rotator_quat))
                } else {
                    objects_view(*old(reg))
                })
                &&& final(cache)@ == cached(old(cache)@, object_id, property_name@, v)
            },
        },
        final(reg).component_owners == old(reg).component_owners,
        final(reg).temp_id_mapping == old(reg).temp_id_mapping,
{
    let value = match deserialize_property_value(value_doc, canonical) {
        Ok(v) => v,
        Err(e) => return Err(e),
    };
    let _ = update_object_property(reg, cache, object_id, property_name, value, rotator_quat);
    if replicate {
        let embedded = JsonOut::Embedded { label: owned("property value"), text: canonical.clone() };
        let ghost v = embedded;
        let msg = property_update_message(client, object_id, property_name, embedded);
        assert(embeds(v, *canonical) && property_update_envelope(msg, object_id, property_name@, v, client.client_id));
        Ok(Some(msg))
    } else {
        Ok(None)
    }
}

/// The payload of an unreliable RPC request for an object.
pub open spec fn unreliable_request(o: JsonOut, object_id: ObjectId, function_name: Seq<char>, args: JsonOut) -> bool {
    match o {
        JsonOut::Object(fs) => {
            &&& fs@.len() == 4
            &&& fs@[0].0@ == "object_id"@ && fs@[0].1 == JsonOut::UInt(object_id)
            &&& fs@[1].0@ == "function"@ && (fs@[1].1 matches JsonOut::String(t) && t@ == function_name)
            &&& fs@[2].0@ == "args"@ && fs@[2].1 == args
            &&& fs@[3].0@ == "reliable"@ && fs@[3].1 == JsonOut::Bool(false)
        },
        _ => false,
    }
}

/// Build the message of an unreliable RPC for an object. Fails for an
/// unknown object, an object that does not replicate, or no connection.
pub fn dispatch_unreliable_rpc(reg: &ObjectRegistry, client: &NetClient, object_id: ObjectId, function_name: &str,
    params: JsonOut) -> (r: Result<JsonOut, String>)
    ensures
        ({
            let ov = objects_view(*reg);
            if !ov.contains_key(object_id) {
                r matches Err(e) && e@ == "Object "@ + decimal(object_id as nat) + " not found"@
            } else if !ov[object_id].replicates {
                r matches Err(e) && e@ == "Cannot dispatch RPC for non-replicated object "@ + decimal(object_id as nat)
            } else if client.state != ConnectionState::Connected {
                r matches Err(e) && e@ == "Not connected to server"@
            } else {
                r matches Ok(m) && exists|p: JsonOut| #[trigger] rpc_envelope(m, p, client.client_id)
                    && unreliable_request(p, object_id, function_name@, params)
            }
        }),
{
    let replicates = match reg.objects.get(&object_id) {
        Some(o) => o.replicates,
        None => return Err(with_number("Object ", object_id, " not found")),
    };
    if !replicates {
        return Err(crate::text::ending_with_number("Cannot dispatch RPC for non-replicated object ", object_id));
    }
    if client.state != ConnectionState::Connected {
        return Err(owned("Not connected to server"));
    }
    let ghost args = params;
    let mut fs: Vec<(String, JsonOut)> = Vec::new();
    fs.push((owned("object_id"), JsonOut::UInt(object_id)));
    fs.push((owned("function"), JsonOut::String(owned(function_name))));
    fs.push((owned("args"), params));
    fs.push((owned("reliable"), JsonOut::Bool(false)));
    let payload = JsonOut::Object(fs);
    let ghost p = payload;
    assert(unreliable_request(p, object_id, function_name@, args));
    let m = rpc_message(client, payload);
    assert(rpc_envelope(m, p, client.client_id));
    Ok(m)
}

} // verus!
