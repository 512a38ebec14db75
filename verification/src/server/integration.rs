//! Relevancy and replication together: which clients get an object's updates,
//! and which objects each client has been sent.
use vstd::prelude::*;
use crate::shared::types::ObjectId;
use crate::shared::property::PropertyValue;
use crate::server::relevancy::{RelevancyManager, is_object_relevant_to_client, filter_relevant_objects, vec_contains_u64};
use crate::server::distance::{SpatialCache, update_entity_position, position_of, is_position_name};
use crate::text::str_eq;

verus! {

/// A row of the table that records which objects were replicated to which clients.
#[derive(Debug, Clone, Copy, PartialEq, Eq, Structural)]
pub struct ClientObjectReplication {
    pub client_id: u64,
    pub object_id: ObjectId,
    /// Whether initial replication has completed.
    pub initial_replication_complete: bool,
    /// Last replication time, in microseconds.
    pub last_replication_time: u64,
}

/// Whether the object is relevant to the client, as the free function decides.
pub open spec fn relevant_to(manager: RelevancyManager, object_id: ObjectId, client_id: u64) -> bool {
    !manager.cache().contains_key(client_id) || manager.cache()[client_id].contains(object_id)
}

/// The clients, among `clients`, that should receive updates of an object.
pub fn filter_clients_for_object_update(manager: &RelevancyManager, clients: &Vec<u64>, object_id: ObjectId) -> (r: Vec<u64>)
    ensures
        r@ == clients@.filter(|c: u64| relevant_to(*manager, object_id, c)),
{
    let ghost keep = |c: u64| relevant_to(*manager, object_id, c);
    let mut out: Vec<u64> = Vec::new();
    let n = clients.len();
    let mut i: usize = 0;
    while i < n
        invariant
            n == clients@.len(),
            i <= n,
            keep == (|c: u64| relevant_to(*manager, object_id, c)),
            out@ == clients@.take(i as int).filter(keep),
        decreases n - i,
    {
        proof {
            reveal(Seq::filter);
            assert(clients@.take(i + 1).drop_last() =~= clients@.take(i as int));
        }
        let c = clients[i];
        if is_object_relevant_to_client(manager, object_id, c) {
            out.push(c);
        }
        i = i + 1;
    }
    assert(clients@.take(n as int) =~= clients@);
    out
}

/// Filter the objects that should be initially replicated to a client when it connects.
pub fn filter_initial_objects_for_client(manager: &RelevancyManager, client_id: u64, all_objects: &Vec<ObjectId>) -> (r: Vec<ObjectId>)
    ensures
        manager.cache().contains_key(client_id) ==> r@ == all_objects@.filter(|o: ObjectId| manager.cache()[client_id].contains(o)),
        !manager.cache().contains_key(client_id) ==> r@ == all_objects@,
{
    filter_relevant_objects(manager, client_id, all_objects)
}

/// The property names that affect relevancy.
pub open spec fn affects_relevancy(name: Seq<char>) -> bool {
    is_position_name(name) || name == "Team"@ || name == "Faction"@ || name == "VisibilityFlag"@ || name == "StealthLevel"@
}

/// Check if a property represents position data.
pub fn is_position_property(property_name: &str) -> (r: bool)
    ensures
        r == is_position_name(property_name@),
{
    str_eq(property_name, "Location") || str_eq(property_name, "Position") || str_eq(property_name, "Transform")
}

/// Check if a property affects relevancy determination.
pub fn is_relevancy_affecting_property(property_name: &str) -> (r: bool)
    ensures
        r == affects_relevancy(property_name@),
{
    if is_position_property(property_name) {
        return true;
    }
    str_eq(property_name, "Team") || str_eq(property_name, "Faction") || str_eq(property_name, "VisibilityFlag")
        || str_eq(property_name, "StealthLevel")
}

/// Hook called when a property value changes: a position property moves the
/// entity in the spatial cache. Returns whether the relevancy cache is to be
/// refreshed (for every property that affects relevancy).
pub fn on_property_changed(cache: &mut SpatialCache, object_id: ObjectId, property_name: &str, property_value: &PropertyValue) -> (refresh: bool)
    ensures
        refresh == affects_relevancy(property_name@),
        is_position_name(property_name@) && position_of(*property_value) is Some ==>
            final(cache)@ == old(cache)@.insert(object_id, position_of(*property_value)->0),
        !(is_position_name(property_name@) && position_of(*property_value) is Some) ==> final(cache)@ == old(cache)@,
{
    if is_relevancy_affecting_property(property_name) {
        if is_position_property(property_name) {
            update_entity_position(cache, object_id, property_name, property_value);
        }
        true
    } else {
        false
    }
}

/// Whether a row records object `o` for client `c`.
pub open spec fn is_row_of(r: ClientObjectReplication, c: u64, o: ObjectId) -> bool {
    r.client_id == c && r.object_id == o
}

/// Whether object `o` is recorded as replicated to client `c`.
pub open spec fn is_replicated(rows: Seq<ClientObjectReplication>, c: u64, o: ObjectId) -> bool {
    exists|i: int| 0 <= i < rows.len() && is_row_of(#[trigger] rows[i], c, o)
}

/// The objects recorded for client `c`, in table order.
pub open spec fn replicated_list(rows: Seq<ClientObjectReplication>, c: u64) -> Seq<ObjectId>
    decreases rows.len(),
{
    if rows.len() == 0 {
        Seq::empty()
    } else {
        let prev = replicated_list(rows.drop_last(), c);
        if rows.last().client_id == c { prev.push(rows.last().object_id) } else { prev }
    }
}

/// Get the objects that have been replicated to a client.
pub fn get_replicated_objects(rows: &Vec<ClientObjectReplication>, client_id: u64) -> (r: Vec<ObjectId>)
    ensures
        r@ == replicated_list(rows@, client_id),
{
    let mut out: Vec<ObjectId> = Vec::new();
    let n = rows.len();
    let mut i: usize = 0;
    while i < n
        invariant
            n == rows@.len(),
            i <= n,
            out@ == replicated_list(rows@.take(i as int), client_id),
        decreases n - i,
    {
        assert(rows@.take(i + 1).drop_last() =~= rows@.take(i as int));
        if rows[i].client_id == client_id {
            out.push(rows[i].object_id);
        }
        i = i + 1;
    }
    assert(rows@.take(n as int) =~= rows@);
    out
}

/// Check if an object has been replicated to a client.
pub fn is_object_replicated_to_client(rows: &Vec<ClientObjectReplication>, client_id: u64, object_id: ObjectId) -> (r: bool)
    ensures
        r == is_replicated(rows@, client_id, object_id),
{
    let n = rows.len();
    let mut i: usize = 0;
    while i < n
        invariant
            n == rows@.len(),
            i <= n,
            forall|k: int| 0 <= k < i ==> !is_row_of(#[trigger] rows@[k], client_id, object_id),
        decreases n - i,
    {
        if rows[i].client_id == client_id && rows[i].object_id == object_id {
            assert(is_row_of(rows@[i as int], client_id, object_id));
            return true;
        }
        i = i + 1;
    }
    false
}

/// Which replication rows a deletion keeps: `Some(o)` removes the rows of
/// client `c` and object `o`; `None` removes all rows of client `c`.
pub open spec fn keeps_row(c: u64, o: Option<ObjectId>) -> spec_fn(ClientObjectReplication) -> bool {
    |r: ClientObjectReplication| !(r.client_id == c && match o { Some(x) => r.object_id == x, None => true })
}

fn delete_rows(rows: &mut Vec<ClientObjectReplication>, client_id: u64, object_id: Option<ObjectId>)
    ensures
        final(rows)@ == old(rows)@.filter(keeps_row(client_id, object_id)),
{
    let ghost all = rows@;
    let mut out: Vec<ClientObjectReplication> = Vec::new();
    let n = rows.len();
    let mut i: usize = 0;
    while i < n
        invariant
            n == all.len(),
            *rows == *old(rows),
            all == old(rows)@,
            i <= n,
            out@ == all.take(i as int).filter(keeps_row(client_id, object_id)),
        decreases n - i,
    {
        proof {
            reveal(Seq::filter);
            assert(all.take(i + 1).drop_last() =~= all.take(i as int));
        }
        let r = rows[i];
        let matched = r.client_id == client_id && match object_id {
            Some(x) => r.object_id == x,
            None => true,
        };
        if !matched {
            out.push(r);
        }
        i = i + 1;
    }
    assert(all.take(n as int) =~= all);
    *rows = out;
}

/// Record that an object was replicated to a client at time `now` (replacing
/// the rows it had), with initial replication complete.
pub fn update_replication_time(rows: &mut Vec<ClientObjectReplication>, client_id: u64, object_id: ObjectId, now: u64) -> (r: Result<(), String>)
    ensures
        r is Ok,
        final(rows)@ == old(rows)@.filter(keeps_row(client_id, Some(object_id))).push(ClientObjectReplication {
            client_id,
            object_id,
            initial_replication_complete: true,
            last_replication_time: now,
        }),
{
    delete_rows(rows, client_id, Some(object_id));
    rows.push(ClientObjectReplication { client_id, object_id, initial_replication_complete: true, last_replication_time: now });
    Ok(())
}

/// Clear all replication state of a client (when it disconnects).
pub fn clear_client_replication_state(rows: &mut Vec<ClientObjectReplication>, client_id: u64) -> (r: Result<(), String>)
    ensures
        r is Ok,
        final(rows)@ == old(rows)@.filter(keeps_row(client_id, None)),
{
    delete_rows(rows, client_id, None);
    Ok(())
}

/// The objects to replicate to a client, as the relevancy cache has them (none
/// when the client is not in the cache).
pub open spec fn cached_relevant(manager: RelevancyManager, client_id: u64) -> Set<ObjectId> {
    if manager.cache().contains_key(client_id) { manager.cache()[client_id] } else { Set::empty() }
}

/// Keeps the rows of other clients, and those of client `c` whose object is in `rel`.
pub open spec fn keeps_relevant(c: u64, rel: Set<ObjectId>) -> spec_fn(ClientObjectReplication) -> bool {
    |r: ClientObjectReplication| !(r.client_id == c && !rel.contains(r.object_id))
}

fn keep_relevant_rows(rows: &mut Vec<ClientObjectReplication>, client_id: u64, rel: &Vec<ObjectId>)
    ensures
        final(rows)@ == old(rows)@.filter(keeps_relevant(client_id, rel@.to_set())),
{
    let ghost all = rows@;
    let ghost keep = keeps_relevant(client_id, rel@.to_set());
    let mut out: Vec<ClientObjectReplication> = Vec::new();
    let n = rows.len();
    let mut i: usize = 0;
    while i < n
        invariant
            n == all.len(),
            *rows == *old(rows),
            all == old(rows)@,
            keep == keeps_relevant(client_id, rel@.to_set()),
            i <= n,
            out@ == all.take(i as int).filter(keep),
        decreases n - i,
    {
        proof {
            reveal(Seq::filter);
            assert(all.take(i + 1).drop_last() =~= all.take(i as int));
        }
        let r = rows[i];
        if !(r.client_id == client_id && !vec_contains_u64(rel, r.object_id)) {
            out.push(r);
        }
        i = i + 1;
    }
    assert(all.take(n as int) =~= all);
    *rows = out;
}

proof fn lemma_replicated_list(rows: Seq<ClientObjectReplication>, c: u64, o: ObjectId)
    ensures
        replicated_list(rows, c).contains(o) <==> is_replicated(rows, c, o),
    decreases rows.len(),
{
    if rows.len() > 0 {
        let prev = rows.drop_last();
        let n = rows.len() - 1;
        lemma_replicated_list(prev, c, o);
        let lp = replicated_list(prev, c);
        let l = replicated_list(rows, c);
        assert(rows[n] == rows.last());
        if is_replicated(prev, c, o) {
            let i = choose|i: int| 0 <= i < prev.len() && is_row_of(#[trigger] prev[i], c, o);
            assert(rows[i] == prev[i]);
        }
        if is_replicated(rows, c, o) {
            let i = choose|i: int| 0 <= i < rows.len() && is_row_of(#[trigger] rows[i], c, o);
            if i < n {
                assert(prev[i] == rows[i]);
            }
        }
        if rows.last().client_id == c {
            assert(l == lp.push(rows.last().object_id));
            if lp.contains(o) {
                let j = choose|j: int| 0 <= j < lp.len() && #[trigger] lp[j] == o;
                assert(l[j] == o);
            }
            if rows.last().object_id == o {
                assert(l[lp.len() as int] == o);
            }
            if l.contains(o) {
                let j = choose|j: int| 0 <= j < l.len() && #[trigger] l[j] == o;
                if j < lp.len() {
                    assert(lp[j] == o);
                }
            }
        } else {
            assert(l == lp);
        }
    }
}

/// The rows after those of client `c` are reconciled with its relevant
/// objects `rel` at time `now`: the rows kept, followed by one new row for each
/// relevant object that had none (in some order, each once).
pub open spec fn reconciled(old_rows: Seq<ClientObjectReplication>, new_rows: Seq<ClientObjectReplication>, rel: Set<ObjectId>, c: u64, now: u64) -> bool {
    let kept = old_rows.filter(keeps_relevant(c, rel));
    let added = new_rows.skip(kept.len() as int);
    &&& new_rows.len() >= kept.len()
    &&& new_rows.take(kept.len() as int) == kept
    &&& forall|i: int| 0 <= i < added.len() ==> (#[trigger] added[i]).client_id == c
        && !added[i].initial_replication_complete && added[i].last_replication_time == now
    &&& forall|i: int, j: int| 0 <= i < j < added.len() ==> (#[trigger] added[i]).object_id != (#[trigger] added[j]).object_id
    &&& forall|o: ObjectId| (exists|i: int| 0 <= i < added.len() && (#[trigger] added[i]).object_id == o)
        <==> (rel.contains(o) && !is_replicated(old_rows, c, o))
}

/// Reconcile the replication rows of a client with the relevancy cache at time
/// `now`: rows of objects no longer relevant are deleted, and each relevant
/// object not yet recorded gets a row (initial replication not complete).
pub fn reconcile_client_replication_state(
    rows: &mut Vec<ClientObjectReplication>,
    manager: &RelevancyManager,
    client_id: u64,
    now: u64,
) -> (r: Result<(), String>)
    ensures
        r is Ok,
        reconciled(old(rows)@, final(rows)@, cached_relevant(*manager, client_id), client_id, now),
{
    let current = get_replicated_objects(rows, client_id);
    let rel: Vec<ObjectId> = match manager.get_relevant_objects_for_client(client_id) {
        Some(v) => v.clone(),
        None => Vec::new(),
    };
    let ghost relset = cached_relevant(*manager, client_id);
    assert(rel@.to_set() =~= relset);
    let mut to_add: Vec<ObjectId> = Vec::new();
    let n = rel.len();
    let mut i: usize = 0;
    while i < n
        invariant
            n == rel@.len(),
            i <= n,
            current@ == replicated_list(old(rows)@, client_id),
            to_add@.no_duplicates(),
            forall|o: ObjectId| #[trigger] to_add@.contains(o) <==> (rel@.take(i as int).contains(o) && !current@.contains(o)),
        decreases n - i,
    {
        let o = rel[i];
        let ghost t0 = to_add@;
        proof {
            assert(rel@.take(i + 1) =~= rel@.take(i as int).push(o));
        }
        if !vec_contains_u64(&current, o) && !vec_contains_u64(&to_add, o) {
            to_add.push(o);
        }
        proof {
            assert forall|x: ObjectId| #[trigger] to_add@.contains(x) <==> (rel@.take(i + 1).contains(x) && !current@.contains(x)) by {
                if rel@.take(i + 1).contains(x) && x != o {
                    let j = choose|j: int| 0 <= j < rel@.take(i + 1).len() && #[trigger] rel@.take(i + 1)[j] == x;
                    assert(rel@.take(i as int)[j] == x);
                }
                if rel@.take(i as int).contains(x) {
                    let j = choose|j: int| 0 <= j < rel@.take(i as int).len() && #[trigger] rel@.take(i as int)[j] == x;
                    assert(rel@.take(i + 1)[j] == x);
                }
                assert(rel@.take(i + 1)[i as int] == o);
                if to_add@.contains(x) && x != o {
                    let j = choose|j: int| 0 <= j < to_add@.len() && #[trigger] to_add@[j] == x;
                    assert(t0[j] == x);
                }
                if t0.contains(x) {
                    let j = choose|j: int| 0 <= j < t0.len() && #[trigger] t0[j] == x;
                    assert(to_add@[j] == x);
                }
                if x == o && to_add@.len() > t0.len() {
                    assert(to_add@[t0.len() as int] == o);
                }
            }
        }
        i = i + 1;
    }
    assert(rel@.take(n as int) =~= rel@);
    keep_relevant_rows(rows, client_id, &rel);
    let ghost kept = rows@;
    let m = to_add.len();
    let mut k: usize = 0;
    while k < m
        invariant
            m == to_add@.len(),
            k <= m,
            rows@.len() == kept.len() + k,
            rows@.take(kept.len() as int) == kept,
            forall|j: int| 0 <= j < k ==> #[trigger] rows@[kept.len() + j] == (ClientObjectReplication {
                client_id,
                object_id: to_add@[j],
                initial_replication_complete: false,
                last_replication_time: now,
            }),
        decreases m - k,
    {
        rows.push(ClientObjectReplication {
            client_id,
            object_id: to_add[k],
            initial_replication_complete: false,
            last_replication_time: now,
        });
        assert(rows@.take(kept.len() as int) =~= kept);
        k = k + 1;
    }
    proof {
        let added = rows@.skip(kept.len() as int);
        assert forall|j: int| 0 <= j < added.len() implies (#[trigger] added[j]).object_id == to_add@[j] by {
            assert(added[j] == rows@[kept.len() + j]);
        }
        assert forall|o: ObjectId| #[trigger] current@.contains(o) <==> is_replicated(old(rows)@, client_id, o) by {
            lemma_replicated_list(old(rows)@, client_id, o);
        }
        assert forall|o: ObjectId| (exists|j: int| 0 <= j < added.len() && (#[trigger] added[j]).object_id == o)
            <==> (relset.contains(o) && !is_replicated(old(rows)@, client_id, o)) by {
            if exists|j: int| 0 <= j < added.len() && (#[trigger] added[j]).object_id == o {
                let j = choose|j: int| 0 <= j < added.len() && (#[trigger] added[j]).object_id == o;
                assert(to_add@[j] == o);
                assert(to_add@.contains(o));
            }
            if relset.contains(o) && !is_replicated(old(rows)@, client_id, o) {
                assert(rel@.to_set().contains(o));
                assert(to_add@.contains(o));
                let j = choose|j: int| 0 <= j < to_add@.len() && #[trigger] to_add@[j] == o;
                assert(added[j].object_id == o);
            }
        }
        assert forall|a: int, b: int| 0 <= a < b < added.len() implies (#[trigger] added[a]).object_id != (#[trigger] added[b]).object_id by {
            assert(added[a].object_id == to_add@[a]);
            assert(added[b].object_id == to_add@[b]);
        }
        assert forall|j: int| 0 <= j < added.len() implies (#[trigger] added[j]).client_id == client_id
            && !added[j].initial_replication_complete && added[j].last_replication_time == now by {
            assert(added[j] == rows@[kept.len() + j]);
        }
        assert(kept == old(rows)@.filter(keeps_relevant(client_id, relset)));
        assert(rows@.take(kept.len() as int) == kept);
        assert(reconciled(old(rows)@, rows@, relset, client_id, now));
    }
    Ok(())
}

} // verus!
