//! Client connections on the server: the client table, client IDs, and who
//! may do what (admins, spawning, permissions).
use vstd::prelude::*;
use crate::text::{owned, str_eq};
use crate::shared::connection::ConnectionParams;
use crate::server::actor::{ActorInfo, cleanup_client_actors, spec_cleanup_actors};

verus! {

/// A client's identity (256 bits).
#[derive(Debug, Clone, Copy, PartialEq, Eq, Structural)]
pub struct Identity {
    pub hi: u128,
    pub lo: u128,
}

/// A row of the client table.
#[derive(Debug)]
pub struct ClientInfo {
    pub identity: Identity,
    pub client_id: u64,
    pub display_name: Option<String>,
    pub is_admin: bool,
    pub connected_at: u64,
    /// The connection parameters, as the JSON text the client sent.
    pub connection_params: Option<String>,
    pub last_activity: u64,
}

/// A client row, with its texts as character sequences.
pub type ClientView = (Identity, u64, Option<Seq<char>>, bool, u64, Option<Seq<char>>, u64);

/// An optional text as an optional character sequence.
pub open spec fn opt_text(s: Option<String>) -> Option<Seq<char>> {
    match s {
        Some(t) => Some(t@),
        None => None,
    }
}

impl View for ClientInfo {
    type V = ClientView;

    open spec fn view(&self) -> ClientView {
        (self.identity, self.client_id, opt_text(self.display_name), self.is_admin, self.connected_at,
            opt_text(self.connection_params), self.last_activity)
    }
}

/// The client rows.
pub open spec fn client_views(rows: Seq<ClientInfo>) -> Seq<ClientView> {
    rows.map_values(|c: ClientInfo| c@)
}

/// The source of client IDs: each new client gets the next one, starting at 1000.
pub struct ClientIds {
    pub next: u64,
}

impl ClientIds {
    pub fn new() -> (c: Self)
        ensures
            c.next == 1000,
    {
        ClientIds { next: 1000 }
    }
}

/// Generate a unique client ID.
pub fn generate_client_id(ids: &mut ClientIds) -> (r: u64)
    requires
        old(ids).next < u64::MAX,
    ensures
        r == old(ids).next,
        final(ids).next == old(ids).next + 1,
{
    let id = ids.next;
    ids.next = ids.next + 1;
    id
}

/// The position of the first client row with identity `id`, if any.
pub open spec fn client_index(rows: Seq<ClientView>, id: Identity) -> Option<int> {
    if exists|i: int| 0 <= i < rows.len() && (#[trigger] rows[i]).0 == id {
        Some(choose|i: int| 0 <= i < rows.len() && (#[trigger] rows[i]).0 == id
            && forall|k: int| 0 <= k < i ==> rows[k].0 != id)
    } else {
        None
    }
}

/// Finds the first client row with an identity.
pub fn find_client(rows: &Vec<ClientInfo>, identity: Identity) -> (r: Option<usize>)
    ensures
        match r {
            Some(i) => i < rows@.len() && rows@[i as int].identity == identity
                && forall|k: int| 0 <= k < i ==> rows@[k].identity != identity,
            None => forall|k: int| 0 <= k < rows@.len() ==> rows@[k].identity != identity,
        },
        r == match client_index(client_views(rows@), identity) { Some(i) => Some(i as usize), None => None::<usize> },
{
    let ghost vs = client_views(rows@);
    let n = rows.len();
    let mut i: usize = 0;
    while i < n
        invariant
            n == rows@.len(),
            vs == client_views(rows@),
            i <= n,
            forall|k: int| 0 <= k < i ==> rows@[k].identity != identity,
        decreases n - i,
    {
        if rows[i].identity == identity {
            proof {
                assert(vs[i as int].0 == identity);
                let c = choose|c: int| 0 <= c < vs.len() && (#[trigger] vs[c]).0 == identity
                    && forall|k: int| 0 <= k < c ==> vs[k].0 != identity;
                if c < i {
                    assert(vs[c] == rows@[c]@);
                }
                if c > i {
                    assert(vs[i as int].0 == identity);
                }
            }
            return Some(i);
        }
        i = i + 1;
    }
    proof {
        assert forall|k: int| 0 <= k < vs.len() implies (#[trigger] vs[k]).0 != identity by {
            assert(vs[k] == rows@[k]@);
        }
    }
    None
}

/// Whether the client with identity `id` is an admin (unknown clients are not).
pub open spec fn spec_is_admin_identity(rows: Seq<ClientView>, id: Identity) -> bool {
    match client_index(rows, id) {
        Some(i) => rows[i].3,
        None => false,
    }
}

/// Whether the caller is an admin: system calls (no sender) always are.
pub open spec fn spec_is_admin(rows: Seq<ClientView>, sender: Option<Identity>) -> bool {
    match sender {
        None => true,
        Some(id) => spec_is_admin_identity(rows, id),
    }
}

/// Check whether a specific identity has admin status.
pub fn is_admin_by_identity(rows: &Vec<ClientInfo>, identity: Identity) -> (r: bool)
    ensures
        r == spec_is_admin_identity(client_views(rows@), identity),
{
    match find_client(rows, identity) {
        Some(i) => {
            assert(client_views(rows@)[i as int] == rows@[i as int]@);
            rows[i].is_admin
        },
        None => false,
    }
}

/// Check whether the caller is an admin client (system calls are).
pub fn is_admin(rows: &Vec<ClientInfo>, sender: Option<Identity>) -> (r: bool)
    ensures
        r == spec_is_admin(client_views(rows@), sender),
{
    match sender {
        None => true,
        Some(id) => is_admin_by_identity(rows, id),
    }
}

/// Whether a known, non-admin client may spawn actors of a class: all classes
/// but the player controller (4) and weapon (5) classes.
pub open spec fn class_spawnable(class_id: u32) -> bool {
    class_id != 4 && class_id != 5
}

/// Whether the caller may spawn an actor of the class: system calls and admins
/// always may, unknown clients never, other clients for spawnable classes.
pub open spec fn spec_can_spawn_actor(rows: Seq<ClientView>, sender: Option<Identity>, class_id: u32) -> bool {
    match sender {
        None => true,
        Some(id) => spec_is_admin_identity(rows, id) || (client_index(rows, id) is Some && class_spawnable(class_id)),
    }
}

/// Who may spawn what: a system call (no sender) and an admin may spawn
/// actors of any class; a known client that is not an admin may spawn any
/// class but the player controller (class 4) and the weapon (class 5); an
/// unknown client may spawn nothing.
pub proof fn law_spawn_permissions(rows: Seq<ClientView>, sender: Option<Identity>, class_id: u32)
    ensures
        sender is None ==> spec_can_spawn_actor(rows, sender, class_id),
        sender matches Some(id) && spec_is_admin_identity(rows, id) ==> spec_can_spawn_actor(rows, sender, class_id),
        sender matches Some(id) && client_index(rows, id) is None && !spec_is_admin_identity(rows, id)
            ==> !spec_can_spawn_actor(rows, sender, class_id),
        sender matches Some(id) && client_index(rows, id) is Some && !spec_is_admin_identity(rows, id)
            ==> (spec_can_spawn_actor(rows, sender, class_id) <==> class_id != 4 && class_id != 5),
{
}

/// Check whether the caller is authorized to spawn an actor of the given class.
pub fn can_spawn_actor(rows: &Vec<ClientInfo>, sender: Option<Identity>, class_id: u32) -> (r: bool)
    ensures
        r == spec_can_spawn_actor(client_views(rows@), sender, class_id),
{
    let identity = match sender {
        None => return true,
        Some(id) => id,
    };
    if is_admin_by_identity(rows, identity) {
        return true;
    }
    if find_client(rows, identity).is_none() {
        return false;
    }
    class_id != 4 && class_id != 5
}

/// The permissions that every known client has.
pub open spec fn basic_permission(p: Seq<char>) -> bool {
    p == "connection.basic"@ || p == "actor.view"@ || p == "property.read"@ || p == "actor.spawn.basic"@
        || p == "actor.spawn.pawn"@ || p == "actor.spawn.character"@ || p == "property.write"@
}

/// Whether the caller has a permission: admins have all, known clients the basic ones.
pub open spec fn spec_has_permission(rows: Seq<ClientView>, sender: Option<Identity>, p: Seq<char>) -> bool {
    spec_is_admin(rows, sender) || match sender {
        None => false,
        Some(id) => client_index(rows, id) is Some && basic_permission(p),
    }
}

/// Check whether the caller has a specific permission.
pub fn has_permission(rows: &Vec<ClientInfo>, sender: Option<Identity>, permission: &str) -> (r: bool)
    ensures
        r == spec_has_permission(client_views(rows@), sender, permission@),
{
    if is_admin(rows, sender) {
        return true;
    }
    let identity = match sender {
        None => return false,
        Some(id) => id,
    };
    if find_client(rows, identity).is_none() {
        return false;
    }
    str_eq(permission, "connection.basic") || str_eq(permission, "actor.view") || str_eq(permission, "property.read")
        || str_eq(permission, "actor.spawn.basic") || str_eq(permission, "actor.spawn.pawn")
        || str_eq(permission, "actor.spawn.character") || str_eq(permission, "property.write")
}

/// Set a client's admin status (admins only); returns whether it was set.
pub fn set_client_admin_status(rows: &mut Vec<ClientInfo>, sender: Option<Identity>, target: Identity, admin: bool) -> (r: bool)
    ensures
        r == (spec_is_admin(client_views(old(rows)@), sender) && client_index(client_views(old(rows)@), target) is Some),
        r ==> client_views(final(rows)@) == client_views(old(rows)@).update(
            client_index(client_views(old(rows)@), target)->0,
            ({
                let c = client_views(old(rows)@)[client_index(client_views(old(rows)@), target)->0];
                (c.0, c.1, c.2, admin, c.4, c.5, c.6)
            })),
        !r ==> final(rows)@ == old(rows)@,
{
    if !is_admin(rows, sender) {
        return false;
    }
    let i = match find_client(rows, target) {
        Some(i) => i,
        None => return false,
    };
    let ghost before = client_views(rows@);
    let mut tmp: Vec<ClientInfo> = Vec::new();
    std::mem::swap(&mut tmp, rows);
    let mut c = tmp.remove(i);
    c.is_admin = admin;
    tmp.insert(i, c);
    std::mem::swap(&mut tmp, rows);
    proof {
        assert forall|k: int| 0 <= k < rows@.len() && k != i implies rows@[k] == old(rows)@[k] by {}
        assert(client_views(rows@) =~= before.update(i as int, (before[i as int].0, before[i as int].1, before[i as int].2,
            admin, before[i as int].4, before[i as int].5, before[i as int].6)));
    }
    true
}

fn clone_text(s: &Option<String>) -> (r: Option<String>)
    ensures
        r == *s,
{
    match s {
        Some(t) => Some(t.clone()),
        None => None,
    }
}

impl Clone for ClientInfo {
    fn clone(&self) -> (r: Self)
        ensures
            r == *self,
    {
        ClientInfo {
            identity: self.identity,
            client_id: self.client_id,
            display_name: clone_text(&self.display_name),
            is_admin: self.is_admin,
            connected_at: self.connected_at,
            connection_params: clone_text(&self.connection_params),
            last_activity: self.last_activity,
        }
    }
}

/// Replaces the client row at `i`.
fn replace_client(rows: &mut Vec<ClientInfo>, i: usize, c: ClientInfo)
    requires
        i < old(rows)@.len(),
    ensures
        final(rows)@ == old(rows)@.update(i as int, c),
{
    let mut tmp: Vec<ClientInfo> = Vec::new();
    std::mem::swap(&mut tmp, rows);
    let _ = tmp.remove(i);
    tmp.insert(i, c);
    std::mem::swap(&mut tmp, rows);
    assert(rows@ =~= old(rows)@.update(i as int, c));
}

/// The row that a newly connected client gets.
pub open spec fn new_client_row(identity: Identity, client_id: u64, ts: u64) -> ClientView {
    (identity, client_id, None, false, ts, None, ts)
}

/// Every client row has its own client ID, below the next one to be handed out.
pub open spec fn client_ids_fresh(rows: Seq<ClientView>, next: u64) -> bool {
    &&& forall|i: int| 0 <= i < rows.len() ==> (#[trigger] rows[i]).1 < next
    &&& forall|i: int, j: int| 0 <= i < j < rows.len() ==> (#[trigger] rows[i]).1 != (#[trigger] rows[j]).1
}

/// Registers a client when it connects: a known client (a reconnection) gets
/// its connection and activity times renewed; a new one gets a row with the
/// next client ID, no display name, no admin rights and no parameters.
/// Without a sender nothing happens.
pub fn register_client(rows: &mut Vec<ClientInfo>, ids: &mut ClientIds, sender: Option<Identity>, timestamp: u64)
    requires
        old(ids).next < u64::MAX,
    ensures
        ({
            let before = client_views(old(rows)@);
            match sender {
                None => final(rows)@ == old(rows)@ && final(ids).next == old(ids).next,
                Some(id) => match client_index(before, id) {
                    Some(i) => {
                        &&& client_views(final(rows)@) == before.update(i, (before[i].0, before[i].1, before[i].2,
                            before[i].3, timestamp, before[i].5, timestamp))
                        &&& final(ids).next == old(ids).next
                    },
                    None => {
                        &&& client_views(final(rows)@) == before.push(new_client_row(id, old(ids).next, timestamp))
                        &&& final(ids).next == old(ids).next + 1
                    },
                },
            }
        }),
        client_ids_fresh(client_views(old(rows)@), old(ids).next) ==> client_ids_fresh(client_views(final(rows)@), final(ids).next),
{
    let identity = match sender {
        None => return,
        Some(id) => id,
    };
    let ghost before = client_views(rows@);
    match find_client(rows, identity) {
        Some(i) => {
            let mut c = rows[i].clone();
            c.connected_at = timestamp;
            c.last_activity = timestamp;
            replace_client(rows, i, c);
            assert(client_views(rows@) =~= before.update(i as int, (before[i as int].0, before[i as int].1,
                before[i as int].2, before[i as int].3, timestamp, before[i as int].5, timestamp)));
        },
        None => {
            let client_id = generate_client_id(ids);
            rows.push(ClientInfo {
                identity,
                client_id,
                display_name: None,
                is_admin: false,
                connected_at: timestamp,
                connection_params: None,
                last_activity: timestamp,
            });
            assert(client_views(rows@) =~= before.push(new_client_row(identity, client_id, timestamp)));
        },
    }
}

/// The client rows without those of an identity.
pub open spec fn without_identity(rows: Seq<ClientView>, id: Identity) -> Seq<ClientView> {
    rows.filter(not_of(id))
}

/// Whether a client row belongs to another identity.
pub open spec fn not_of(id: Identity) -> spec_fn(ClientView) -> bool {
    |c: ClientView| c.0 != id
}

/// Removes the rows of an identity from the client table.
fn delete_by_identity(rows: &mut Vec<ClientInfo>, identity: Identity)
    ensures
        client_views(final(rows)@) == without_identity(client_views(old(rows)@), identity),
{
    let ghost before = client_views(rows@);
    let mut kept: Vec<ClientInfo> = Vec::new();
    let n = rows.len();
    let mut i: usize = 0;
    while i < n
        invariant
            n == rows@.len(),
            rows@ == old(rows)@,
            before == client_views(old(rows)@),
            i <= n,
            client_views(kept@) == without_identity(before.subrange(0, i as int), identity),
        decreases n - i,
    {
        proof {
            reveal(Seq::filter);
            assert(before.subrange(0, i + 1).drop_last() =~= before.subrange(0, i as int));
            assert(before[i as int] == rows@[i as int]@);
        }
        if rows[i].identity != identity {
            let c = rows[i].clone();
            kept.push(c);
            assert(client_views(kept@) =~= client_views(kept@).drop_last().push(kept@.last()@));
            assert(client_views(kept@).drop_last() =~= client_views(kept@.drop_last()));
        }
        i = i + 1;
    }
    assert(before.subrange(0, n as int) =~= before);
    *rows = kept;
}

/// Unregisters a client when it disconnects: its actors are marked for
/// destruction and its row is removed. Without a sender, or for a client
/// that was never registered, nothing happens.
pub fn unregister_client(rows: &mut Vec<ClientInfo>, actors: &mut Vec<ActorInfo>, sender: Option<Identity>)
    ensures
        ({
            let before = client_views(old(rows)@);
            match sender {
                Some(id) if client_index(before, id) is Some => {
                    &&& client_views(final(rows)@) == without_identity(before, id)
                    &&& spec_cleanup_actors(old(actors)@, final(actors)@, id)
                },
                _ => final(rows)@ == old(rows)@ && final(actors)@ == old(actors)@,
            }
        }),
{
    let identity = match sender {
        None => return,
        Some(id) => id,
    };
    if find_client(rows, identity).is_none() {
        return;
    }
    cleanup_client_actors(actors, identity);
    delete_by_identity(rows, identity);
}

/// Sets the caller's display name (and renews its activity time); returns
/// whether the caller is a known client.
pub fn set_client_display_name(rows: &mut Vec<ClientInfo>, sender: Option<Identity>, timestamp: u64,
    display_name: String) -> (r: bool)
    ensures
        ({
            let before = client_views(old(rows)@);
            match sender {
                Some(id) if client_index(before, id) is Some => {
                    let i = client_index(before, id)->0;
                    &&& r
                    &&& client_views(final(rows)@) == before.update(i, (before[i].0, before[i].1,
                        Some(display_name@), before[i].3, before[i].4, before[i].5, timestamp))
                },
                _ => !r && final(rows)@ == old(rows)@,
            }
        }),
{
    let identity = match sender {
        None => return false,
        Some(id) => id,
    };
    let ghost before = client_views(rows@);
    let i = match find_client(rows, identity) {
        Some(i) => i,
        None => return false,
    };
    let mut c = rows[i].clone();
    c.display_name = Some(display_name);
    c.last_activity = timestamp;
    replace_client(rows, i, c);
    assert(client_views(rows@) =~= before.update(i as int, (before[i as int].0, before[i as int].1,
        Some(display_name@), before[i as int].3, before[i as int].4, before[i as int].5, timestamp)));
    true
}

/// Records the connection parameters that the caller sent (and renews its
/// activity time). `parsed` is what the parameter text reads as, if it reads
/// as connection parameters at all. Returns whether they were recorded: the
/// caller must be a known client and the text must have read as parameters.
pub fn set_connection_params(rows: &mut Vec<ClientInfo>, sender: Option<Identity>, timestamp: u64,
    params_json: String, parsed: Option<ConnectionParams>) -> (r: bool)
    ensures
        ({
            let before = client_views(old(rows)@);
            match sender {
                Some(id) if client_index(before, id) is Some && parsed is Some => {
                    let i = client_index(before, id)->0;
                    &&& r
                    &&& client_views(final(rows)@) == before.update(i, (before[i].0, before[i].1,
                        before[i].2, before[i].3, before[i].4, Some(params_json@), timestamp))
                },
                _ => !r && final(rows)@ == old(rows)@,
            }
        }),
{
    let identity = match sender {
        None => return false,
        Some(id) => id,
    };
    let ghost before = client_views(rows@);
    let i = match find_client(rows, identity) {
        Some(i) => i,
        None => return false,
    };
    if parsed.is_none() {
        return false;
    }
    let mut c = rows[i].clone();
    c.connection_params = Some(params_json);
    c.last_activity = timestamp;
    replace_client(rows, i, c);
    assert(client_views(rows@) =~= before.update(i as int, (before[i as int].0, before[i as int].1,
        before[i as int].2, before[i as int].3, before[i as int].4, Some(params_json@), timestamp)));
    true
}

/// A client that connects for the first time and then disconnects leaves
/// the client table as it was: its new row is found and removed again.
pub proof fn law_disconnect_undoes_connect(rows: Seq<ClientView>, id: Identity, client_id: u64, ts: u64)
    requires
        client_index(rows, id) is None,
    ensures
        client_index(rows.push(new_client_row(id, client_id, ts)), id) is Some,
        without_identity(rows.push(new_client_row(id, client_id, ts)), id) == rows,
{
    let s = rows.push(new_client_row(id, client_id, ts));
    assert(s[rows.len() as int].0 == id);
    assert forall|i: int| 0 <= i < rows.len() implies not_of(id)(#[trigger] rows[i]) by {
        if rows[i].0 == id {
            assert(exists|j: int| 0 <= j < rows.len() && (#[trigger] rows[j]).0 == id);
        }
    }
    crate::collections::lemma_filter_push_fail(rows, new_client_row(id, client_id, ts), not_of(id));
    crate::collections::lemma_filter_all(rows, not_of(id));
}

/// Client IDs stay unique when a client disconnects: removing the rows of an
/// identity keeps every other row's ID, so no two rows share one and each is
/// below the next to be handed out.
pub proof fn law_unregister_keeps_ids_fresh(rows: Seq<ClientView>, id: Identity, next: u64)
    requires
        client_ids_fresh(rows, next),
    ensures
        client_ids_fresh(without_identity(rows, id), next),
{
    crate::collections::lemma_filter_distinct(rows, not_of(id), |c: ClientView| c.1);
    let f = without_identity(rows, id);
    assert forall|i: int| 0 <= i < f.len() implies (#[trigger] f[i]).1 < next by {
        let k = choose|k: int| 0 <= k < rows.len() && f[i] == rows[k];
    }
    assert forall|i: int, j: int| 0 <= i < j < f.len() implies (#[trigger] f[i]).1 != (#[trigger] f[j]).1 by {
        assert((|c: ClientView| c.1)(f[i]) != (|c: ClientView| c.1)(f[j]));
    }
}

} // verus!
