//! Class registry of the client: class names, class IDs and which classes are actors.
use vstd::prelude::*;
use crate::collections::AssocMap;
use crate::text::owned;

verus! {

/// Maps class names to class IDs, and class IDs to whether they are actor classes.
pub struct ClassRegistry {
    pub class_ids: AssocMap<String, u32>,
    pub actor_classes: AssocMap<u32, bool>,
}

impl ClassRegistry {
    pub fn new() -> (r: Self)
        ensures
            r.class_ids@ == Map::<Seq<char>, u32>::empty(),
            r.actor_classes@ == Map::<u32, bool>::empty(),
    {
        ClassRegistry { class_ids: AssocMap::new(), actor_classes: AssocMap::new() }
    }
}

/// The class ID registered under a name, if any.
pub open spec fn spec_class_id(reg: &ClassRegistry, class_name: Seq<char>) -> Option<u32> {
    if reg.class_ids@.contains_key(class_name) {
        Some(reg.class_ids@[class_name])
    } else {
        None
    }
}

/// Whether a class ID is registered as an actor class (unknown IDs are not).
pub open spec fn spec_is_actor_class(reg: &ClassRegistry, class_id: u32) -> bool {
    reg.actor_classes@.contains_key(class_id) && reg.actor_classes@[class_id]
}

/// Get the class ID for a given class name.
pub fn get_class_id_by_name(reg: &ClassRegistry, class_name: &str) -> (r: Option<u32>)
    ensures
        r == spec_class_id(reg, class_name@),
{
    let key = owned(class_name);
    match reg.class_ids.get(&key) {
        Some(id) => Some(*id),
        None => None,
    }
}

/// Check if a class ID represents an actor class.
pub fn is_actor_class(reg: &ClassRegistry, class_id: u32) -> (r: bool)
    ensures
        r == spec_is_actor_class(reg, class_id),
{
    match reg.actor_classes.get(&class_id) {
        Some(b) => *b,
        None => false,
    }
}

/// Register a class: its name maps to `class_id`, and `class_id` is an actor class iff `is_actor`.
pub fn register_class(reg: &mut ClassRegistry, class_name: &str, class_id: u32, is_actor: bool)
    ensures
        final(reg).class_ids@ == old(reg).class_ids@.insert(class_name@, class_id),
        final(reg).actor_classes@ == old(reg).actor_classes@.insert(class_id, is_actor),
{
    reg.class_ids.insert(owned(class_name), class_id);
    reg.actor_classes.insert(class_id, is_actor);
}

/// The name registered first (in registration order) among those mapped to `class_id`, if any.
pub fn get_class_name_by_id(reg: &ClassRegistry, class_id: u32) -> (r: Option<String>)
    ensures
        match r {
            Some(name) => exists|i: int|
                0 <= i < reg.class_ids.key_seq().len()
                && reg.class_ids.key_seq()[i] == name@
                && reg.class_ids@[name@] == class_id
                && forall|j: int| 0 <= j < i ==> reg.class_ids@[#[trigger] reg.class_ids.key_seq()[j]] != class_id,
            None => forall|n: Seq<char>| reg.class_ids@.contains_key(n) ==> reg.class_ids@[n] != class_id,
        },
{
    let n = reg.class_ids.len();
    let mut i: usize = 0;
    while i < n
        invariant
            n == reg.class_ids.key_seq().len(),
            i <= n,
            forall|j: int| 0 <= j < i ==> reg.class_ids@[#[trigger] reg.class_ids.key_seq()[j]] != class_id,
        decreases n - i,
    {
        let (name, id) = reg.class_ids.entry_at(i);
        if *id == class_id {
            return Some(name.clone());
        }
        i = i + 1;
    }
    proof {
        reg.class_ids.lemma_dom();
        assert forall|q: Seq<char>| reg.class_ids@.contains_key(q) implies reg.class_ids@[q] != class_id by {
            assert(reg.class_ids.key_seq().to_set().contains(q));
            let j = choose|j: int| 0 <= j < reg.class_ids.key_seq().len() && reg.class_ids.key_seq()[j] == q;
        }
    }
    None
}

} // verus!
