//! Client-side prediction bookkeeping: per-object sequence numbers and acknowledgements.
use vstd::prelude::*;
use crate::collections::AssocMap;
use crate::shared::types::ObjectId;

verus! {

/// Sequence number for prediction.
pub type SequenceNumber = u32;

/// Prediction state of one object.
#[derive(Debug, Clone, Copy, PartialEq, Eq, Structural)]
pub struct PredictionState {
    /// Object this prediction state belongs to.
    pub object_id: ObjectId,
    /// Next sequence number to hand out.
    pub current_sequence: SequenceNumber,
    /// Last sequence number acknowledged by the server.
    pub last_acked_sequence: SequenceNumber,
}

/// The sequence number that follows `s`, wrapping around after `u32::MAX`.
pub open spec fn next_sequence(s: SequenceNumber) -> SequenceNumber {
    if s == u32::MAX {
        0
    } else {
        (s + 1) as u32
    }
}

/// State of the client-side prediction system.
pub struct PredictionSystem {
    prediction_states: AssocMap<ObjectId, PredictionState>,
}

impl View for PredictionSystem {
    type V = Map<ObjectId, PredictionState>;

    closed spec fn view(&self) -> Map<ObjectId, PredictionState> {
        self.prediction_states@
    }
}

impl PredictionSystem {
    /// Create a new prediction system with no registered object.
    pub fn new() -> (r: Self)
        ensures
            r@ == Map::<ObjectId, PredictionState>::empty(),
    {
        PredictionSystem { prediction_states: AssocMap::new() }
    }

    /// Register an object for prediction, starting (again) from sequence 0.
    pub fn register_object(&mut self, object_id: ObjectId)
        ensures
            final(self)@ == spec_register(old(self)@, object_id),
    {
        self.prediction_states.insert(
            object_id,
            PredictionState { object_id, current_sequence: 0, last_acked_sequence: 0 },
        );
    }

    /// Unregister an object from prediction.
    pub fn unregister_object(&mut self, object_id: ObjectId)
        ensures
            final(self)@ == old(self)@.remove(object_id),
    {
        self.prediction_states.remove(&object_id);
    }

    /// Hand out the next sequence number of an object and advance its counter.
    pub fn get_next_sequence(&mut self, object_id: ObjectId) -> (r: Option<SequenceNumber>)
        ensures
            r == (if old(self)@.contains_key(object_id) {
                Some(old(self)@[object_id].current_sequence)
            } else {
                None
            }),
            final(self)@ == spec_advance(old(self)@, object_id),
    {
        match self.prediction_states.get(&object_id) {
            Some(st) => {
                let st = *st;
                let seq = st.current_sequence;
                let next = if seq == u32::MAX { 0 } else { seq + 1 };
                self.prediction_states.insert(
                    object_id,
                    PredictionState { current_sequence: next, ..st },
                );
                Some(seq)
            },
            None => None,
        }
    }

    /// Record a server acknowledgement of `sequence` for an object.
    pub fn process_ack(&mut self, object_id: ObjectId, sequence: SequenceNumber)
        ensures
            final(self)@ == spec_process_ack(old(self)@, object_id, sequence),
    {
        match self.prediction_states.get(&object_id) {
            Some(st) => {
                let st = *st;
                self.prediction_states.insert(
                    object_id,
                    PredictionState { last_acked_sequence: sequence, ..st },
                );
            },
            None => {},
        }
    }

    /// Check if an object has active prediction.
    pub fn has_prediction(&self, object_id: ObjectId) -> (r: bool)
        ensures
            r == self@.contains_key(object_id),
    {
        self.prediction_states.contains_key(&object_id)
    }

    /// The last acknowledged sequence of an object, if it is registered.
    pub fn get_last_acked_sequence(&self, object_id: ObjectId) -> (r: Option<SequenceNumber>)
        ensures
            r == (if self@.contains_key(object_id) {
                Some(self@[object_id].last_acked_sequence)
            } else {
                None
            }),
    {
        match self.prediction_states.get(&object_id) {
            Some(st) => Some(st.last_acked_sequence),
            None => None,
        }
    }
}

/// The prediction states after registering `object_id`.
pub open spec fn spec_register(m: Map<ObjectId, PredictionState>, object_id: ObjectId) -> Map<ObjectId, PredictionState> {
    m.insert(object_id, PredictionState { object_id, current_sequence: 0, last_acked_sequence: 0 })
}

/// The prediction states after acknowledging `sequence` for `object_id`.
pub open spec fn spec_process_ack(m: Map<ObjectId, PredictionState>, object_id: ObjectId, sequence: SequenceNumber) -> Map<ObjectId, PredictionState> {
    if m.contains_key(object_id) {
        m.insert(object_id, PredictionState { last_acked_sequence: sequence, ..m[object_id] })
    } else {
        m
    }
}

/// The prediction states after handing out the next sequence number of `object_id`.
pub open spec fn spec_advance(m: Map<ObjectId, PredictionState>, object_id: ObjectId) -> Map<ObjectId, PredictionState> {
    if m.contains_key(object_id) {
        m.insert(object_id, PredictionState { current_sequence: next_sequence(m[object_id].current_sequence), ..m[object_id] })
    } else {
        m
    }
}

/// Registering an object and then drawing `k + 1` sequence numbers hands out `0, 1, ..., k`
/// (while no wrap-around occurs): after `k` draws the counter stands at `k`.
pub proof fn law_sequences_count_from_zero(m: Map<ObjectId, PredictionState>, object_id: ObjectId, k: nat)
    requires
        k <= u32::MAX,
    ensures
        draws(spec_register(m, object_id), object_id, k).contains_key(object_id),
        draws(spec_register(m, object_id), object_id, k)[object_id].current_sequence == k,
    decreases k,
{
    if k > 0 {
        law_sequences_count_from_zero(m, object_id, (k - 1) as nat);
    }
}

/// The states after `k` successive draws of sequence numbers for `object_id`.
pub open spec fn draws(m: Map<ObjectId, PredictionState>, object_id: ObjectId, k: nat) -> Map<ObjectId, PredictionState>
    decreases k,
{
    if k == 0 {
        m
    } else {
        spec_advance(draws(m, object_id, (k - 1) as nat), object_id)
    }
}

/// After an acknowledgement of `sequence` for a registered object, the last
/// acknowledged sequence of that object is `sequence`; other objects are untouched.
pub proof fn law_ack_then_read(m: Map<ObjectId, PredictionState>, object_id: ObjectId, other: ObjectId, sequence: SequenceNumber)
    requires
        m.contains_key(object_id),
        other != object_id,
    ensures
        spec_process_ack(m, object_id, sequence)[object_id].last_acked_sequence == sequence,
        spec_process_ack(m, object_id, sequence).contains_key(other) == m.contains_key(other),
        m.contains_key(other) ==> spec_process_ack(m, object_id, sequence)[other] == m[other],
{
}

/// Sequence numbers wrap from `u32::MAX` back to 0 and otherwise grow by one.
pub proof fn law_sequence_wraps(s: SequenceNumber)
    ensures
        next_sequence(s) == (if s == u32::MAX { 0 } else { s + 1 }),
        next_sequence(s) != s,
{
}

} // verus!
