//! The latest state shown per CAN id in the live view.  The payload of the
//! latest frame is the only copy of the data; decoded values are whatever
//! the decoder produced for it.

use vstd::prelude::*;
use crate::domain::CanId;
use crate::text::{chars_of, contains_chars, contains_seq, lower_all, lower_chars, seq_eq};
use crate::time::Timestamp;

verus! {

/// A received frame with its arrival time.
#[derive(Debug, Clone, PartialEq, Eq)]
pub struct CanFrame {
    pub id: CanId,
    pub is_extended: bool,
    pub is_remote: bool,
    pub data: Vec<u8>,
    pub received_at: Timestamp,
}

/// Latest frame of one CAN id, how often it was seen, and its decoding.
#[derive(Debug, Clone, PartialEq)]
pub struct RealtimeSignalState<V> {
    pub latest_frame: CanFrame,
    pub last_seen: Timestamp,
    pub count: u64,
    pub decoded_values: V,
    pub is_known: bool,
}

impl<V> RealtimeSignalState<V> {
    /// The state of an id seen for the first time.
    pub fn new(frame: CanFrame, decoded_values: V, is_known: bool) -> (s: Self)
        ensures
            s.last_seen == frame.received_at,
            s.count == 1,
            s.latest_frame == frame,
            s.decoded_values == decoded_values,
            s.is_known == is_known,
    {
        RealtimeSignalState {
            last_seen: frame.received_at,
            count: 1,
            latest_frame: frame,
            decoded_values,
            is_known,
        }
    }

    /// Replaces the frame and its decoding and counts one more sighting;
    /// the count stops at its maximum instead of wrapping.
    pub fn update(&mut self, frame: CanFrame, decoded_values: V, is_known: bool)
        ensures
            final(self).last_seen == frame.received_at,
            final(self).latest_frame == frame,
            final(self).decoded_values == decoded_values,
            final(self).is_known == is_known,
            final(self).count == if old(self).count == u64::MAX {
                u64::MAX
            } else {
                (old(self).count + 1) as u64
            },
    {
        self.last_seen = frame.received_at;
        self.latest_frame = frame;
        self.decoded_values = decoded_values;
        self.is_known = is_known;
        self.count = self.count.saturating_add(1);
    }
}

/// The state of an id seen for the first time (what `new` gives).
pub open spec fn first_state<V>(frame: CanFrame, decoded_values: V, is_known: bool) -> RealtimeSignalState<V> {
    RealtimeSignalState { last_seen: frame.received_at, count: 1, latest_frame: frame, decoded_values, is_known }
}

/// The state after one more sighting (what `update` gives).
pub open spec fn next_state<V>(
    s: RealtimeSignalState<V>,
    frame: CanFrame,
    decoded_values: V,
    is_known: bool,
) -> RealtimeSignalState<V> {
    RealtimeSignalState {
        last_seen: frame.received_at,
        count: if s.count == u64::MAX {
            u64::MAX
        } else {
            (s.count + 1) as u64
        },
        latest_frame: frame,
        decoded_values,
        is_known,
    }
}

/// Each state's CAN id is larger than those of the states before it.
pub open spec fn ids_increasing<V>(s: Seq<RealtimeSignalState<V>>) -> bool {
    forall|i: int, j: int|
        #![trigger s[i], s[j]]
        0 <= i < j < s.len() ==> s[i].latest_frame.id < s[j].latest_frame.id
}

/// Where a frame of `id` belongs among states ordered by id: after every
/// smaller id, at the first id that is not smaller.
pub open spec fn id_position<V>(s: Seq<RealtimeSignalState<V>>, id: CanId, p: int) -> bool {
    &&& 0 <= p <= s.len()
    &&& forall|i: int| 0 <= i < p ==> #[trigger] s[i].latest_frame.id < id
    &&& p < s.len() ==> s[p].latest_frame.id >= id
}

/// The states after a frame: the state of its id is advanced, or a first
/// state is put in its place in the order of ids.
pub open spec fn upserted<V>(
    s: Seq<RealtimeSignalState<V>>,
    p: int,
    frame: CanFrame,
    decoded_values: V,
    is_known: bool,
) -> Seq<RealtimeSignalState<V>> {
    if p < s.len() && s[p].latest_frame.id == frame.id {
        s.update(p, next_state(s[p], frame, decoded_values, is_known))
    } else {
        s.insert(p, first_state(frame, decoded_values, is_known))
    }
}

/// The latest state of every CAN id seen, one per id, in order of id.
#[derive(Debug)]
pub struct RealtimeStore<V> {
    entries: Vec<RealtimeSignalState<V>>,
}

impl<V> View for RealtimeStore<V> {
    type V = Seq<RealtimeSignalState<V>>;

    closed spec fn view(&self) -> Seq<RealtimeSignalState<V>> {
        self.entries@
    }
}

impl<V> RealtimeStore<V> {
    #[verifier::type_invariant]
    closed spec fn ordered(self) -> bool {
        ids_increasing(self.entries@)
    }

    /// No id seen yet.
    pub fn new() -> (r: Self)
        ensures
            r@ == Seq::<RealtimeSignalState<V>>::empty(),
    {
        RealtimeStore { entries: Vec::new() }
    }

    /// The states, one per id, in increasing order of id.
    pub fn entries(&self) -> (r: &[RealtimeSignalState<V>])
        ensures
            r@ == self@,
            ids_increasing(self@),
    {
        proof {
            use_type_invariant(self);
        }
        self.entries.as_slice()
    }

    pub fn len(&self) -> (n: usize)
        ensures
            n == self@.len(),
    {
        self.entries.len()
    }

    pub fn is_empty(&self) -> (b: bool)
        ensures
            b == (self@.len() == 0),
    {
        self.entries.len() == 0
    }

    /// Forgets every id.
    pub fn clear(&mut self)
        ensures
            final(self)@ == Seq::<RealtimeSignalState<V>>::empty(),
    {
        self.entries = Vec::new();
    }

    /// Records a frame: the state of its id takes the frame and its decoding
    /// and counts one more sighting, or, for an id not seen before, a first
    /// state is added in the order of ids.
    pub fn upsert(&mut self, frame: CanFrame, decoded_values: V, is_known: bool)
        ensures
            exists|p: int|
                id_position(old(self)@, frame.id, p) && final(self)@ == upserted(
                    old(self)@,
                    p,
                    frame,
                    decoded_values,
                    is_known,
                ),
            ids_increasing(final(self)@),
    {
        proof {
            use_type_invariant(&*self);
        }
        let mut v: Vec<RealtimeSignalState<V>> = Vec::new();
        std::mem::swap(&mut v, &mut self.entries);
        let ghost before = v@;
        let id = frame.id;
        let mut p: usize = 0;
        while p < v.len() && v[p].latest_frame.id < id
            invariant
                p <= v@.len(),
                forall|i: int| 0 <= i < p ==> #[trigger] v@[i].latest_frame.id < id,
            decreases v.len() - p,
        {
            p = p + 1;
        }
        assert(id_position(before, id, p as int));
        if p < v.len() && v[p].latest_frame.id == id {
            let mut st = v.remove(p);
            st.update(frame, decoded_values, is_known);
            v.insert(p, st);
            proof {
                assert(v@ =~= upserted(before, p as int, frame, decoded_values, is_known));
                assert forall|i: int, j: int|
                    #![trigger v@[i], v@[j]]
                    0 <= i < j < v@.len() implies v@[i].latest_frame.id < v@[j].latest_frame.id by {
                    assert(before[i].latest_frame.id < before[j].latest_frame.id);
                }
            }
        } else {
            let st = RealtimeSignalState::new(frame, decoded_values, is_known);
            v.insert(p, st);
            proof {
                assert(v@ =~= upserted(before, p as int, frame, decoded_values, is_known));
                assert forall|i: int, j: int|
                    #![trigger v@[i], v@[j]]
                    0 <= i < j < v@.len() implies v@[i].latest_frame.id < v@[j].latest_frame.id by {
                    if j < p {
                        assert(before[i].latest_frame.id < before[j].latest_frame.id);
                    } else if j == p {
                    } else if i < p {
                        assert(before[i].latest_frame.id < id);
                        assert(before[p as int].latest_frame.id <= before[j - 1].latest_frame.id);
                    } else if i == p {
                        assert(before[p as int].latest_frame.id <= before[j - 1].latest_frame.id);
                    } else {
                        assert(before[i - 1].latest_frame.id < before[j - 1].latest_frame.id);
                    }
                }
            }
        }
        self.entries = v;
        proof {
            assert(old(self)@ == before);
            assert(id_position(old(self)@, frame.id, p as int));
        }
    }
}

/// Recording a frame keeps one state per id and leaves the state of every
/// other id as it was; the frame's id ends up with the frame as its latest.
pub proof fn law_upsert_keeps_one_state_per_id<V>(
    s: Seq<RealtimeSignalState<V>>,
    p: int,
    frame: CanFrame,
    decoded_values: V,
    is_known: bool,
)
    requires
        ids_increasing(s),
        id_position(s, frame.id, p),
    ensures
        ({
            let t = upserted(s, p, frame, decoded_values, is_known);
            &&& exists|k: int| 0 <= k < t.len() && #[trigger] t[k].latest_frame == frame
            &&& forall|i: int|
                0 <= i < s.len() && s[i].latest_frame.id != frame.id ==> exists|k: int|
                    0 <= k < t.len() && #[trigger] t[k] == s[i]
        }),
{
    let t = upserted(s, p, frame, decoded_values, is_known);
    assert(t[p].latest_frame == frame);
    assert forall|i: int|
        0 <= i < s.len() && s[i].latest_frame.id != frame.id implies exists|k: int|
            0 <= k < t.len() && #[trigger] t[k] == s[i] by {
        if i < p {
            assert(t[i] == s[i]);
        } else if p < s.len() && s[p].latest_frame.id == frame.id {
            assert(t[i] == s[i]);
        } else {
            assert(t[i + 1] == s[i]);
        }
    }
}

/// A decoded value's name is one of `names`, ignoring ASCII case.
pub open spec fn names_exactly(value: Seq<char>, names: Seq<&str>) -> bool {
    exists|j: int| 0 <= j < names.len() && lower_all(value) == lower_all(#[trigger] names[j]@)
}

/// One of `names` occurs in a decoded value's name with its ASCII letters
/// lowered; the names themselves are taken as given.
pub open spec fn names_partly(value: Seq<char>, names: Seq<&str>) -> bool {
    exists|j: int| 0 <= j < names.len() && contains_seq(lower_all(value), #[trigger] names[j]@)
}

/// Position of the first decoded value named exactly like one of `names`;
/// failing that, of the first whose name contains one of them.
pub open spec fn metric_position(values: Seq<String>, names: Seq<&str>) -> Option<int> {
    if exists|i: int| 0 <= i < values.len() && names_exactly(#[trigger] values[i]@, names) {
        Some(
            choose|i: int|
                0 <= i < values.len() && names_exactly(#[trigger] values[i]@, names) && forall|
                    k: int,
                | 0 <= k < i ==> !names_exactly(#[trigger] values[k]@, names),
        )
    } else if exists|i: int| 0 <= i < values.len() && names_partly(#[trigger] values[i]@, names) {
        Some(
            choose|i: int|
                0 <= i < values.len() && names_partly(#[trigger] values[i]@, names) && forall|
                    k: int,
                | 0 <= k < i ==> !names_partly(#[trigger] values[k]@, names),
        )
    } else {
        None
    }
}

fn named_exactly(value: &[char], names: &[&str]) -> (r: bool)
    ensures
        r == names_exactly(value@, names@),
{
    let lowered = lower_chars(value);
    let mut j: usize = 0;
    while j < names.len()
        invariant
            j <= names@.len(),
            lowered@ == lower_all(value@),
            forall|k: int| 0 <= k < j ==> lower_all(value@) != lower_all(#[trigger] names@[k]@),
        decreases names.len() - j,
    {
        let name = chars_of(names[j]);
        let lowered_name = lower_chars(&name);
        if seq_eq(&lowered, &lowered_name) {
            return true;
        }
        j = j + 1;
    }
    false
}

fn named_partly(value: &[char], names: &[&str]) -> (r: bool)
    ensures
        r == names_partly(value@, names@),
{
    let lowered = lower_chars(value);
    let mut j: usize = 0;
    while j < names.len()
        invariant
            j <= names@.len(),
            lowered@ == lower_all(value@),
            forall|k: int| 0 <= k < j ==> !contains_seq(lower_all(value@), #[trigger] names@[k]@),
        decreases names.len() - j,
    {
        let name = chars_of(names[j]);
        if contains_chars(&lowered, &name) {
            return true;
        }
        j = j + 1;
    }
    false
}

/// Finds the decoded value a dashboard metric shows: the first whose name
/// equals one of `names` up to ASCII case, or else the first whose name,
/// with ASCII letters lowered, contains one of them.
pub fn find_metric(value_names: &[String], names: &[&str]) -> (r: Option<usize>)
    ensures
        match metric_position(value_names@, names@) {
            Some(i) => r == Some(i as usize),
            None => r is None,
        },
{
    let mut i: usize = 0;
    while i < value_names.len()
        invariant
            i <= value_names@.len(),
            forall|k: int| 0 <= k < i ==> !names_exactly(#[trigger] value_names@[k]@, names@),
        decreases value_names.len() - i,
    {
        let value = chars_of(value_names[i].as_str());
        if named_exactly(&value, names) {
            proof {
                let ghost p = metric_position(value_names@, names@);
                assert(names_exactly(value_names@[i as int]@, names@));
                assert(p is Some);
                let ghost c = p->0;
                if c < i {
                    assert(!names_exactly(value_names@[c]@, names@));
                }
                if c > i {
                    assert(!names_exactly(value_names@[i as int]@, names@));
                }
            }
            return Some(i);
        }
        i = i + 1;
    }
    let mut i: usize = 0;
    while i < value_names.len()
        invariant
            i <= value_names@.len(),
            forall|k: int| 0 <= k < value_names@.len() ==> !names_exactly(#[trigger] value_names@[k]@, names@),
            forall|k: int| 0 <= k < i ==> !names_partly(#[trigger] value_names@[k]@, names@),
        decreases value_names.len() - i,
    {
        let value = chars_of(value_names[i].as_str());
        if named_partly(&value, names) {
            proof {
                let ghost p = metric_position(value_names@, names@);
                assert(names_partly(value_names@[i as int]@, names@));
                assert(p is Some);
                let ghost c = p->0;
                if c < i {
                    assert(!names_partly(value_names@[c]@, names@));
                }
                if c > i {
                    assert(!names_partly(value_names@[i as int]@, names@));
                }
            }
            return Some(i);
        }
        i = i + 1;
    }
    None
}

} // verus!
