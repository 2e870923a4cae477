//! The trouble-code history of one vehicle.  Each reading of a stored
//! diagnostic code either continues the open event of the same fault or
//! opens a new occurrence of it; a complete reading closes every open event
//! it no longer lists.  The log store keeps the events; this module decides
//! how they change.

use vstd::prelude::*;
use crate::application::{DiagnosticQuality, DtcReading};
use crate::text::str_eq;
use crate::time::Timestamp;

verus! {

/// One occurrence of a fault, from its first to its last detection.
#[derive(Debug, Clone, PartialEq)]
pub struct StoredDtc {
    pub id: i64,
    pub code: String,
    pub ecu: Option<String>,
    pub first_detected_at: Timestamp,
    pub last_detected_at: Timestamp,
    pub active: bool,
    pub cleared_at: Option<Timestamp>,
    pub occurrence: u32,
}

/// One read of the vehicle's diagnostic codes.
#[derive(Debug, Clone, PartialEq)]
pub struct DiagnosticObservation {
    pub observed_at: Timestamp,
    pub mil_on: Option<bool>,
    pub reported_dtc_count: Option<u8>,
    pub dtcs: Vec<DtcReading>,
    pub source_service: String,
    pub quality: DiagnosticQuality,
    pub error: Option<String>,
    pub session_id: Option<i64>,
}

/// What is known of the vehicle's diagnostics as a whole.
#[derive(Debug, Clone, PartialEq)]
pub struct DiagnosticState {
    pub supported: Option<bool>,
    pub mil_on: Option<bool>,
    pub last_observed_at: Option<Timestamp>,
    pub last_error: Option<String>,
}

/// The control unit of a code as the history matches it: a missing one
/// matches an empty name.
pub open spec fn ecu_key(e: Option<String>) -> Seq<char> {
    match e {
        Some(s) => s@,
        None => Seq::empty(),
    }
}

/// An event belongs to the fault a reading names.
pub open spec fn same_fault(d: StoredDtc, r: DtcReading) -> bool {
    d.code@ == r.code@ && ecu_key(d.ecu) == ecu_key(r.ecu)
}

/// The latest open event of the reading's fault.
pub open spec fn open_event(events: Seq<StoredDtc>, r: DtcReading) -> Option<int>
    decreases events.len(),
{
    if events.len() == 0 {
        None
    } else if events.last().active && same_fault(events.last(), r) {
        Some(events.len() - 1)
    } else {
        open_event(events.drop_last(), r)
    }
}

/// The highest occurrence number of the reading's fault so far; zero if
/// it never occurred.
pub open spec fn max_occurrence(events: Seq<StoredDtc>, r: DtcReading) -> nat
    decreases events.len(),
{
    if events.len() == 0 {
        0
    } else {
        let m = max_occurrence(events.drop_last(), r);
        if same_fault(events.last(), r) && events.last().occurrence > m {
            events.last().occurrence as nat
        } else {
            m
        }
    }
}

/// A new event for a reading: the next occurrence of its fault.
pub open spec fn new_event(events: Seq<StoredDtc>, r: DtcReading, at: Timestamp, id: int) -> StoredDtc {
    StoredDtc {
        id: id as i64,
        code: r.code,
        ecu: r.ecu,
        first_detected_at: at,
        last_detected_at: at,
        active: true,
        cleared_at: None,
        occurrence: (max_occurrence(events, r) + 1) as u32,
    }
}

/// One reading recorded: the history, the events recorded so far and the
/// next free id, after the reading `r` taken at `at`.
pub open spec fn reading_step(
    before: (Seq<StoredDtc>, Seq<i64>, int),
    r: DtcReading,
    at: Timestamp,
) -> (Seq<StoredDtc>, Seq<i64>, int) {
    let (ev, ids, n) = before;
    match open_event(ev, r) {
        Some(k) => (ev.update(k, StoredDtc { last_detected_at: at, ..ev[k] }), ids.push(ev[k].id), n),
        None => (ev.push(new_event(ev, r, at, n)), ids.push(n as i64), n + 1),
    }
}

/// The history after the readings of one observation, the event each
/// reading was recorded in, and the next free event id.
pub open spec fn readings_applied(
    events: Seq<StoredDtc>,
    readings: Seq<DtcReading>,
    at: Timestamp,
    next_id: int,
) -> (Seq<StoredDtc>, Seq<i64>, int)
    decreases readings.len(),
{
    if readings.len() == 0 {
        (events, Seq::empty(), next_id)
    } else {
        reading_step(
            readings_applied(events, readings.drop_last(), at, next_id),
            readings.last(),
            at,
        )
    }
}

/// Closes, at `at`, every open event whose id is not listed.
pub open spec fn close_unlisted(events: Seq<StoredDtc>, ids: Seq<i64>, at: Timestamp) -> Seq<StoredDtc> {
    Seq::new(
        events.len(),
        |k: int|
            if events[k].active && !ids.contains(events[k].id) {
                StoredDtc { active: false, cleared_at: Some(at), ..events[k] }
            } else {
                events[k]
            },
    )
}

/// The history after an observation: only a complete reading closes the
/// events of faults it does not list.
pub open spec fn history_after(
    events: Seq<StoredDtc>,
    observation: DiagnosticObservation,
    next_id: int,
) -> (Seq<StoredDtc>, Seq<i64>, int) {
    let (ev, ids, n) = readings_applied(events, observation.dtcs@, observation.observed_at, next_id);
    if observation.quality == DiagnosticQuality::Complete {
        (close_unlisted(ev, ids, observation.observed_at), ids, n)
    } else {
        (ev, ids, n)
    }
}

/// The overall state after an observation: whether diagnostics are
/// supported is learned from every reading but a failed one, the warning
/// lamp from every reading that reports it.
pub open spec fn state_after(state: DiagnosticState, observation: DiagnosticObservation) -> DiagnosticState {
    DiagnosticState {
        supported: match observation.quality {
            DiagnosticQuality::Unsupported => Some(false),
            DiagnosticQuality::Complete | DiagnosticQuality::Partial => Some(true),
            DiagnosticQuality::Failed => state.supported,
        },
        mil_on: match observation.mil_on {
            Some(m) => Some(m),
            None => state.mil_on,
        },
        last_observed_at: Some(observation.observed_at),
        last_error: observation.error,
    }
}

/// Event ids grow along the history and stay below the next free id.
pub open spec fn ids_ordered(events: Seq<StoredDtc>, next_id: int) -> bool {
    &&& forall|i: int, j: int| 0 <= i < j < events.len() ==> events[i].id < events[j].id
    &&& forall|i: int| 0 <= i < events.len() ==> #[trigger] events[i].id < next_id
}

/// The trouble-code history and diagnostic state of one vehicle.
pub struct DtcLedger {
    events: Vec<StoredDtc>,
    next_id: i64,
    state: DiagnosticState,
}

pub struct LedgerView {
    pub events: Seq<StoredDtc>,
    pub next_id: int,
    pub state: DiagnosticState,
}

impl View for DtcLedger {
    type V = LedgerView;

    closed spec fn view(&self) -> LedgerView {
        LedgerView { events: self.events@, next_id: self.next_id as int, state: self.state }
    }
}

/// Every occurrence number of the history is at most `bound`.
pub open spec fn occurrences_at_most(events: Seq<StoredDtc>, bound: int) -> bool {
    forall|i: int| 0 <= i < events.len() ==> #[trigger] events[i].occurrence <= bound
}

proof fn lemma_max_occurrence_bounded(events: Seq<StoredDtc>, r: DtcReading, bound: int)
    requires
        occurrences_at_most(events, bound),
        bound >= 0,
    ensures
        max_occurrence(events, r) <= bound,
    decreases events.len(),
{
    if events.len() > 0 {
        let rest = events.drop_last();
        assert(occurrences_at_most(rest, bound)) by {
            assert forall|i: int| 0 <= i < rest.len() implies #[trigger] rest[i].occurrence <= bound by {
                assert(rest[i] == events[i]);
            }
        }
        lemma_max_occurrence_bounded(rest, r, bound);
        assert(events.last() == events[events.len() - 1]);
    }
}

proof fn lemma_open_event_in_range(events: Seq<StoredDtc>, r: DtcReading)
    ensures
        open_event(events, r) matches Some(k) ==> 0 <= k < events.len() && events[k].active,
    decreases events.len(),
{
    if events.len() > 0 {
        lemma_open_event_in_range(events.drop_last(), r);
    }
}

proof fn lemma_max_occurrence_covers(events: Seq<StoredDtc>, r: DtcReading, k: int)
    requires
        0 <= k < events.len(),
        same_fault(events[k], r),
    ensures
        events[k].occurrence <= max_occurrence(events, r),
    decreases events.len(),
{
    if k < events.len() - 1 {
        lemma_max_occurrence_covers(events.drop_last(), r, k);
    }
}

proof fn lemma_listed_events_open(
    events: Seq<StoredDtc>,
    readings: Seq<DtcReading>,
    at: Timestamp,
    next_id: int,
)
    requires
        ids_ordered(events, next_id),
        i64::MIN <= next_id,
        next_id + readings.len() <= i64::MAX + 1,
    ensures
        ({
            let (ev, ids, n) = readings_applied(events, readings, at, next_id);
            &&& ids_ordered(ev, n)
            &&& next_id <= n <= next_id + readings.len()
            &&& forall|j: int|
                0 <= j < ids.len() ==> exists|m: int|
                    0 <= m < ev.len() && (#[trigger] ev[m]).id == #[trigger] ids[j] && ev[m].active
        }),
    decreases readings.len(),
{
    if readings.len() > 0 {
        lemma_listed_events_open(events, readings.drop_last(), at, next_id);
        let (ev, ids, n) = readings_applied(events, readings.drop_last(), at, next_id);
        let r = readings.last();
        lemma_open_event_in_range(ev, r);
        let (ev2, ids2, n2) = reading_step((ev, ids, n), r, at);
        match open_event(ev, r) {
            Some(k) => {
                assert(forall|a: int| 0 <= a < ev2.len() ==> #[trigger] ev2[a].id == ev[a].id);
                assert forall|j: int| 0 <= j < ids2.len() implies exists|m: int|
                    0 <= m < ev2.len() && (#[trigger] ev2[m]).id == #[trigger] ids2[j]
                        && ev2[m].active by {
                    if j < ids.len() {
                        let m = choose|m: int| 0 <= m < ev.len() && (#[trigger] ev[m]).id == ids[j] && ev[m].active;
                        assert(ev2[m].id == ids2[j]);
                    } else {
                        assert(ev2[k].id == ids2[j]);
                    }
                }
            },
            None => {
                assert(ev2[ev.len() as int].id == n);
                assert(forall|a: int| 0 <= a < ev.len() ==> #[trigger] ev2[a].id == ev[a].id);
                assert forall|j: int| 0 <= j < ids2.len() implies exists|m: int|
                    0 <= m < ev2.len() && (#[trigger] ev2[m]).id == #[trigger] ids2[j]
                        && ev2[m].active by {
                    if j < ids.len() {
                        let m = choose|m: int| 0 <= m < ev.len() && (#[trigger] ev[m]).id == ids[j] && ev[m].active;
                        assert(ev2[m].id == ids2[j]);
                    } else {
                        assert(ev2[ev.len() as int].id == ids2[j]);
                    }
                }
            },
        }
    }
}

/// A complete reading leaves exactly the faults it lists open: after it,
/// an event is open if and only if one of the listed codes was recorded in
/// it.
pub proof fn law_complete_reading_leaves_listed_faults_open(
    events: Seq<StoredDtc>,
    observation: DiagnosticObservation,
    next_id: int,
)
    requires
        ids_ordered(events, next_id),
        i64::MIN <= next_id,
        next_id + observation.dtcs@.len() <= i64::MAX,
        observation.quality == DiagnosticQuality::Complete,
    ensures
        ({
            let (ev, ids, n) = history_after(events, observation, next_id);
            forall|k: int| 0 <= k < ev.len() ==> ((#[trigger] ev[k]).active <==> ids.contains(ev[k].id))
        }),
{
    let at = observation.observed_at;
    lemma_listed_events_open(events, observation.dtcs@, at, next_id);
    let (ev, ids, n) = readings_applied(events, observation.dtcs@, at, next_id);
    let closed = close_unlisted(ev, ids, at);
    assert forall|k: int| 0 <= k < closed.len() implies ((#[trigger] closed[k]).active <==> ids.contains(
        closed[k].id,
    )) by {
        if ids.contains(ev[k].id) {
            let j = choose|j: int| 0 <= j < ids.len() && ids[j] == ev[k].id;
            let m = choose|m: int| 0 <= m < ev.len() && (#[trigger] ev[m]).id == ids[j] && ev[m].active;
            assert(m == k) by {
                if m < k {
                    assert(ev[m].id < ev[k].id);
                } else if k < m {
                    assert(ev[k].id < ev[m].id);
                }
            }
        }
    }
}

/// A reading of a fault that is still open continues its event; any other
/// reading opens one more event, numbered after every earlier occurrence of
/// the fault.
pub proof fn law_recurrence_is_a_new_occurrence(
    events: Seq<StoredDtc>,
    r: DtcReading,
    at: Timestamp,
    ids: Seq<i64>,
    next_id: int,
)
    requires
        occurrences_at_most(events, u32::MAX - 1),
    ensures
        ({
            let (ev, _, _) = reading_step((events, ids, next_id), r, at);
            match open_event(events, r) {
                Some(k) => ev.len() == events.len() && ev[k].occurrence == events[k].occurrence
                    && ev[k].last_detected_at == at,
                None => ev.len() == events.len() + 1 && ev.last().active && forall|k: int|
                    0 <= k < events.len() && same_fault(#[trigger] events[k], r)
                        ==> events[k].occurrence < ev.last().occurrence,
            }
        }),
{
    lemma_open_event_in_range(events, r);
    lemma_max_occurrence_bounded(events, r, u32::MAX - 1);
    assert forall|k: int| 0 <= k < events.len() && same_fault(#[trigger] events[k], r) implies events[k].occurrence
        <= max_occurrence(events, r) by {
        lemma_max_occurrence_covers(events, r, k);
    }
}

/// A reading is only ever recorded in an event of its own fault: the event
/// it continues, or the one it opens, has the reading's code and the same
/// control unit (a missing unit counting as the empty name), and that
/// event's id is the one reported for the reading.  Events of other codes or
/// other control units are left as they were.
pub proof fn law_reading_stays_with_its_control_unit(
    events: Seq<StoredDtc>,
    r: DtcReading,
    at: Timestamp,
    ids: Seq<i64>,
    next_id: int,
)
    ensures
        ({
            let (ev, ids2, _) = reading_step((events, ids, next_id), r, at);
            let unit = |e: Option<String>|
                match e {
                    Some(name) => name@,
                    None => Seq::<char>::empty(),
                };
            &&& ev.len() >= events.len()
            &&& ids2 == ids.push(ids2.last())
            &&& exists|k: int|
                0 <= k < ev.len() && (#[trigger] ev[k]).id == ids2.last() && ev[k].code@ == r.code@
                    && unit(ev[k].ecu) == unit(r.ecu)
            &&& forall|k: int|
                0 <= k < events.len() && (events[k].code@ != r.code@ || unit(events[k].ecu) != unit(
                    r.ecu,
                )) ==> #[trigger] ev[k] == events[k]
        }),
{
    lemma_open_event_in_range(events, r);
    lemma_open_event_is_same_fault(events, r);
    let (ev, ids2, _) = reading_step((events, ids, next_id), r, at);
    let unit = |e: Option<String>|
        match e {
            Some(name) => name@,
            None => Seq::<char>::empty(),
        };
    assert(unit(r.ecu) == ecu_key(r.ecu));
    match open_event(events, r) {
        Some(k) => {
            assert(unit(events[k].ecu) == ecu_key(events[k].ecu));
            assert(ev[k].id == ids2.last() && ev[k].code@ == r.code@ && unit(ev[k].ecu) == unit(r.ecu));
            assert forall|j: int|
                0 <= j < events.len() && (events[j].code@ != r.code@ || unit(events[j].ecu) != unit(
                    r.ecu,
                )) implies #[trigger] ev[j] == events[j] by {
                assert(unit(events[j].ecu) == ecu_key(events[j].ecu));
                assert(j != k);
            }
        },
        None => {
            let k = events.len() as int;
            assert(ev[k].id == ids2.last() && ev[k].code@ == r.code@ && unit(ev[k].ecu) == unit(r.ecu));
            assert forall|j: int|
                0 <= j < events.len() && (events[j].code@ != r.code@ || unit(events[j].ecu) != unit(
                    r.ecu,
                )) implies #[trigger] ev[j] == events[j] by {}
        },
    }
}

proof fn lemma_open_event_is_same_fault(events: Seq<StoredDtc>, r: DtcReading)
    ensures
        open_event(events, r) matches Some(k) ==> 0 <= k < events.len() && events[k].active
            && same_fault(events[k], r),
    decreases events.len(),
{
    if events.len() > 0 {
        lemma_open_event_is_same_fault(events.drop_last(), r);
    }
}

fn same_ecu(a: &Option<String>, b: &Option<String>) -> (r: bool)
    ensures
        r == (ecu_key(*a) == ecu_key(*b)),
{
    let x: &str = match a {
        Some(s) => s.as_str(),
        None => "",
    };
    let y: &str = match b {
        Some(s) => s.as_str(),
        None => "",
    };
    proof {
        reveal_strlit("");
        assert(""@ =~= Seq::<char>::empty());
    }
    assert(x@ == ecu_key(*a));
    assert(y@ == ecu_key(*b));
    str_eq(x, y)
}

fn is_same_fault(d: &StoredDtc, r: &DtcReading) -> (b: bool)
    ensures
        b == same_fault(*d, *r),
{
    str_eq(d.code.as_str(), r.code.as_str()) && same_ecu(&d.ecu, &r.ecu)
}

fn find_open_event(events: &Vec<StoredDtc>, r: &DtcReading) -> (k: Option<usize>)
    ensures
        k matches Some(j) ==> open_event(events@, *r) == Some(j as int) && j < events@.len(),
        k is None <==> open_event(events@, *r) is None,
{
    let mut i: usize = events.len();
    assert(events@.take(i as int) =~= events@);
    while i > 0
        invariant
            i <= events@.len(),
            open_event(events@, *r) == open_event(events@.take(i as int), *r),
        decreases i,
    {
        let e = &events[i - 1];
        assert(events@.take(i as int).drop_last() =~= events@.take(i - 1));
        assert(events@.take(i as int).last() == events@[i - 1]);
        if e.active && is_same_fault(e, r) {
            return Some(i - 1);
        }
        i = i - 1;
    }
    assert(events@.take(0) =~= Seq::<StoredDtc>::empty());
    None
}

fn highest_occurrence(events: &Vec<StoredDtc>, r: &DtcReading) -> (m: u32)
    ensures
        m == max_occurrence(events@, *r),
{
    let mut m: u32 = 0;
    let mut i: usize = 0;
    while i < events.len()
        invariant
            i <= events@.len(),
            m == max_occurrence(events@.take(i as int), *r),
        decreases events.len() - i,
    {
        assert(events@.take(i + 1).drop_last() =~= events@.take(i as int));
        assert(events@.take(i + 1).last() == events@[i as int]);
        let e = &events[i];
        if is_same_fault(e, r) && e.occurrence > m {
            m = e.occurrence;
        }
        i = i + 1;
    }
    assert(events@.take(events@.len() as int) =~= events@);
    m
}

/// What the diagnostics screen shows: the warning lamp, the open events
/// and the latest events, each newest first.
#[derive(Debug, Clone, PartialEq)]
pub struct DiagnosticDashboardData {
    pub mil_on: Option<bool>,
    pub active: Vec<StoredDtc>,
    pub history: Vec<StoredDtc>,
    pub supported: Option<bool>,
    pub last_observed_at: Option<Timestamp>,
    pub last_error: Option<String>,
}

/// Newest detection first.
pub open spec fn by_recency(s: Seq<StoredDtc>) -> bool {
    forall|i: int, j: int|
        0 <= i < j < s.len() ==> (#[trigger] s[i]).last_detected_at@ >= (#[trigger] s[j]).last_detected_at@
}

/// The open events of a history, in history order.
pub open spec fn open_events(s: Seq<StoredDtc>) -> Seq<StoredDtc>
    decreases s.len(),
{
    if s.len() == 0 {
        s
    } else if s.last().active {
        open_events(s.drop_last()).push(s.last())
    } else {
        open_events(s.drop_last())
    }
}

fn copy_dtc(d: &StoredDtc) -> (c: StoredDtc)
    ensures
        c == *d,
{
    StoredDtc {
        id: d.id,
        code: d.code.clone(),
        ecu: match &d.ecu {
            Some(s) => Some(s.clone()),
            None => None,
        },
        first_detected_at: d.first_detected_at,
        last_detected_at: d.last_detected_at,
        active: d.active,
        cleared_at: d.cleared_at,
        occurrence: d.occurrence,
    }
}

/// Inserts `d` after every event detected no earlier than it.
fn insert_by_recency(out: &mut Vec<StoredDtc>, d: StoredDtc)
    requires
        by_recency(old(out)@),
    ensures
        by_recency(final(out)@),
        final(out)@.to_multiset() == old(out)@.to_multiset().insert(d),
{
    let key = d.last_detected_at.nanos();
    let mut p: usize = 0;
    while p < out.len() && out[p].last_detected_at.nanos() >= key
        invariant
            p <= out@.len(),
            key == d.last_detected_at@,
            forall|k: int| 0 <= k < p ==> (#[trigger] out@[k]).last_detected_at@ >= d.last_detected_at@,
        decreases out.len() - p,
    {
        p = p + 1;
    }
    let ghost before = out@;
    proof {
        broadcast use vstd::seq_lib::to_multiset_insert;
        assert(before.insert(p as int, d).to_multiset() == before.to_multiset().insert(d));
    }
    out.insert(p, d);
    assert(out@ == before.insert(p as int, d));
    assert forall|i: int, j: int| 0 <= i < j < out@.len() implies (#[trigger] out@[i]).last_detected_at@
        >= (#[trigger] out@[j]).last_detected_at@ by {
        if j < p {
        } else if j == p {
        } else if i < p {
            assert(out@[j] == before[j - 1]);
            if p < before.len() {
                assert(before[p as int].last_detected_at@ < d.last_detected_at@);
                assert(before[p as int].last_detected_at@ >= before[j - 1].last_detected_at@);
            }
        } else if i == p {
            assert(out@[j] == before[j - 1]);
            assert(p < before.len());
            assert(before[p as int].last_detected_at@ < d.last_detected_at@);
            assert(before[p as int].last_detected_at@ >= before[j - 1].last_detected_at@ || j - 1 == p);
        } else {
            assert(out@[i] == before[i - 1]);
            assert(out@[j] == before[j - 1]);
        }
    }
}

fn contains_id(ids: &Vec<i64>, id: i64) -> (b: bool)
    ensures
        b == ids@.contains(id),
{
    let mut i: usize = 0;
    while i < ids.len()
        invariant
            i <= ids@.len(),
            forall|j: int| 0 <= j < i ==> ids@[j] != id,
        decreases ids.len() - i,
    {
        if ids[i] == id {
            assert(ids@[i as int] == id);
            return true;
        }
        i = i + 1;
    }
    false
}

impl DtcLedger {
    #[verifier::type_invariant]
    closed spec fn well_ordered(self) -> bool {
        ids_ordered(self.events@, self.next_id as int)
    }

    /// A vehicle without any recorded diagnostics; event ids start at 1.
    pub fn empty() -> (l: DtcLedger)
        ensures
            l@.events == Seq::<StoredDtc>::empty(),
            l@.next_id == 1,
            l@.state == (DiagnosticState {
                supported: None,
                mil_on: None,
                last_observed_at: None,
                last_error: None,
            }),
    {
        DtcLedger {
            events: Vec::new(),
            next_id: 1,
            state: DiagnosticState { supported: None, mil_on: None, last_observed_at: None, last_error: None },
        }
    }

    /// A history as stored: events in increasing id order, all below the
    /// next free id; `None` for a history out of that order.
    pub fn from_parts(events: Vec<StoredDtc>, next_id: i64, state: DiagnosticState) -> (l: Option<DtcLedger>)
        ensures
            match l {
                Some(l) => l@ == (LedgerView { events: events@, next_id: next_id as int, state }),
                None => !ids_ordered(events@, next_id as int),
            },
    {
        let mut i: usize = 0;
        while i < events.len()
            invariant
                i <= events@.len(),
                forall|a: int, b: int| 0 <= a < b < i ==> events@[a].id < events@[b].id,
                forall|a: int| 0 <= a < i ==> #[trigger] events@[a].id < next_id,
            decreases events.len() - i,
        {
            if events[i].id >= next_id {
                return None;
            }
            if i > 0 && events[i - 1].id >= events[i].id {
                return None;
            }
            i = i + 1;
        }
        Some(DtcLedger { events, next_id, state })
    }

    pub fn events(&self) -> (e: &[StoredDtc])
        ensures
            e@ == self@.events,
    {
        self.events.as_slice()
    }

    pub fn state(&self) -> (s: &DiagnosticState)
        ensures
            *s == self@.state,
    {
        &self.state
    }

    /// The diagnostics screen: the open events and the `history_limit`
    /// most recently detected events, each newest first, with the overall
    /// state.
    pub fn dashboard(&self, history_limit: usize) -> (d: DiagnosticDashboardData)
        ensures
            d.mil_on == self@.state.mil_on,
            d.supported == self@.state.supported,
            d.last_observed_at == self@.state.last_observed_at,
            d.last_error == self@.state.last_error,
            by_recency(d.active@),
            d.active@.to_multiset() == open_events(self@.events).to_multiset(),
            by_recency(d.history@),
            d.history@.len() == if history_limit < self@.events.len() {
                history_limit as int
            } else {
                self@.events.len() as int
            },
            exists|all: Seq<StoredDtc>|
                by_recency(all) && all.to_multiset() == self@.events.to_multiset() && d.history@
                    == all.take(d.history@.len() as int),
    {
        let mut active: Vec<StoredDtc> = Vec::new();
        let mut all: Vec<StoredDtc> = Vec::new();
        let mut i: usize = 0;
        proof {
            assert(self.events@.take(0) =~= Seq::<StoredDtc>::empty());
            assert(active@ =~= Seq::<StoredDtc>::empty());
            assert(open_events(Seq::<StoredDtc>::empty()) =~= Seq::<StoredDtc>::empty());
        }
        while i < self.events.len()
            invariant
                i <= self.events@.len(),
                by_recency(active@),
                by_recency(all@),
                active@.to_multiset() == open_events(self.events@.take(i as int)).to_multiset(),
                all@.to_multiset() == self.events@.take(i as int).to_multiset(),
            decreases self.events.len() - i,
        {
            let e = &self.events[i];
            proof {
                broadcast use vstd::seq_lib::to_multiset_build;
                let t = self.events@.take(i + 1);
                assert(t.drop_last() =~= self.events@.take(i as int));
                assert(t.last() == self.events@[i as int]);
                assert(t =~= self.events@.take(i as int).push(self.events@[i as int]));
            }
            if e.active {
                insert_by_recency(&mut active, copy_dtc(e));
            }
            insert_by_recency(&mut all, copy_dtc(e));
            i = i + 1;
        }
        assert(self.events@.take(self.events@.len() as int) =~= self.events@);
        proof {
            broadcast use vstd::seq_lib::group_to_multiset_ensures;
            assert(all@.to_multiset().len() == all@.len());
            assert(self.events@.to_multiset().len() == self.events@.len());
        }
        let ghost full = all@;
        let keep = if history_limit < all.len() { history_limit } else { all.len() };
        all.truncate(keep);
        assert(all@ =~= full.take(keep as int));
        assert forall|a: int, b: int| 0 <= a < b < all@.len() implies (#[trigger] all@[a]).last_detected_at@
            >= (#[trigger] all@[b]).last_detected_at@ by {
            assert(all@[a] == full[a] && all@[b] == full[b]);
        }
        DiagnosticDashboardData {
            mil_on: self.state.mil_on,
            active,
            history: all,
            supported: self.state.supported,
            last_observed_at: self.state.last_observed_at,
            last_error: match &self.state.last_error {
                Some(e) => Some(e.clone()),
                None => None,
            },
        }
    }

    /// Records an observation: each listed code continues the open event
    /// of its fault or opens the next occurrence of it, a complete reading
    /// closes the open events it does not list, and the overall state is
    /// updated.  Returns the event of each listed code, in order.
    pub fn record(&mut self, observation: &DiagnosticObservation) -> (ids: Vec<i64>)
        requires
            old(self)@.next_id + observation.dtcs@.len() <= i64::MAX,
            observation.dtcs@.len() <= u32::MAX,
            occurrences_at_most(old(self)@.events, u32::MAX - observation.dtcs@.len()),
        ensures
            (final(self)@.events, ids@, final(self)@.next_id) == history_after(
                old(self)@.events,
                *observation,
                old(self)@.next_id,
            ),
            final(self)@.state == state_after(old(self)@.state, *observation),
    {
        proof {
            use_type_invariant(&*self);
        }
        let at = observation.observed_at;
        let readings = &observation.dtcs;
        let ghost bound: int = u32::MAX - readings@.len();
        let ghost ev0 = self.events@;
        let ghost next0 = self.next_id as int;
        let mut events: Vec<StoredDtc> = Vec::new();
        std::mem::swap(&mut events, &mut self.events);
        let mut next: i64 = self.next_id;
        let mut ids: Vec<i64> = Vec::new();
        let mut i: usize = 0;
        assert(readings@.take(0) =~= Seq::<DtcReading>::empty());
        while i < readings.len()
            invariant
                i <= readings@.len(),
                bound == u32::MAX - readings@.len(),
                bound >= 0,
                next0 + readings@.len() <= i64::MAX,
                (events@, ids@, next as int) == readings_applied(ev0, readings@.take(i as int), at, next0),
                ids_ordered(events@, next as int),
                occurrences_at_most(events@, bound + i),
                next <= next0 + i,
            decreases readings.len() - i,
        {
            let r = &readings[i];
            proof {
                assert(readings@.take(i + 1).drop_last() =~= readings@.take(i as int));
                assert(readings@.take(i + 1).last() == readings@[i as int]);
                lemma_open_event_in_range(events@, *r);
            }
            let ghost before = events@;
            let ghost prev = (events@, ids@, next as int);
            assert(readings_applied(ev0, readings@.take(i + 1), at, next0) == reading_step(
                prev,
                *r,
                at,
            ));
            let found = find_open_event(&events, r);
            match found {
                Some(k) => {
                    proof {
                        lemma_open_event_in_range(before, *r);
                        assert(open_event(before, *r) is Some);
                    }
                    let mut e = events.remove(k);
                    let id = e.id;
                    e.last_detected_at = at;
                    events.insert(k, e);
                    ids.push(id);
                    proof {
                        assert(events@ =~= before.update(
                            k as int,
                            StoredDtc { last_detected_at: at, ..before[k as int] },
                        ));
                        assert forall|a: int| 0 <= a < events@.len() implies #[trigger] events@[a].id
                            == before[a].id by {}
                        assert forall|a: int| 0 <= a < events@.len() implies #[trigger] events@[a].occurrence
                            == before[a].occurrence by {}
                        assert(open_event(before, *r) == Some(k as int));
                        assert(ids@ == prev.1.push(before[k as int].id));
                        assert((events@, ids@, next as int) == reading_step(prev, *r, at));
                    }
                },
                None => {
                    proof {
                        lemma_max_occurrence_bounded(events@, *r, bound + i);
                    }
                    let occurrence = highest_occurrence(&events, r) + 1;
                    let ecu = match &r.ecu {
                        Some(s) => Some(s.clone()),
                        None => None,
                    };
                    let e = StoredDtc {
                        id: next,
                        code: r.code.clone(),
                        ecu,
                        first_detected_at: at,
                        last_detected_at: at,
                        active: true,
                        cleared_at: None,
                        occurrence,
                    };
                    proof {
                        assert(e == new_event(before, *r, at, next as int));
                    }
                    events.push(e);
                    ids.push(next);
                    next = next + 1;
                    proof {
                        assert(events@ =~= before.push(new_event(before, *r, at, (next - 1) as int)));
                        assert(open_event(before, *r) is None);
                        assert((events@, ids@, next as int) == reading_step(prev, *r, at));
                    }
                },
            }
            i = i + 1;
        }
        assert(readings@.take(readings@.len() as int) =~= readings@);
        if observation.quality == DiagnosticQuality::Complete {
            let ghost applied = events@;
            let ghost closed = close_unlisted(applied, ids@, at);
            let mut out: Vec<StoredDtc> = Vec::new();
            let mut j: usize = 0;
            let n = events.len();
            assert(closed.len() == n);
            assert(applied.skip(0) =~= applied);
            while j < n
                invariant
                    n == applied.len(),
                    closed == close_unlisted(applied, ids@, at),
                    closed.len() == n,
                    j <= n,
                    out@ == closed.take(j as int),
                    events@ == applied.skip(j as int),
                decreases n - j,
            {
                let mut e = events.remove(0);
                assert(e == applied[j as int]);
                if e.active && !contains_id(&ids, e.id) {
                    e.active = false;
                    e.cleared_at = Some(at);
                }
                assert(e == closed[j as int]);
                out.push(e);
                assert(closed.take(j + 1) =~= closed.take(j as int).push(closed[j as int]));
                assert(applied.skip(j + 1) =~= applied.skip(j as int).drop_first());
                j = j + 1;
            }
            assert(out@ =~= closed);
            assert forall|a: int| 0 <= a < closed.len() implies #[trigger] closed[a].id == applied[a].id by {}
            events = out;
        }
        self.next_id = next;
        self.events = events;
        self.state = DiagnosticState {
            supported: match observation.quality {
                DiagnosticQuality::Unsupported => Some(false),
                DiagnosticQuality::Complete | DiagnosticQuality::Partial => Some(true),
                DiagnosticQuality::Failed => self.state.supported,
            },
            mil_on: match observation.mil_on {
                Some(m) => Some(m),
                None => self.state.mil_on,
            },
            last_observed_at: Some(at),
            last_error: match &observation.error {
                Some(e) => Some(e.clone()),
                None => None,
            },
        };
        ids
    }
}

} // verus!
