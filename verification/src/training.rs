//! Which recorded sessions may train the per-vehicle AI model, and how the
//! accepted ones are split chronologically so that no later session leaks
//! into an earlier stage.

use vstd::prelude::*;
use std::collections::BTreeMap;
use crate::time::{NANOS_PER_DAY, NANOS_PER_SEC, Timestamp, timestamp_in_range};
use crate::text::str_eq;

verus! {

pub const MIN_TRAINING_SESSIONS: usize = 10;

/// Three hours of accepted driving, in seconds.
pub const MIN_TRAINING_SECONDS: u64 = 10_800;

/// Sessions must be this many days old before they can train a model.
pub const TRAINING_HOLD_DAYS: i128 = 7;

/// What the selection needs to know of a recorded session.  The score
/// thresholds are applied where the scores are computed.
#[derive(Debug, Clone)]
pub struct TrainingSessionCandidate {
    pub session_id: i64,
    pub started_at: Timestamp,
    pub ended_at: Timestamp,
    /// The statistical health score is below 90.
    pub health_score_below_90: bool,
    /// Less than 80 percent of the expected signals were covered.
    pub coverage_below_80_percent: bool,
    pub has_dtc_or_mil: bool,
    pub has_fault_feedback: bool,
    /// An AI score exists and is below 70.
    pub ai_score_below_70: bool,
    pub sessions_since_maintenance: Option<u32>,
    pub driving_state: String,
}

/// Session ids of the four chronological stages of a training run.
#[derive(Debug, Clone, PartialEq, Eq)]
pub struct SessionSplit {
    pub training: Vec<i64>,
    pub validation: Vec<i64>,
    pub calibration: Vec<i64>,
    pub evaluation: Vec<i64>,
}

#[derive(Debug, Clone, PartialEq, Eq)]
pub enum TrainingReadiness {
    Ready(SessionSplit),
    Waiting(Vec<String>),
}

/// The characters of each string.
pub open spec fn texts(v: Seq<String>) -> Seq<Seq<char>> {
    v.map_values(|s: String| s@)
}

pub open spec fn when(b: bool, s: Seq<char>) -> Seq<Seq<char>> {
    if b {
        seq![s]
    } else {
        Seq::empty()
    }
}

/// The session ended less than the hold period before `now`.
pub open spec fn in_hold(c: TrainingSessionCandidate, now: Timestamp) -> bool {
    now@ - c.ended_at@ < TRAINING_HOLD_DAYS * NANOS_PER_DAY
}

/// Why a session may not train a model, in a fixed order; empty when it may.
pub open spec fn rejection_reasons_of(c: TrainingSessionCandidate, now: Timestamp) -> Seq<
    Seq<char>,
> {
    when(in_hold(c, now), "seven_day_hold"@) + when(
        c.health_score_below_90,
        "health_score_below_90"@,
    ) + when(c.coverage_below_80_percent, "coverage_below_80_percent"@) + when(
        c.has_dtc_or_mil,
        "dtc_or_mil"@,
    ) + when(c.has_fault_feedback, "fault_feedback"@) + when(
        c.sessions_since_maintenance matches Some(n) && n < 3,
        "maintenance_cooldown"@,
    ) + when(c.ai_score_below_70, "ai_score_below_70"@)
}

/// The decision recorded per session id; a later candidate with the same id
/// replaces an earlier one.
pub open spec fn decision_map(cs: Seq<TrainingSessionCandidate>, now: Timestamp) -> Map<
    i64,
    Seq<Seq<char>>,
>
    decreases cs.len(),
{
    if cs.len() == 0 {
        Map::empty()
    } else {
        decision_map(cs.drop_last(), now).insert(
            cs.last().session_id,
            rejection_reasons_of(cs.last(), now),
        )
    }
}

/// Candidate `i` is accepted: the decision stored for its id has no reason.
pub open spec fn is_accepted(cs: Seq<TrainingSessionCandidate>, now: Timestamp, i: int) -> bool {
    decision_map(cs, now)[cs[i].session_id].len() == 0
}

/// `i` comes before `j` chronologically, ties broken by list position.
pub open spec fn starts_before(cs: Seq<TrainingSessionCandidate>, i: int, j: int) -> bool {
    cs[i].started_at@ < cs[j].started_at@ || (cs[i].started_at@ == cs[j].started_at@ && i < j)
}

/// `order` lists exactly the accepted candidates, oldest first (a stable
/// sort by start time).
pub open spec fn accepted_in_order(
    cs: Seq<TrainingSessionCandidate>,
    now: Timestamp,
    order: Seq<int>,
) -> bool {
    &&& forall|k: int| 0 <= k < order.len() ==> 0 <= #[trigger] order[k] < cs.len()
    &&& forall|k: int| 0 <= k < order.len() ==> is_accepted(cs, now, #[trigger] order[k])
    &&& forall|i: int| 0 <= i < cs.len() && is_accepted(cs, now, i) ==> order.contains(i)
    &&& forall|a: int, b: int|
        0 <= a < b < order.len() ==> starts_before(cs, #[trigger] order[a], #[trigger] order[b])
}

/// Whole seconds a session lasted; negative spans count as zero.
pub open spec fn session_seconds(c: TrainingSessionCandidate) -> int {
    if c.ended_at@ > c.started_at@ {
        (c.ended_at@ - c.started_at@) / (NANOS_PER_SEC as int)
    } else {
        0
    }
}

pub open spec fn total_seconds(cs: Seq<TrainingSessionCandidate>, order: Seq<int>) -> int
    decreases order.len(),
{
    if order.len() == 0 {
        0
    } else {
        total_seconds(cs, order.drop_last()) + session_seconds(cs[order.last()])
    }
}

/// How many of the ordered sessions were driven in `state`.
pub open spec fn state_count(
    cs: Seq<TrainingSessionCandidate>,
    order: Seq<int>,
    state: Seq<char>,
) -> nat
    decreases order.len(),
{
    if order.len() == 0 {
        0
    } else {
        state_count(cs, order.drop_last(), state) + if cs[order.last()].driving_state@
            == state {
            1nat
        } else {
            0nat
        }
    }
}

/// Fewer than two driving states occur, or one of them covers more than 90
/// percent of the sessions.
pub open spec fn states_skewed(cs: Seq<TrainingSessionCandidate>, order: Seq<int>) -> bool {
    ||| forall|a: int, b: int|
        0 <= a < order.len() && 0 <= b < order.len() ==> cs[order[a]].driving_state@
            == cs[order[b]].driving_state@
    ||| exists|k: int|
        0 <= k < order.len() && 10 * state_count(cs, order, cs[#[trigger] order[k]].driving_state@)
            > 9 * order.len()
}

/// Sessions held out for validation or calibration: 15 percent, at least one.
pub open spec fn holdout_count(n: nat) -> nat {
    let share = (n * 15 + 99) / 100;
    if share < 1 {
        1
    } else {
        share
    }
}

/// Sessions held out for the final evaluation: 15 percent, at least three.
pub open spec fn evaluation_count(n: nat) -> nat {
    let share = (n * 15 + 99) / 100;
    if share < 3 {
        3
    } else {
        share
    }
}

/// Why training must wait, given the accepted sessions in order.
pub open spec fn waiting_reasons(cs: Seq<TrainingSessionCandidate>, order: Seq<int>) -> Seq<
    Seq<char>,
> {
    let n = order.len();
    when(n < MIN_TRAINING_SESSIONS, "fewer_than_10_valid_sessions"@) + when(
        total_seconds(cs, order) < MIN_TRAINING_SECONDS,
        "less_than_3_hours"@,
    ) + when(states_skewed(cs, order), "driving_state_extremely_skewed"@) + when(
        n >= MIN_TRAINING_SESSIONS && n <= evaluation_count(n) + 2 * holdout_count(n),
        "insufficient_leak_free_split"@,
    )
}

/// The ids of `order[from..to]`.
pub open spec fn ids_of(cs: Seq<TrainingSessionCandidate>, order: Seq<int>, from: int, to: int) -> Seq<
    i64,
> {
    order.subrange(from, to).map_values(|i: int| cs[i].session_id)
}

/// The split of ordered sessions: training first, then validation,
/// calibration and evaluation, each later than the one before.
pub open spec fn split_of(cs: Seq<TrainingSessionCandidate>, order: Seq<int>, s: SessionSplit) -> bool {
    let n = order.len();
    let v = holdout_count(n);
    let e = evaluation_count(n);
    let train_end = n - e - 2 * v;
    &&& s.training@ == ids_of(cs, order, 0, train_end)
    &&& s.validation@ == ids_of(cs, order, train_end, train_end + v)
    &&& s.calibration@ == ids_of(cs, order, train_end + v, train_end + 2 * v)
    &&& s.evaluation@ == ids_of(cs, order, train_end + 2 * v, n as int)
}

fn push_when(out: &mut Vec<String>, b: bool, s: &str)
    ensures
        texts(final(out)@) == texts(old(out)@) + when(b, s@),
{
    if b {
        out.push(s.to_owned());
    }
    proof {
        if b {
            assert(texts(out@) =~= texts(old(out)@) + when(b, s@));
        } else {
            assert(texts(out@) =~= texts(old(out)@) + when(b, s@));
        }
    }
}

fn rejection_reasons(candidate: &TrainingSessionCandidate, now: Timestamp) -> (r: Vec<String>)
    ensures
        texts(r@) == rejection_reasons_of(*candidate, now),
{
    let mut reasons: Vec<String> = Vec::new();
    let ghost empty = texts(reasons@);
    assert(empty =~= Seq::<Seq<char>>::empty());
    let held = now.nanos_since(&candidate.ended_at) < TRAINING_HOLD_DAYS * NANOS_PER_DAY;
    push_when(&mut reasons, held, "seven_day_hold");
    push_when(&mut reasons, candidate.health_score_below_90, "health_score_below_90");
    push_when(&mut reasons, candidate.coverage_below_80_percent, "coverage_below_80_percent");
    push_when(&mut reasons, candidate.has_dtc_or_mil, "dtc_or_mil");
    push_when(&mut reasons, candidate.has_fault_feedback, "fault_feedback");
    let cooldown = match candidate.sessions_since_maintenance {
        Some(n) => n < 3,
        None => false,
    };
    push_when(&mut reasons, cooldown, "maintenance_cooldown");
    push_when(&mut reasons, candidate.ai_score_below_70, "ai_score_below_70");
    assert(texts(reasons@) =~= rejection_reasons_of(*candidate, now));
    reasons
}

/// Inserts `j` after every listed candidate that starts before it.
fn insert_by_start(cs: &[TrainingSessionCandidate], order: &mut Vec<usize>, j: usize)
    requires
        j < cs@.len(),
        forall|k: int| 0 <= k < old(order)@.len() ==> #[trigger] old(order)@[k] < j,
        forall|a: int, b: int|
            0 <= a < b < old(order)@.len() ==> starts_before(
                cs@,
                #[trigger] old(order)@[a] as int,
                #[trigger] old(order)@[b] as int,
            ),
    ensures
        final(order)@.len() == old(order)@.len() + 1,
        forall|k: int| 0 <= k < final(order)@.len() ==> #[trigger] final(order)@[k] <= j,
        forall|x: usize| #[trigger] final(order)@.contains(x) <==> (old(order)@.contains(x) || x
            == j),
        forall|a: int, b: int|
            0 <= a < b < final(order)@.len() ==> starts_before(
                cs@,
                #[trigger] final(order)@[a] as int,
                #[trigger] final(order)@[b] as int,
            ),
{
    let start = cs[j].started_at.nanos();
    let mut pos = order.len();
    while pos > 0 && start < cs[order[pos - 1]].started_at.nanos()
        invariant
            pos <= order@.len(),
            j < cs@.len(),
            start == cs@[j as int].started_at@,
            forall|k: int| pos <= k < order@.len() ==> starts_before(
                cs@,
                j as int,
                #[trigger] order@[k] as int,
            ),
            forall|k: int| 0 <= k < order@.len() ==> #[trigger] order@[k] < j,
            forall|k: int| 0 <= k < order@.len() ==> #[trigger] order@[k] < cs@.len(),
        decreases pos,
    {
        pos = pos - 1;
    }
    proof {
        if pos > 0 {
            assert(starts_before(cs@, order@[pos - 1] as int, j as int));
        }
    }
    let ghost before = order@;
    order.insert(pos, j);
    proof {
        assert forall|x: usize| #[trigger] order@.contains(x) <==> (before.contains(x) || x
            == j) by {
            if order@.contains(x) {
                let k = choose|k: int| 0 <= k < order@.len() && order@[k] == x;
                if k < pos {
                    assert(before[k] == x);
                } else if k > pos {
                    assert(before[k - 1] == x);
                }
            }
            if before.contains(x) {
                let k = choose|k: int| 0 <= k < before.len() && before[k] == x;
                if k < pos {
                    assert(order@[k] == x);
                } else {
                    assert(order@[k + 1] == x);
                }
            }
            if x == j {
                assert(order@[pos as int] == j);
            }
        }
        assert forall|a: int, b: int| 0 <= a < b < order@.len() implies starts_before(
            cs@,
            #[trigger] order@[a] as int,
            #[trigger] order@[b] as int,
        ) by {
            if b < pos {
                assert(order@[a] == before[a] && order@[b] == before[b]);
            } else if b == pos {
                assert(order@[a] == before[a]);
                if a < pos - 1 {
                    assert(starts_before(cs@, before[a] as int, before[pos - 1] as int));
                }
            } else if a == pos {
                assert(order@[b] == before[b - 1]);
            } else if a < pos {
                assert(order@[a] == before[a] && order@[b] == before[b - 1]);
            } else {
                assert(order@[a] == before[a - 1] && order@[b] == before[b - 1]);
            }
        }
    }
}

/// Decides for each candidate whether it may train a model, and whether the
/// accepted sessions suffice: at least ten sessions, three hours of driving,
/// more than one driving state with none above 90 percent, and enough
/// sessions for four leak-free chronological stages.
pub fn evaluate_training_readiness(candidates: &[TrainingSessionCandidate], now: Timestamp) -> (r: (
    TrainingReadiness,
    BTreeMap<i64, Vec<String>>,
))
    ensures
        r.1@.map_values(|v: Vec<String>| texts(v@)) == decision_map(candidates@, now),
        exists|order: Seq<int>|
            accepted_in_order(candidates@, now, order) && match r.0 {
                TrainingReadiness::Ready(split) => waiting_reasons(candidates@, order).len() == 0
                    && split_of(candidates@, order, split),
                TrainingReadiness::Waiting(w) => waiting_reasons(candidates@, order).len() > 0
                    && texts(w@) == waiting_reasons(candidates@, order),
            },
{
    let mut decisions: BTreeMap<i64, Vec<String>> = BTreeMap::new();
    let mut i: usize = 0;
    while i < candidates.len()
        invariant
            i <= candidates@.len(),
            decisions@.map_values(|v: Vec<String>| texts(v@)) == decision_map(
                candidates@.take(i as int),
                now,
            ),
        decreases candidates.len() - i,
    {
        let reasons = rejection_reasons(&candidates[i], now);
        decisions.insert(candidates[i].session_id, reasons);
        assert(candidates@.take(i + 1).drop_last() =~= candidates@.take(i as int));
        assert(decisions@.map_values(|v: Vec<String>| texts(v@)) =~= decision_map(
            candidates@.take(i + 1),
            now,
        ));
        i = i + 1;
    }
    assert(candidates@.take(candidates@.len() as int) =~= candidates@);
    let mut order: Vec<usize> = Vec::new();
    let mut j: usize = 0;
    while j < candidates.len()
        invariant
            j <= candidates@.len(),
            decisions@.map_values(|v: Vec<String>| texts(v@)) == decision_map(candidates@, now),
            forall|k: int| 0 <= k < order@.len() ==> #[trigger] order@[k] < j,
            forall|k: int| 0 <= k < order@.len() ==> is_accepted(
                candidates@,
                now,
                #[trigger] order@[k] as int,
            ),
            forall|x: usize| x < j && is_accepted(candidates@, now, x as int) ==> #[trigger] order@.contains(x),
            forall|a: int, b: int|
                0 <= a < b < order@.len() ==> starts_before(
                    candidates@,
                    #[trigger] order@[a] as int,
                    #[trigger] order@[b] as int,
                ),
        decreases candidates.len() - j,
    {
        let id = candidates[j].session_id;
        proof {
            lemma_decision_map_has(candidates@, now, j as int);
            assert(decisions@.contains_key(id));
        }
        let accepted = match decisions.get(&id) {
            Some(reasons) => {
                proof {
                    assert(decisions@[id] == *reasons);
                    assert(texts(reasons@).len() == reasons@.len());
                }
                reasons.len() == 0
            },
            None => false,
        };
        assert(accepted == is_accepted(candidates@, now, j as int));
        let ghost old_order = order@;
        if accepted {
            insert_by_start(candidates, &mut order, j);
        }
        proof {
            assert forall|k: int| 0 <= k < order@.len() implies #[trigger] order@[k] < j + 1
                && is_accepted(candidates@, now, order@[k] as int) by {
                let x = order@[k];
                assert(order@.contains(x));
                if old_order.contains(x) {
                    let m = choose|m: int| 0 <= m < old_order.len() && old_order[m] == x;
                    assert(old_order[m] < j);
                }
            }
            assert forall|x: usize| x < j + 1 && is_accepted(candidates@, now, x as int)
                implies #[trigger] order@.contains(x) by {
                if x < j {
                    assert(old_order.contains(x));
                }
            }
        }
        j = j + 1;
    }
    let ghost ord: Seq<int> = order@.map_values(|x: usize| x as int);
    proof {
        assert forall|k: int| 0 <= k < ord.len() implies 0 <= #[trigger] ord[k]
            < candidates@.len() by {}
        assert forall|x: int|
            0 <= x < candidates@.len() && is_accepted(candidates@, now, x) implies ord.contains(
            x,
        ) by {
            assert(order@.contains(x as usize));
            let k = choose|k: int| 0 <= k < order@.len() && order@[k] == x as usize;
            assert(ord[k] == x);
        }
        assert(accepted_in_order(candidates@, now, ord));
    }
    let n = order.len();
    let total = accepted_seconds(candidates, &order);
    let skewed = driving_states_skewed(candidates, &order);
    let share = ((n as u128 * 15 + 99) / 100) as usize;
    let validation_count: usize = if share < 1 {
        1
    } else {
        share
    };
    let evaluation_count: usize = if share < 3 {
        3
    } else {
        share
    };
    let mut waiting: Vec<String> = Vec::new();
    assert(texts(waiting@) =~= Seq::<Seq<char>>::empty());
    push_when(&mut waiting, n < MIN_TRAINING_SESSIONS, "fewer_than_10_valid_sessions");
    push_when(&mut waiting, total < MIN_TRAINING_SECONDS as u128, "less_than_3_hours");
    push_when(&mut waiting, skewed, "driving_state_extremely_skewed");
    let too_small = n >= MIN_TRAINING_SESSIONS && n as u128 <= evaluation_count as u128 + 2
        * validation_count as u128;
    push_when(&mut waiting, too_small, "insufficient_leak_free_split");
    assert(texts(waiting@) =~= waiting_reasons(candidates@, ord));
    if waiting.len() > 0 {
        return (TrainingReadiness::Waiting(waiting), decisions);
    }
    let train_end = n - evaluation_count - 2 * validation_count;
    let validation_end = train_end + validation_count;
    let calibration_end = validation_end + validation_count;
    let split = SessionSplit {
        training: ids_between(candidates, &order, 0, train_end),
        validation: ids_between(candidates, &order, train_end, validation_end),
        calibration: ids_between(candidates, &order, validation_end, calibration_end),
        evaluation: ids_between(candidates, &order, calibration_end, n),
    };
    assert(split_of(candidates@, ord, split));
    (TrainingReadiness::Ready(split), decisions)
}

/// The session ids of `order[from..to]`.
fn ids_between(cs: &[TrainingSessionCandidate], order: &Vec<usize>, from: usize, to: usize) -> (v:
    Vec<i64>)
    requires
        from <= to <= order@.len(),
        forall|k: int| 0 <= k < order@.len() ==> #[trigger] order@[k] < cs@.len(),
    ensures
        v@ == ids_of(cs@, order@.map_values(|x: usize| x as int), from as int, to as int),
{
    let ghost ord = order@.map_values(|x: usize| x as int);
    let mut v: Vec<i64> = Vec::new();
    let mut k = from;
    while k < to
        invariant
            from <= k <= to <= order@.len(),
            ord == order@.map_values(|x: usize| x as int),
            forall|m: int| 0 <= m < order@.len() ==> #[trigger] order@[m] < cs@.len(),
            v@ == ids_of(cs@, ord, from as int, k as int),
        decreases to - k,
    {
        v.push(cs[order[k]].session_id);
        assert(v@ =~= ids_of(cs@, ord, from as int, k + 1));
        k = k + 1;
    }
    v
}

/// Whole seconds of driving in the listed sessions.
fn accepted_seconds(cs: &[TrainingSessionCandidate], order: &Vec<usize>) -> (t: u128)
    requires
        forall|k: int| 0 <= k < order@.len() ==> #[trigger] order@[k] < cs@.len(),
    ensures
        t == total_seconds(cs@, order@.map_values(|x: usize| x as int)),
{
    let ghost ord = order@.map_values(|x: usize| x as int);
    let mut total: u128 = 0;
    let mut k: usize = 0;
    while k < order.len()
        invariant
            k <= order@.len(),
            ord == order@.map_values(|x: usize| x as int),
            forall|m: int| 0 <= m < order@.len() ==> #[trigger] order@[m] < cs@.len(),
            total == total_seconds(cs@, ord.take(k as int)),
            total <= k * 20_000_000_000_000,
        decreases order.len() - k,
    {
        let c = &cs[order[k]];
        let span = c.ended_at.nanos_since(&c.started_at);
        let _ = c.started_at.bounded();
        let _ = c.ended_at.bounded();
        let secs: u128 = if span > 0 {
            (span / 1_000_000_000i128) as u128
        } else {
            0
        };
        assert(ord.take(k + 1).drop_last() =~= ord.take(k as int));
        total = total + secs;
        k = k + 1;
    }
    assert(ord.take(order@.len() as int) =~= ord);
    total
}

/// Whether the listed sessions are too uniform in driving state.
fn driving_states_skewed(cs: &[TrainingSessionCandidate], order: &Vec<usize>) -> (b: bool)
    requires
        forall|k: int| 0 <= k < order@.len() ==> #[trigger] order@[k] < cs@.len(),
    ensures
        b == states_skewed(cs@, order@.map_values(|x: usize| x as int)),
{
    let ghost ord = order@.map_values(|x: usize| x as int);
    let n = order.len();
    if n == 0 {
        return true;
    }
    let first = cs[order[0]].driving_state.as_str();
    let mut all_same = true;
    let mut some_dominant = false;
    let mut k: usize = 0;
    while k < n
        invariant
            n == order@.len() > 0,
            k <= n,
            ord == order@.map_values(|x: usize| x as int),
            forall|m: int| 0 <= m < order@.len() ==> #[trigger] order@[m] < cs@.len(),
            first@ == cs@[ord[0]].driving_state@,
            all_same == forall|a: int| 0 <= a < k ==> cs@[#[trigger] ord[a]].driving_state@
                == first@,
            some_dominant == exists|a: int|
                0 <= a < k && 10 * state_count(cs@, ord, cs@[#[trigger] ord[a]].driving_state@)
                    > 9 * n,
        decreases n - k,
    {
        let state = cs[order[k]].driving_state.as_str();
        let ghost same_before = all_same;
        let ghost dominant_before = some_dominant;
        assert(state@ == cs@[ord[k as int]].driving_state@);
        if !str_eq(state, first) {
            all_same = false;
        }
        let count = count_state(cs, order, state);
        if count as u128 * 10 > n as u128 * 9 {
            some_dominant = true;
        }
        proof {
            if same_before && state@ == first@ {
                assert forall|a: int| 0 <= a < k + 1 implies cs@[#[trigger] ord[a]].driving_state@
                    == first@ by {}
            }
            if !(state@ == first@) {
                assert(!(cs@[ord[k as int]].driving_state@ == first@));
            }
            if count as u128 * 10 > n as u128 * 9 {
                assert(0 <= k < k + 1 && 10 * state_count(
                    cs@,
                    ord,
                    cs@[ord[k as int]].driving_state@,
                ) > 9 * n);
            }
            if dominant_before {
                let a = choose|a: int|
                    0 <= a < k && 10 * state_count(cs@, ord, cs@[#[trigger] ord[a]].driving_state@)
                        > 9 * n;
                assert(0 <= a < k + 1);
            }
            if !dominant_before && !(count as u128 * 10 > n as u128 * 9) {
                assert forall|a: int| 0 <= a < k + 1 implies !(10 * state_count(
                    cs@,
                    ord,
                    cs@[#[trigger] ord[a]].driving_state@,
                ) > 9 * n) by {
                    if a == k {
                    }
                }
            }
        }
        k = k + 1;
    }
    proof {
        if all_same {
            assert forall|a: int, b: int|
                0 <= a < ord.len() && 0 <= b < ord.len() implies cs@[ord[a]].driving_state@
                == cs@[ord[b]].driving_state@ by {}
        } else {
            let a = choose|a: int| 0 <= a < n && cs@[ord[a]].driving_state@ != first@;
            assert(!(cs@[ord[a]].driving_state@ == cs@[ord[0]].driving_state@));
        }
    }
    all_same || some_dominant
}

/// How many listed sessions were driven in `state`.
fn count_state(cs: &[TrainingSessionCandidate], order: &Vec<usize>, state: &str) -> (c: usize)
    requires
        forall|k: int| 0 <= k < order@.len() ==> #[trigger] order@[k] < cs@.len(),
    ensures
        c == state_count(cs@, order@.map_values(|x: usize| x as int), state@),
        c <= order@.len(),
{
    let ghost ord = order@.map_values(|x: usize| x as int);
    let mut c: usize = 0;
    let mut k: usize = 0;
    while k < order.len()
        invariant
            k <= order@.len(),
            ord == order@.map_values(|x: usize| x as int),
            forall|m: int| 0 <= m < order@.len() ==> #[trigger] order@[m] < cs@.len(),
            c == state_count(cs@, ord.take(k as int), state@),
            c <= k,
        decreases order.len() - k,
    {
        assert(ord.take(k + 1).drop_last() =~= ord.take(k as int));
        if str_eq(cs[order[k]].driving_state.as_str(), state) {
            c = c + 1;
        }
        k = k + 1;
    }
    assert(ord.take(order@.len() as int) =~= ord);
    c
}

proof fn lemma_decision_map_has(cs: Seq<TrainingSessionCandidate>, now: Timestamp, i: int)
    requires
        0 <= i < cs.len(),
    ensures
        decision_map(cs, now).contains_key(cs[i].session_id),
    decreases cs.len(),
{
    if i < cs.len() - 1 {
        lemma_decision_map_has(cs.drop_last(), now, i);
        assert(cs.drop_last()[i] == cs[i]);
    }
}

/// A ready split uses every accepted session exactly once and in
/// chronological order: training, then validation, calibration and
/// evaluation, none of them empty and evaluation holding at least three.
pub proof fn law_split_is_chronological(
    cs: Seq<TrainingSessionCandidate>,
    now: Timestamp,
    order: Seq<int>,
    s: SessionSplit,
)
    requires
        accepted_in_order(cs, now, order),
        split_of(cs, order, s),
        waiting_reasons(cs, order).len() == 0,
    ensures
        s.training@ + s.validation@ + s.calibration@ + s.evaluation@ == ids_of(
            cs,
            order,
            0,
            order.len() as int,
        ),
        s.training@.len() >= 1,
        s.validation@.len() >= 1,
        s.calibration@.len() >= 1,
        s.evaluation@.len() >= 3,
{
    let n = order.len();
    let v = holdout_count(n);
    let e = evaluation_count(n);
    if n < MIN_TRAINING_SESSIONS {
        assert(waiting_reasons(cs, order).len() > 0);
    }
    if n <= e + 2 * v {
        assert(waiting_reasons(cs, order).len() > 0);
    }
    let t = n - e - 2 * v;
    assert(ids_of(cs, order, 0, n as int) =~= ids_of(cs, order, 0, t) + ids_of(cs, order, t, t + v)
        + ids_of(cs, order, t + v, t + 2 * v) + ids_of(cs, order, t + 2 * v, n as int));
}

proof fn lemma_state_count_is_filtered_len(
    cs: Seq<TrainingSessionCandidate>,
    order: Seq<int>,
    state: Seq<char>,
)
    ensures
        state_count(cs, order, state) == order.filter(|i: int| cs[i].driving_state@ == state).len(),
        state_count(cs, order, state) > 0 ==> exists|k: int|
            0 <= k < order.len() && cs[#[trigger] order[k]].driving_state@ == state,
    decreases order.len(),
{
    reveal(Seq::filter);
    if order.len() > 0 {
        let pre = order.drop_last();
        lemma_state_count_is_filtered_len(cs, pre, state);
        if state_count(cs, pre, state) > 0 {
            let k = choose|k: int| 0 <= k < pre.len() && cs[#[trigger] pre[k]].driving_state@ == state;
            assert(order[k] == pre[k]);
        }
        if cs[order.last()].driving_state@ == state {
            assert(order[order.len() - 1] == order.last());
        }
    }
}

/// A driving state shared by more than 90 percent of the accepted sessions
/// keeps training waiting: the reasons to wait then include
/// `driving_state_extremely_skewed`, so no split is made.
pub proof fn law_dominant_driving_state_blocks_training(
    cs: Seq<TrainingSessionCandidate>,
    now: Timestamp,
    order: Seq<int>,
    state: Seq<char>,
)
    requires
        accepted_in_order(cs, now, order),
        10 * order.filter(|i: int| cs[i].driving_state@ == state).len() > 9 * order.len(),
    ensures
        waiting_reasons(cs, order).contains("driving_state_extremely_skewed"@),
        waiting_reasons(cs, order).len() > 0,
{
    lemma_state_count_is_filtered_len(cs, order, state);
    let k = choose|k: int| 0 <= k < order.len() && cs[#[trigger] order[k]].driving_state@ == state;
    assert(states_skewed(cs, order));
    let n = order.len();
    let before = when(n < MIN_TRAINING_SESSIONS, "fewer_than_10_valid_sessions"@) + when(
        total_seconds(cs, order) < MIN_TRAINING_SECONDS,
        "less_than_3_hours"@,
    );
    assert(waiting_reasons(cs, order)[before.len() as int] == "driving_state_extremely_skewed"@);
}

/// Retraining needs five new normal sessions and a week since the last run.
pub fn retraining_due(new_normal_sessions: usize, last_trained_at: Option<Timestamp>, now: Timestamp) -> (b: bool)
    ensures
        b == (new_normal_sessions >= 5 && match last_trained_at {
            None => true,
            Some(last) => now@ - last@ >= TRAINING_HOLD_DAYS * NANOS_PER_DAY,
        }),
{
    new_normal_sessions >= 5 && match last_trained_at {
        None => true,
        Some(last) => now.nanos_since(&last) >= TRAINING_HOLD_DAYS * NANOS_PER_DAY,
    }
}

} // verus!
