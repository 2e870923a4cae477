//! Vocabulary of the health scoring and the inference of driving sessions
//! from the times at which samples were recorded.

use vstd::prelude::*;
use crate::time::{Duration, Timestamp};

verus! {

pub const ALGORITHM_VERSION: &'static str = "health-relative-v1";

pub const FEATURE_SCHEMA_VERSION: &'static str = "normalized-signals-v1";

#[derive(Debug, Clone, Copy, PartialEq, Eq, Hash, Structural)]
pub enum SignalKey {
    Rpm,
    VehicleSpeed,
    CoolantTemperature,
    IntakeTemperature,
    OilTemperature,
    CatalystTemperature,
    EngineLoad,
    ThrottlePosition,
    AcceleratorPosition,
    ShortTermFuelTrim,
    LongTermFuelTrim,
    MassAirFlow,
    ManifoldPressure,
    IgnitionTiming,
    ModuleVoltage,
    EngineRunTime,
}

impl SignalKey {
    pub open spec fn name(self) -> Seq<char> {
        match self {
            SignalKey::Rpm => "rpm"@,
            SignalKey::VehicleSpeed => "vehicle_speed"@,
            SignalKey::CoolantTemperature => "coolant_temperature"@,
            SignalKey::IntakeTemperature => "intake_temperature"@,
            SignalKey::OilTemperature => "oil_temperature"@,
            SignalKey::CatalystTemperature => "catalyst_temperature"@,
            SignalKey::EngineLoad => "engine_load"@,
            SignalKey::ThrottlePosition => "throttle_position"@,
            SignalKey::AcceleratorPosition => "accelerator_position"@,
            SignalKey::ShortTermFuelTrim => "short_term_fuel_trim"@,
            SignalKey::LongTermFuelTrim => "long_term_fuel_trim"@,
            SignalKey::MassAirFlow => "mass_air_flow"@,
            SignalKey::ManifoldPressure => "manifold_pressure"@,
            SignalKey::IgnitionTiming => "ignition_timing"@,
            SignalKey::ModuleVoltage => "module_voltage"@,
            SignalKey::EngineRunTime => "engine_run_time"@,
        }
    }

    pub fn as_str(self) -> (s: &'static str)
        ensures
            s@ == self.name(),
    {
        match self {
            SignalKey::Rpm => "rpm",
            SignalKey::VehicleSpeed => "vehicle_speed",
            SignalKey::CoolantTemperature => "coolant_temperature",
            SignalKey::IntakeTemperature => "intake_temperature",
            SignalKey::OilTemperature => "oil_temperature",
            SignalKey::CatalystTemperature => "catalyst_temperature",
            SignalKey::EngineLoad => "engine_load",
            SignalKey::ThrottlePosition => "throttle_position",
            SignalKey::AcceleratorPosition => "accelerator_position",
            SignalKey::ShortTermFuelTrim => "short_term_fuel_trim",
            SignalKey::LongTermFuelTrim => "long_term_fuel_trim",
            SignalKey::MassAirFlow => "mass_air_flow",
            SignalKey::ManifoldPressure => "manifold_pressure",
            SignalKey::IgnitionTiming => "ignition_timing",
            SignalKey::ModuleVoltage => "module_voltage",
            SignalKey::EngineRunTime => "engine_run_time",
        }
    }
}

#[derive(Debug, Clone, Copy, PartialEq, Eq, Hash, Structural)]
pub enum DrivingState {
    Cold,
    Warming,
    WarmIdle,
    Cruise,
    AccelerationHighLoad,
    Unknown,
}

#[derive(Debug, Clone, Copy, PartialEq, Eq, Hash, Structural)]
pub enum ScoreDomain {
    Thermal,
    Electrical,
    AirFuel,
    RunningStability,
}

impl ScoreDomain {
    pub open spec fn name(self) -> Seq<char> {
        match self {
            ScoreDomain::Thermal => "thermal"@,
            ScoreDomain::Electrical => "electrical"@,
            ScoreDomain::AirFuel => "air_fuel"@,
            ScoreDomain::RunningStability => "running_stability"@,
        }
    }

    pub fn as_str(self) -> (s: &'static str)
        ensures
            s@ == self.name(),
    {
        match self {
            ScoreDomain::Thermal => "thermal",
            ScoreDomain::Electrical => "electrical",
            ScoreDomain::AirFuel => "air_fuel",
            ScoreDomain::RunningStability => "running_stability",
        }
    }
}

#[derive(Debug, Clone, Copy, PartialEq, Eq, Structural)]
pub enum LearningState {
    Ready,
    Learning,
    InsufficientData,
}

/// When a quiet adapter counts as disconnected, and how long a gap between
/// samples may be while still belonging to one session.
#[derive(Debug, Clone, Copy, PartialEq, Eq, Structural)]
pub struct SessionConfig {
    pub disconnect_after: Duration,
    pub reconnect_within: Duration,
}

impl Default for SessionConfig {
    /// Disconnected after 30 s; a reconnect within 300 s continues the session.
    fn default() -> (c: SessionConfig)
        ensures
            c.disconnect_after@ == 30 * 1_000_000_000,
            c.reconnect_within@ == 300 * 1_000_000_000,
    {
        SessionConfig {
            disconnect_after: Duration::from_secs(30),
            reconnect_within: Duration::from_secs(300),
        }
    }
}

/// A stretch of samples without a long gap.
#[derive(Debug, Clone, Copy, PartialEq, Eq, Structural)]
pub struct DrivingSession {
    pub started_at: Timestamp,
    pub ended_at: Timestamp,
    pub sample_count: u64,
    pub complete: bool,
}

/// A session as start, end and number of samples.
pub type Run = (int, int, nat);

/// Sessions closed so far and the open one, after the sorted times `t`
/// (non-empty); a gap longer than `within` closes the open session.
pub open spec fn session_fold(t: Seq<i128>, within: int) -> (Seq<Run>, Run)
    decreases t.len(),
{
    if t.len() <= 1 {
        (Seq::empty(), (t[0] as int, t[0] as int, 1))
    } else {
        let (closed, open) = session_fold(t.drop_last(), within);
        let x = t.last() as int;
        if x - open.1 > within {
            (closed.push(open), (x, x, 1))
        } else {
            (closed, (open.0, x, open.2 + 1))
        }
    }
}

pub open spec fn is_sorted(t: Seq<i128>) -> bool {
    forall|a: int, b: int| 0 <= a <= b < t.len() ==> t[a] <= t[b]
}

pub open spec fn session_matches(s: DrivingSession, r: Run, complete: bool) -> bool {
    s.started_at@ == r.0 && s.ended_at@ == r.1 && s.sample_count == r.2 && s.complete == complete
}

/// The open session is complete only when the repair time lies more than
/// `after` nanoseconds past its last sample.
pub open spec fn open_complete(last: int, repair_at: Option<Timestamp>, after: int) -> bool {
    repair_at matches Some(now) && now@ - last > after
}

/// The times of the samples, in nanoseconds.
pub open spec fn time_values(times: Seq<Timestamp>) -> Seq<i128> {
    times.map_values(|x: Timestamp| x@ as i128)
}

/// `out` are the sessions of the sorted times `t`.
pub open spec fn sessions_of(
    t: Seq<i128>,
    config: SessionConfig,
    repair_at: Option<Timestamp>,
    out: Seq<DrivingSession>,
) -> bool {
    let (closed, open) = session_fold(t, config.reconnect_within@ as int);
    &&& out.len() == closed.len() + 1
    &&& forall|i: int| 0 <= i < closed.len() ==> session_matches(#[trigger] out[i], closed[i], true)
    &&& session_matches(
        out[closed.len() as int],
        open,
        open_complete(open.1, repair_at, config.disconnect_after@ as int),
    )
}

/// Total number of samples of the runs.
pub open spec fn run_samples(rs: Seq<Run>) -> nat
    decreases rs.len(),
{
    if rs.len() == 0 {
        0
    } else {
        run_samples(rs.drop_last()) + rs.last().2
    }
}

/// Every sample belongs to exactly one session: the counts add up.
pub proof fn law_sessions_keep_every_sample(t: Seq<i128>, within: int)
    requires
        t.len() > 0,
    ensures
        run_samples(session_fold(t, within).0) + session_fold(t, within).1.2 == t.len(),
    decreases t.len(),
{
    if t.len() > 1 {
        law_sessions_keep_every_sample(t.drop_last(), within);
        let (closed, open) = session_fold(t.drop_last(), within);
        assert(closed.push(open).drop_last() =~= closed);
    }
}

/// Sessions of sorted samples follow one another, each starting more than
/// `within` after the previous one ended, and none ends before it starts.
pub proof fn law_sessions_are_separated(t: Seq<i128>, within: int)
    requires
        t.len() > 0,
        is_sorted(t),
        within >= 0,
    ensures
        ({
            let (closed, open) = session_fold(t, within);
            let all = closed.push(open);
            &&& open.1 == t.last()
            &&& forall|i: int| 0 <= i < all.len() ==> (#[trigger] all[i]).0 <= all[i].1
            &&& forall|i: int|
                0 <= i < all.len() - 1 ==> #[trigger] all[i + 1].0 - all[i].1 > within
        }),
    decreases t.len(),
{
    if t.len() > 1 {
        let u = t.drop_last();
        assert(is_sorted(u));
        law_sessions_are_separated(u, within);
        let (closed, open) = session_fold(u, within);
        let x = t.last() as int;
        assert(u.last() == t[t.len() - 2]);
        assert(t[t.len() - 2] <= t[t.len() - 1]);
        let all = closed.push(open);
        let (closed2, open2) = session_fold(t, within);
        let all2 = closed2.push(open2);
        if x - open.1 > within {
            assert(closed2 == all);
            assert forall|i: int| 0 <= i < all2.len() implies (#[trigger] all2[i]).0 <= all2[i].1 by {
                if i < all.len() {
                    assert(all2[i] == all[i]);
                }
            }
            assert forall|i: int| 0 <= i < all2.len() - 1 implies #[trigger] all2[i + 1].0
                - all2[i].1 > within by {
                if i < all.len() - 1 {
                    assert(all2[i] == all[i] && all2[i + 1] == all[i + 1]);
                }
            }
        } else {
            assert(closed2 == closed);
            assert forall|i: int| 0 <= i < all2.len() implies (#[trigger] all2[i]).0 <= all2[i].1 by {
                if i < closed.len() {
                    assert(all2[i] == all[i]);
                } else {
                    assert(all[i] == open);
                }
            }
            assert forall|i: int| 0 <= i < all2.len() - 1 implies #[trigger] all2[i + 1].0
                - all2[i].1 > within by {
                assert(all2[i] == all[i]);
                if i + 1 < closed.len() {
                    assert(all2[i + 1] == all[i + 1]);
                } else {
                    assert(all2[i + 1].0 == all[i + 1].0);
                }
            }
        }
    }
}

/// Inserting `x` into a sorted sequence at the first position whose value
/// exceeds it keeps the sequence sorted.
proof fn lemma_insert_sorted(s: Seq<i128>, p: int, x: i128)
    requires
        is_sorted(s),
        0 <= p <= s.len(),
        forall|j: int| 0 <= j < p ==> s[j] <= x,
        p < s.len() ==> x < s[p],
    ensures
        is_sorted(s.insert(p, x)),
{
    let t = s.insert(p, x);
    assert forall|a: int, b: int| 0 <= a <= b < t.len() implies t[a] <= t[b] by {
        if a < p {
            if b < p {
                assert(s[a] <= s[b]);
            } else if b > p {
                assert(s[a] <= s[b - 1]);
            }
        } else if a == p {
            if b > p {
                assert(s[p] <= s[b - 1]);
            }
        } else {
            assert(s[a - 1] <= s[b - 1]);
        }
    }
}

/// Sorts times in increasing order, by insertion.
fn sort_times(v: &mut Vec<i128>)
    ensures
        final(v)@.to_multiset() == old(v)@.to_multiset(),
        is_sorted(final(v)@),
{
    let mut out: Vec<i128> = Vec::new();
    let mut k: usize = 0;
    proof {
        broadcast use vstd::seq_lib::group_to_multiset_ensures;

        assert(v@.take(0) =~= out@);
    }
    while k < v.len()
        invariant
            k <= v@.len(),
            out@.to_multiset() == v@.take(k as int).to_multiset(),
            is_sorted(out@),
        decreases v.len() - k,
    {
        let x = v[k];
        let mut p: usize = 0;
        while p < out.len() && out[p] <= x
            invariant
                p <= out@.len(),
                forall|j: int| 0 <= j < p ==> out@[j] <= x,
            decreases out.len() - p,
        {
            p = p + 1;
        }
        let ghost before = out@;
        out.insert(p, x);
        proof {
            broadcast use vstd::seq_lib::group_to_multiset_ensures;

            lemma_insert_sorted(before, p as int, x);
            assert(v@.take(k + 1) =~= v@.take(k as int).push(x));
        }
        k = k + 1;
    }
    assert(v@.take(v@.len() as int) =~= v@);
    *v = out;
}

/// Splits samples, given by their times in any order, into driving
/// sessions.  Samples further apart than `reconnect_within` belong to
/// different sessions; every session but the last is complete, and the last
/// is complete only if `repair_at` lies more than `disconnect_after` after
/// its final sample.
pub fn infer_sessions(
    times: &[Timestamp],
    config: SessionConfig,
    repair_at: Option<Timestamp>,
) -> (out: Vec<DrivingSession>)
    ensures
        times@.len() == 0 ==> out@.len() == 0,
        times@.len() > 0 ==> exists|t: Seq<i128>|
            is_sorted(t) && t.to_multiset() == time_values(times@).to_multiset() && sessions_of(
                t,
                config,
                repair_at,
                out@,
            ),
{
    let mut out: Vec<DrivingSession> = Vec::new();
    if times.len() == 0 {
        return out;
    }
    let mut sorted: Vec<i128> = Vec::new();
    let mut k: usize = 0;
    while k < times.len()
        invariant
            k <= times@.len(),
            sorted@ == time_values(times@.take(k as int)),
            forall|m: int|
                0 <= m < sorted@.len() ==> crate::time::timestamp_in_range(
                    #[trigger] sorted@[m] as int,
                ),
        decreases times.len() - k,
    {
        let n = times[k].bounded();
        sorted.push(n);
        assert(sorted@ =~= time_values(times@.take(k + 1)));
        k = k + 1;
    }
    let ghost unsorted = sorted@;
    assert(times@.take(times@.len() as int) =~= times@);
    sort_times(&mut sorted);
    proof {
        broadcast use vstd::seq_lib::group_to_multiset_ensures;

        assert forall|m: int| 0 <= m < sorted@.len() implies crate::time::timestamp_in_range(
            #[trigger] sorted@[m] as int,
        ) by {
            assert(sorted@.contains(sorted@[m]));
            assert(sorted@.to_multiset().count(sorted@[m]) > 0);
            assert(unsorted.to_multiset().count(sorted@[m]) > 0);
            assert(unsorted.contains(sorted@[m]));
        }
        assert(sorted@.len() == sorted@.to_multiset().len());
        assert(unsorted.len() == unsorted.to_multiset().len());
    }
    let ghost t = sorted@;
    let within = config.reconnect_within.as_nanos();
    let n = sorted.len();
    let mut start: i128 = sorted[0];
    let mut last: i128 = sorted[0];
    let mut count: u64 = 1;
    let mut idx: usize = 1;
    assert(t.take(1).len() == 1);
    while idx < n
        invariant
            1 <= idx <= n == t.len(),
            t == sorted@,
            is_sorted(t),
            within == config.reconnect_within@,
            forall|m: int|
                0 <= m < sorted@.len() ==> crate::time::timestamp_in_range(
                    #[trigger] sorted@[m] as int,
                ),
            crate::time::timestamp_in_range(start as int),
            crate::time::timestamp_in_range(last as int),
            last == t[idx - 1],
            count <= idx,
            ({
                let (closed, open) = session_fold(t.take(idx as int), within as int);
                &&& open == (start as int, last as int, count as nat)
                &&& out@.len() == closed.len()
                &&& forall|i: int|
                    0 <= i < closed.len() ==> session_matches(#[trigger] out@[i], closed[i], true)
            }),
        decreases n - idx,
    {
        let x = sorted[idx];
        assert(t.take(idx + 1).drop_last() =~= t.take(idx as int));
        let gap = x - last;
        if gap > 0 && gap as u128 > within {
            out.push(
                DrivingSession {
                    started_at: Timestamp::from_nanos_in_range(start),
                    ended_at: Timestamp::from_nanos_in_range(last),
                    sample_count: count,
                    complete: true,
                },
            );
            start = x;
            count = 1;
        } else {
            count = count + 1;
        }
        last = x;
        idx = idx + 1;
    }
    assert(t.take(n as int) =~= t);
    let complete = match repair_at {
        Some(now) => {
            let last_at = Timestamp::from_nanos_in_range(last);
            let d = now.nanos_since(&last_at);
            d > 0 && d as u128 > config.disconnect_after.as_nanos()
        },
        None => false,
    };
    out.push(
        DrivingSession {
            started_at: Timestamp::from_nanos_in_range(start),
            ended_at: Timestamp::from_nanos_in_range(last),
            sample_count: count,
            complete,
        },
    );
    proof {
        broadcast use vstd::seq_lib::group_to_multiset_ensures;

        assert(t.to_multiset() == time_values(times@).to_multiset());
        assert(sessions_of(t, config, repair_at, out@));
    }
    out
}

/// Where the backfill of stored PID frames stands: the last frame read,
/// how many frames the current pass covers and has read, and whether the
/// pass is finished.
#[derive(Debug, Clone, Copy, PartialEq, Eq, Structural)]
pub struct BackfillState {
    pub last_sequence_id: i64,
    pub total_rows: u64,
    pub processed_rows: u64,
    pub completed: bool,
}

impl BackfillState {
    /// The state before any backfill: nothing read, the last pass finished.
    pub fn initial() -> (s: BackfillState)
        ensures
            s == (BackfillState { last_sequence_id: 0, total_rows: 0, processed_rows: 0, completed: true }),
    {
        BackfillState { last_sequence_id: 0, total_rows: 0, processed_rows: 0, completed: true }
    }

    /// Only a new pass counts the frames still to read; a pass under way
    /// keeps its total.
    pub fn needs_count(&self) -> (b: bool)
        ensures
            b == self.completed,
    {
        self.completed
    }

    /// The state after reading one chunk of at most `chunk_size` frames
    /// after `last_sequence_id`: `pending` is the count of frames after it
    /// when a new pass starts, `chunk_last` the id of the last frame read,
    /// and `read` how many were read.  The pass is finished by a chunk
    /// that is not full.
    pub fn after_chunk(&self, pending: u64, chunk_last: Option<i64>, read: usize, chunk_size: usize) -> (s: BackfillState)
        requires
            chunk_size > 0,
        ensures
            ({
                let total = if self.completed {
                    if self.processed_rows + pending > u64::MAX { u64::MAX as int } else { self.processed_rows + pending }
                } else {
                    self.total_rows as int
                };
                let processed = if self.processed_rows + read > u64::MAX {
                    u64::MAX as int
                } else {
                    self.processed_rows + read
                };
                &&& s.last_sequence_id == match chunk_last {
                    Some(id) => id,
                    None => self.last_sequence_id,
                }
                &&& s.processed_rows == processed
                &&& s.total_rows == if total >= processed { total } else { processed }
                &&& s.completed == (read < chunk_size)
            }),
    {
        let total = if self.completed {
            self.processed_rows.saturating_add(pending)
        } else {
            self.total_rows
        };
        let processed = self.processed_rows.saturating_add(read as u64);
        BackfillState {
            last_sequence_id: match chunk_last {
                Some(id) => id,
                None => self.last_sequence_id,
            },
            total_rows: if total >= processed { total } else { processed },
            processed_rows: processed,
            completed: read < chunk_size,
        }
    }
}

} // verus!
