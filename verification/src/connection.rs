//! Connection life cycle: reconnect timing, connection states, VIN
//! normalisation and the choice of vehicle after identification.

use vstd::prelude::*;
use crate::domain::VehicleId;
use crate::text::{
    chars_of, is_unicode_whitespace, push_str, str_eq, string_from_chars, trim, trim_chars,
    trim_end, trim_start, upper_all, upper_chars,
};
use crate::time::{Duration, MAX_DURATION_NANOS};

verus! {

pub const DEFAULT_CONNECT_TIMEOUT_SECS: u64 = 10;

pub const RECONNECT_INTERVAL_SECS: u64 = 5;

pub const MAX_RECONNECT_ATTEMPTS: u8 = 3;

/// How long a connection attempt may take and how reconnection is paced.
#[derive(Debug, Clone, Copy, PartialEq, Eq, Structural)]
pub struct ReconnectPolicy {
    pub connect_timeout: Duration,
    pub retry_interval: Duration,
    pub max_attempts: u8,
}

impl Default for ReconnectPolicy {
    /// Ten seconds to connect, retries every five seconds, three retries.
    fn default() -> (p: ReconnectPolicy)
        ensures
            p.connect_timeout@ == DEFAULT_CONNECT_TIMEOUT_SECS * 1_000_000_000,
            p.retry_interval@ == RECONNECT_INTERVAL_SECS * 1_000_000_000,
            p.max_attempts == MAX_RECONNECT_ATTEMPTS,
    {
        ReconnectPolicy {
            connect_timeout: Duration::from_secs(DEFAULT_CONNECT_TIMEOUT_SECS),
            retry_interval: Duration::from_secs(RECONNECT_INTERVAL_SECS),
            max_attempts: MAX_RECONNECT_ATTEMPTS,
        }
    }
}

/// Abstract state of a `ReconnectController`; times are in nanoseconds.
pub struct ReconnectView {
    pub policy: ReconnectPolicy,
    pub attempt: nat,
    pub next_attempt_at: Option<nat>,
    pub cancelled: bool,
}

/// State after a link loss at `now`: the count restarts and the first retry
/// is due one interval later.
pub open spec fn disconnect_step(s: ReconnectView, now: nat) -> ReconnectView {
    ReconnectView {
        attempt: 0,
        cancelled: false,
        next_attempt_at: Some(now + s.policy.retry_interval@),
        ..s
    }
}

pub open spec fn cancel_step(s: ReconnectView) -> ReconnectView {
    ReconnectView { cancelled: true, next_attempt_at: None, ..s }
}

/// A retry is due: not cancelled, attempts left, and its time has come.
pub open spec fn retry_due(s: ReconnectView, now: nat) -> bool {
    &&& !s.cancelled
    &&& s.attempt < s.policy.max_attempts
    &&& s.next_attempt_at matches Some(at) && at <= now
}

/// State after polling at `now`, and the number of the attempt to make.
pub open spec fn poll_step(s: ReconnectView, now: nat) -> (ReconnectView, Option<nat>) {
    if retry_due(s, now) {
        let attempt = s.attempt + 1;
        (
            ReconnectView {
                attempt,
                next_attempt_at: if attempt < s.policy.max_attempts {
                    Some(now + s.policy.retry_interval@)
                } else {
                    None
                },
                ..s
            },
            Some(attempt),
        )
    } else {
        (s, None)
    }
}

/// Every attempt was used up without the user cancelling.
pub open spec fn is_exhausted(s: ReconnectView) -> bool {
    !s.cancelled && s.attempt >= s.policy.max_attempts
}

/// Time arithmetic in `poll_step` stays within the range of durations.
pub open spec fn poll_in_range(s: ReconnectView, now: nat) -> bool {
    retry_due(s, now) && s.attempt + 1 < s.policy.max_attempts ==> now + s.policy.retry_interval@
        <= MAX_DURATION_NANOS
}

/// Paces reconnection attempts after the link to the vehicle is lost.
#[derive(Debug)]
pub struct ReconnectController {
    policy: ReconnectPolicy,
    attempt: u8,
    next_attempt_at: Option<Duration>,
    cancelled: bool,
}

impl View for ReconnectController {
    type V = ReconnectView;

    closed spec fn view(&self) -> ReconnectView {
        ReconnectView {
            policy: self.policy,
            attempt: self.attempt as nat,
            next_attempt_at: match self.next_attempt_at {
                Some(d) => Some(d@),
                None => None,
            },
            cancelled: self.cancelled,
        }
    }
}

impl Clone for ReconnectController {
    fn clone(&self) -> (c: Self)
        ensures
            c@ == self@,
    {
        proof {
            use_type_invariant(self);
        }
        ReconnectController {
            policy: self.policy,
            attempt: self.attempt,
            next_attempt_at: self.next_attempt_at,
            cancelled: self.cancelled,
        }
    }
}

impl ReconnectController {
    #[verifier::type_invariant]
    closed spec fn attempts_within_policy(self) -> bool {
        self.attempt <= self.policy.max_attempts
    }

    pub fn new(policy: ReconnectPolicy) -> (c: ReconnectController)
        ensures
            c@ == (ReconnectView { policy, attempt: 0, next_attempt_at: None, cancelled: false }),
    {
        ReconnectController { policy, attempt: 0, next_attempt_at: None, cancelled: false }
    }

    /// Starts the retry schedule after the link was lost at `now`.
    pub fn on_disconnected(&mut self, now: Duration)
        requires
            now@ + old(self)@.policy.retry_interval@ <= MAX_DURATION_NANOS,
        ensures
            final(self)@ == disconnect_step(old(self)@, now@),
    {
        self.attempt = 0;
        self.cancelled = false;
        self.next_attempt_at = Some(now.add(self.policy.retry_interval));
    }

    /// Stops all further attempts until the next disconnect.
    pub fn cancel(&mut self)
        ensures
            final(self)@ == cancel_step(old(self)@),
    {
        proof {
            use_type_invariant(&*self);
        }
        self.cancelled = true;
        self.next_attempt_at = None;
    }

    /// The number of the attempt to make now, if one is due.
    pub fn poll(&mut self, now: Duration) -> (r: Option<u8>)
        requires
            poll_in_range(old(self)@, now@),
        ensures
            final(self)@ == poll_step(old(self)@, now@).0,
            poll_step(old(self)@, now@).1 == match r {
                Some(a) => Some(a as nat),
                None => None,
            },
            old(self)@.attempt <= old(self)@.policy.max_attempts,
    {
        proof {
            use_type_invariant(&*self);
        }
        let due = match self.next_attempt_at {
            Some(at) => at.le(&now),
            None => false,
        };
        if self.cancelled || self.attempt >= self.policy.max_attempts || !due {
            return None;
        }
        self.attempt = self.attempt + 1;
        self.next_attempt_at = if self.attempt < self.policy.max_attempts {
            Some(now.add(self.policy.retry_interval))
        } else {
            None
        };
        Some(self.attempt)
    }

    pub fn exhausted(&self) -> (b: bool)
        ensures
            b == is_exhausted(self@),
    {
        !self.cancelled && self.attempt >= self.policy.max_attempts
    }

    pub fn timeout(&self) -> (d: Duration)
        ensures
            d == self@.policy.connect_timeout,
    {
        self.policy.connect_timeout
    }
}

/// Polling a cancelled controller does nothing, whenever it happens.
pub proof fn law_cancel_silences(s: ReconnectView, now: nat)
    ensures
        poll_step(cancel_step(s), now) == (cancel_step(s), Option::<nat>::None),
        !is_exhausted(cancel_step(s)),
{
}

/// Attempts are numbered one after another and never pass the limit.
pub proof fn law_attempts_count_up(s: ReconnectView, now: nat)
    requires
        s.attempt <= s.policy.max_attempts,
    ensures
        poll_step(s, now).1 matches Some(a) ==> a == s.attempt + 1 && a <= s.policy.max_attempts,
        poll_step(s, now).0.attempt <= s.policy.max_attempts,
        poll_step(s, now).1 is None ==> poll_step(s, now).0 == s,
{
}

/// Once exhausted, polling yields nothing.
pub proof fn law_exhausted_is_final(s: ReconnectView, now: nat)
    requires
        is_exhausted(s),
    ensures
        poll_step(s, now) == (s, Option::<nat>::None),
{
}

/// After a disconnect at `t0`, nothing is attempted before one interval has
/// passed, and the first attempt is made once it has.
pub proof fn law_first_retry_after_interval(s: ReconnectView, t0: nat, now: nat)
    ensures
        now < t0 + s.policy.retry_interval@ ==> poll_step(disconnect_step(s, t0), now).1 is None,
        now >= t0 + s.policy.retry_interval@ && s.policy.max_attempts > 0 ==> poll_step(
            disconnect_step(s, t0),
            now,
        ).1 == Some(1nat),
{
}

/// Polling at each of `times` in turn: the final state and the retries
/// made, each as its number and the time it was made.
pub open spec fn poll_run(s: ReconnectView, times: Seq<nat>) -> (ReconnectView, Seq<(nat, nat)>)
    decreases times.len(),
{
    if times.len() == 0 {
        (s, Seq::empty())
    } else {
        let (st, retries) = poll_run(s, times.drop_last());
        let (next, r) = poll_step(st, times.last());
        match r {
            Some(a) => (next, retries.push((a, times.last()))),
            None => (next, retries),
        }
    }
}

/// What holds of every run of polls since a disconnect at `t0`.
pub open spec fn run_since_disconnect(s: ReconnectView, t0: nat, st: ReconnectView, retries: Seq<(nat, nat)>) -> bool {
    let interval = s.policy.retry_interval@;
    &&& st.policy == s.policy
    &&& !st.cancelled
    &&& st.attempt == retries.len()
    &&& retries.len() <= s.policy.max_attempts
    &&& forall|j: int| 0 <= j < retries.len() ==> (#[trigger] retries[j]).0 == j + 1
    &&& retries.len() > 0 ==> retries[0].1 >= t0 + interval
    &&& forall|j: int|
        0 <= j < retries.len() - 1 ==> #[trigger] retries[j + 1].1 >= retries[j].1 + interval
    &&& retries.len() == 0 ==> st.next_attempt_at == Some(t0 + interval)
    &&& 0 < retries.len() < s.policy.max_attempts ==> st.next_attempt_at == Some(
        retries.last().1 + interval,
    )
}

proof fn lemma_run_since_disconnect(s: ReconnectView, t0: nat, times: Seq<nat>)
    ensures
        run_since_disconnect(
            s,
            t0,
            poll_run(disconnect_step(s, t0), times).0,
            poll_run(disconnect_step(s, t0), times).1,
        ),
    decreases times.len(),
{
    if times.len() > 0 {
        lemma_run_since_disconnect(s, t0, times.drop_last());
        let (st, retries) = poll_run(disconnect_step(s, t0), times.drop_last());
        let (next, r) = poll_step(st, times.last());
        if let Some(a) = r {
            let rs = retries.push((a, times.last()));
            assert forall|j: int| 0 <= j < rs.len() implies (#[trigger] rs[j]).0 == j + 1 by {
                if j < retries.len() {
                    assert(rs[j] == retries[j]);
                }
            }
            assert forall|j: int| 0 <= j < rs.len() - 1 implies #[trigger] rs[j + 1].1 >= rs[j].1
                + s.policy.retry_interval@ by {
                if j + 1 < retries.len() {
                    assert(rs[j + 1] == retries[j + 1] && rs[j] == retries[j]);
                }
            }
        }
    }
}

/// Since the last disconnect, the retries are numbered 1, 2, … in the order
/// they are made, never more than the policy allows; the first comes at
/// least one interval after the disconnect and each later one at least one
/// interval after the one before, whenever the polls happen.
pub proof fn law_retries_since_disconnect(s: ReconnectView, t0: nat, times: Seq<nat>)
    ensures
        ({
            let retries = poll_run(disconnect_step(s, t0), times).1;
            &&& retries.len() <= s.policy.max_attempts
            &&& forall|j: int| 0 <= j < retries.len() ==> (#[trigger] retries[j]).0 == j + 1
            &&& retries.len() > 0 ==> retries[0].1 >= t0 + s.policy.retry_interval@
            &&& forall|j: int|
                0 <= j < retries.len() - 1 ==> #[trigger] retries[j + 1].1 >= retries[j].1
                    + s.policy.retry_interval@
        }),
{
    lemma_run_since_disconnect(s, t0, times);
}

/// Since the last disconnect, with no cancel, the controller is exhausted
/// exactly when as many retries were made as the policy allows.
pub proof fn law_exhausted_after_all_retries(s: ReconnectView, t0: nat, times: Seq<nat>)
    ensures
        is_exhausted(poll_run(disconnect_step(s, t0), times).0) <==> poll_run(
            disconnect_step(s, t0),
            times,
        ).1.len() >= s.policy.max_attempts,
{
    lemma_run_since_disconnect(s, t0, times);
}

/// Before the first disconnect nothing is retried.
pub proof fn law_no_retry_before_disconnect(policy: ReconnectPolicy, times: Seq<nat>)
    ensures
        ({
            let fresh = ReconnectView { policy, attempt: 0, next_attempt_at: None, cancelled: false };
            poll_run(fresh, times) == (fresh, Seq::<(nat, nat)>::empty())
        }),
    decreases times.len(),
{
    if times.len() > 0 {
        law_no_retry_before_disconnect(policy, times.drop_last());
    }
}

/// Where the user asked to connect.
#[derive(Debug, Clone, PartialEq, Eq)]
pub struct ConnectionTarget {
    pub interface: String,
    pub adapter: String,
    pub safe_settings_json: String,
}

#[derive(Debug, Clone, PartialEq, Eq)]
pub enum ConnectionState {
    Disconnected,
    Connecting { target: ConnectionTarget, automatic: bool },
    LinkEstablished { target: ConnectionTarget },
    Identifying,
    Identified { vehicle_id: VehicleId },
    RegistrationRequired { normalized_vin: Option<String> },
    Ready { vehicle_id: VehicleId },
    Reconnecting { target: ConnectionTarget, attempt: u8 },
    LinkLost,
    Cancelled,
    Error(String),
}

impl ConnectionState {
    pub fn connected_vehicle_id(&self) -> (id: Option<VehicleId>)
        ensures
            id == match self {
                ConnectionState::Identified { vehicle_id } => Some(*vehicle_id),
                ConnectionState::Ready { vehicle_id } => Some(*vehicle_id),
                _ => None,
            },
    {
        match self {
            ConnectionState::Identified { vehicle_id } => Some(*vehicle_id),
            ConnectionState::Ready { vehicle_id } => Some(*vehicle_id),
            _ => None,
        }
    }

    /// Frames may be stored only once the vehicle is known and ready.
    pub fn permits_persistence(&self) -> (b: bool)
        ensures
            b == self is Ready,
    {
        match self {
            ConnectionState::Ready { .. } => true,
            _ => false,
        }
    }

    pub fn permits_health_or_realtime(&self) -> (b: bool)
        ensures
            b == self is Ready,
    {
        self.permits_persistence()
    }
}

#[derive(Debug, Clone, PartialEq, Eq)]
pub enum IdentificationOutcome {
    ExistingVehicle { vehicle_id: VehicleId },
    SelectionRequired,
    RegistrationRequired { normalized_vin: Option<String> },
    InvalidVin(String),
}

pub open spec fn vin_error_text() -> Seq<char> {
    "VIN must be 17 ASCII alphanumeric characters excluding I, O and Q"@
}

pub open spec fn is_vin_char(c: char) -> bool {
    ('0' <= c <= '9' || 'A' <= c <= 'Z' || 'a' <= c <= 'z') && c != 'I' && c != 'O' && c != 'Q'
}

/// A well-formed VIN: seventeen ASCII letters and digits, none of them I, O
/// or Q.
pub open spec fn valid_vin(t: Seq<char>) -> bool {
    t.len() == 17 && forall|i: int| 0 <= i < t.len() ==> is_vin_char(#[trigger] t[i])
}

/// `normalize_vin` on the characters of its argument: `Ok(None)` for blank
/// input, the trimmed upper-case VIN when it is valid, `Err` otherwise.
pub open spec fn normalized_vin(s: Seq<char>) -> Result<Option<Seq<char>>, ()> {
    let t = upper_all(trim(s));
    if t.len() == 0 {
        Ok(None)
    } else if valid_vin(t) {
        Ok(Some(t))
    } else {
        Err(())
    }
}

fn check_vin(t: &[char]) -> (b: bool)
    ensures
        b == valid_vin(t@),
{
    if t.len() != 17 {
        return false;
    }
    let mut i: usize = 0;
    while i < t.len()
        invariant
            t@.len() == 17,
            i <= t@.len(),
            forall|j: int| 0 <= j < i ==> is_vin_char(#[trigger] t@[j]),
        decreases t.len() - i,
    {
        let c = t[i];
        let ok = ('0' <= c && c <= '9' || 'A' <= c && c <= 'Z' || 'a' <= c && c <= 'z') && c
            != 'I' && c != 'O' && c != 'Q';
        if !ok {
            return false;
        }
        i = i + 1;
    }
    true
}

/// Trims and upper-cases a VIN; blank input means "no VIN".
pub fn normalize_vin(value: &str) -> (res: Result<Option<String>, String>)
    ensures
        match res {
            Ok(None) => normalized_vin(value@) == Ok::<Option<Seq<char>>, ()>(None),
            Ok(Some(v)) => normalized_vin(value@) == Ok::<Option<Seq<char>>, ()>(Some(v@)),
            Err(e) => normalized_vin(value@) == Err::<Option<Seq<char>>, ()>(()) && e@
                == vin_error_text(),
        },
{
    let chars = chars_of(value);
    let trimmed = trim_chars(chars.as_slice());
    let t = upper_chars(trimmed.as_slice());
    if t.len() == 0 {
        return Ok(None);
    }
    if !check_vin(t.as_slice()) {
        let mut msg: Vec<char> = Vec::new();
        push_str(&mut msg, "VIN must be 17 ASCII alphanumeric characters excluding I, O and Q");
        return Err(string_from_chars(msg.as_slice()));
    }
    Ok(Some(string_from_chars(t.as_slice())))
}

proof fn lemma_trim_start_keeps(s: Seq<char>)
    requires
        s.len() == 0 || !is_unicode_whitespace(s[0]),
    ensures
        trim_start(s) == s,
{
}

proof fn lemma_trim_end_keeps(s: Seq<char>)
    requires
        s.len() == 0 || !is_unicode_whitespace(s.last()),
    ensures
        trim_end(s) == s,
{
}

/// Normalising a normalised VIN gives it back unchanged.
pub proof fn law_normalize_vin_idempotent(s: Seq<char>)
    ensures
        normalized_vin(s) matches Ok(Some(t)) ==> normalized_vin(t) == Ok::<
            Option<Seq<char>>,
            (),
        >(Some(t)),
{
    if let Ok(Some(t)) = normalized_vin(s) {
        assert(is_vin_char(t[0]));
        assert(is_vin_char(t[16]));
        lemma_trim_start_keeps(t);
        lemma_trim_end_keeps(t);
        assert(trim(t) == t);
        assert(upper_all(t) =~= t) by {
            assert forall|i: int| 0 <= i < t.len() implies upper_all(t)[i] == t[i] by {
                assert(is_vin_char(t[i]));
            }
        }
    }
}

/// What identification needs to know of a stored vehicle.
#[derive(Debug, Clone, PartialEq, Eq)]
pub struct VehicleIdentity {
    pub id: VehicleId,
    pub normalized_vin: Option<String>,
    pub deleted: bool,
}

pub open spec fn vehicle_matches(v: VehicleIdentity, vin: Seq<char>) -> bool {
    !v.deleted && (v.normalized_vin matches Some(x) && x@ == vin)
}

/// Ids of the live vehicles registered under `vin`, in list order.
pub open spec fn matching_ids(vs: Seq<VehicleIdentity>, vin: Seq<char>) -> Seq<VehicleId>
    decreases vs.len(),
{
    if vs.len() == 0 {
        Seq::empty()
    } else if vehicle_matches(vs.last(), vin) {
        matching_ids(vs.drop_last(), vin).push(vs.last().id)
    } else {
        matching_ids(vs.drop_last(), vin)
    }
}

/// Outcome of identifying a VIN against stored vehicles, with strings taken
/// by their characters.
pub enum OutcomeSpec {
    ExistingVehicle { vehicle_id: VehicleId },
    SelectionRequired,
    RegistrationRequired { normalized_vin: Option<Seq<char>> },
    InvalidVin(Seq<char>),
}

pub open spec fn outcome_view(o: IdentificationOutcome) -> OutcomeSpec {
    match o {
        IdentificationOutcome::ExistingVehicle { vehicle_id } => OutcomeSpec::ExistingVehicle {
            vehicle_id,
        },
        IdentificationOutcome::SelectionRequired => OutcomeSpec::SelectionRequired,
        IdentificationOutcome::RegistrationRequired { normalized_vin } => {
            OutcomeSpec::RegistrationRequired {
                normalized_vin: match normalized_vin {
                    Some(v) => Some(v@),
                    None => None,
                },
            }
        },
        IdentificationOutcome::InvalidVin(e) => OutcomeSpec::InvalidVin(e@),
    }
}

/// No VIN, or a blank one, never picks a vehicle; a valid VIN picks the one
/// live vehicle registered under it, asks for registration when there is
/// none and for a choice when there are several.
pub open spec fn identification(vin: Option<Seq<char>>, vs: Seq<VehicleIdentity>) -> OutcomeSpec {
    match vin {
        None => OutcomeSpec::SelectionRequired,
        Some(raw) => match normalized_vin(raw) {
            Err(_) => OutcomeSpec::InvalidVin(vin_error_text()),
            Ok(None) => OutcomeSpec::SelectionRequired,
            Ok(Some(t)) => {
                let ids = matching_ids(vs, t);
                if ids.len() == 1 {
                    OutcomeSpec::ExistingVehicle { vehicle_id: ids[0] }
                } else if ids.len() == 0 {
                    OutcomeSpec::RegistrationRequired { normalized_vin: Some(t) }
                } else {
                    OutcomeSpec::SelectionRequired
                }
            },
        },
    }
}

pub fn identify_vehicle(vin: Option<&str>, vehicles: &[VehicleIdentity]) -> (o:
    IdentificationOutcome)
    ensures
        outcome_view(o) == identification(
            match vin {
                Some(v) => Some(v@),
                None => None,
            },
            vehicles@,
        ),
{
    let vin = match vin {
        None => {
            return IdentificationOutcome::SelectionRequired;
        },
        Some(v) => v,
    };
    let normalized = match normalize_vin(vin) {
        Ok(Some(value)) => value,
        Ok(None) => {
            return IdentificationOutcome::SelectionRequired;
        },
        Err(error) => {
            return IdentificationOutcome::InvalidVin(error);
        },
    };
    let ghost t = normalized@;
    let mut count: usize = 0;
    let mut first: VehicleId = 0;
    let mut i: usize = 0;
    while i < vehicles.len()
        invariant
            i <= vehicles@.len(),
            t == normalized@,
            count == matching_ids(vehicles@.take(i as int), t).len(),
            count <= i,
            count >= 1 ==> first == matching_ids(vehicles@.take(i as int), t)[0],
        decreases vehicles.len() - i,
    {
        let v = &vehicles[i];
        assert(vehicles@.take(i + 1).drop_last() =~= vehicles@.take(i as int));
        let hit = !v.deleted && match &v.normalized_vin {
            Some(x) => str_eq(x.as_str(), normalized.as_str()),
            None => false,
        };
        if hit {
            if count == 0 {
                first = v.id;
            }
            count = count + 1;
        }
        i = i + 1;
    }
    assert(vehicles@.take(vehicles@.len() as int) =~= vehicles@);
    if count == 1 {
        IdentificationOutcome::ExistingVehicle { vehicle_id: first }
    } else if count == 0 {
        IdentificationOutcome::RegistrationRequired { normalized_vin: Some(normalized) }
    } else {
        IdentificationOutcome::SelectionRequired
    }
}

/// The vehicle the adapter is connected to and the one shown on screen are
/// tracked separately.
#[derive(Debug, Clone, PartialEq, Eq, Structural)]
pub struct VehicleSelectionState {
    pub connected_vehicle_id: Option<VehicleId>,
    pub viewed_vehicle_id: Option<VehicleId>,
}

impl Default for VehicleSelectionState {
    fn default() -> (s: VehicleSelectionState)
        ensures
            s.connected_vehicle_id is None,
            s.viewed_vehicle_id is None,
    {
        VehicleSelectionState { connected_vehicle_id: None, viewed_vehicle_id: None }
    }
}

impl VehicleSelectionState {
    /// Changes the connected vehicle and leaves the viewed one alone.
    pub fn set_connected(&mut self, vehicle_id: Option<VehicleId>)
        ensures
            final(self).connected_vehicle_id == vehicle_id,
            final(self).viewed_vehicle_id == old(self).viewed_vehicle_id,
    {
        self.connected_vehicle_id = vehicle_id;
    }

    /// Changes the viewed vehicle and leaves the connected one alone.
    pub fn set_viewed(&mut self, vehicle_id: Option<VehicleId>)
        ensures
            final(self).viewed_vehicle_id == vehicle_id,
            final(self).connected_vehicle_id == old(self).connected_vehicle_id,
    {
        self.viewed_vehicle_id = vehicle_id;
    }
}

} // verus!
