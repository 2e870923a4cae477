//! Scanning which Mode 01/02/09 PIDs an ECU answers.
//!
//! The scan walks a PID range in order, asking a `PidProbe` about each PID.
//! It stops early when the user cancels, when the adapter disconnects, or
//! after five consecutive probe errors; the progress reported after each PID
//! counts what was scanned, answered and failed.
//!
//! The probe, the cancellation flag, the sleeper and the progress sink are
//! handed to the scan inside `Observed`, which keeps a proof-only record of
//! the calls each received and what they returned; the scan's contract says
//! exactly which calls those were and how their answers make up the result.

use vstd::prelude::*;
use std::sync::Arc;
use std::sync::atomic::AtomicBool;
use crate::text::{push_str, string_from_chars};
use crate::time::Duration;

verus! {

/// `anyhow::Error`, the error a probe reports.
#[verifier::external_type_specification]
#[verifier::external_body]
pub struct ExAnyhowError(anyhow::Error);

/// The read-only OBD services: current data, freeze frame, vehicle info.
pub open spec fn is_safe_read_service(service: u8) -> bool {
    service == 0x01 || service == 0x02 || service == 0x09
}

/// Services that can be scanned without changing anything in the vehicle.
pub fn safe_read_services() -> (s: [u8; 3])
    ensures
        s@ == seq![0x01u8, 0x02u8, 0x09u8],
{
    [0x01, 0x02, 0x09]
}

pub const MIN_INTERVAL_MILLIS: u64 = 20;

pub const MAX_CONSECUTIVE_ERRORS: u8 = 5;

#[derive(Debug, Clone, Copy, PartialEq, Eq, Structural)]
pub struct PidScanConfig {
    pub service: u8,
    pub start_pid: u8,
    pub end_pid: u8,
    pub interval: Duration,
    pub response_timeout: Duration,
}

impl Default for PidScanConfig {
    /// Service 01, PIDs 0x00 to 0x20, 100 ms apart, one second per answer.
    fn default() -> (c: PidScanConfig)
        ensures
            c.service == 0x01,
            c.start_pid == 0,
            c.end_pid == 0x20,
            c.interval@ == 100 * 1_000_000,
            c.response_timeout@ == 1_000_000_000,
    {
        PidScanConfig {
            service: 0x01,
            start_pid: 0,
            end_pid: 0x20,
            interval: Duration::from_millis(100),
            response_timeout: Duration::from_secs(1),
        }
    }
}

/// Why a scan configuration is refused.
#[derive(Debug, Clone, Copy, PartialEq, Eq, Structural)]
pub enum ScanConfigError {
    /// Only read-only OBD services may be scanned.
    UnsafeService,
    /// The first PID lies after the last.
    InvalidRange,
    /// PIDs must be at least 20 ms apart.
    IntervalTooShort,
    /// A response timeout is required.
    MissingTimeout,
}

impl ScanConfigError {
    pub open spec fn message_text(self) -> Seq<char> {
        match self {
            ScanConfigError::UnsafeService => "読み取り専用OBDサービスだけを探索できます"@,
            ScanConfigError::InvalidRange => "PID範囲が不正です"@,
            ScanConfigError::IntervalTooShort => "送信間隔は20ms以上が必要です"@,
            ScanConfigError::MissingTimeout => "応答タイムアウトが必要です"@,
        }
    }

    pub fn message(&self) -> (m: String)
        ensures
            m@ == self.message_text(),
    {
        let mut v: Vec<char> = Vec::new();
        match self {
            ScanConfigError::UnsafeService => push_str(
                &mut v,
                "読み取り専用OBDサービスだけを探索できます",
            ),
            ScanConfigError::InvalidRange => push_str(&mut v, "PID範囲が不正です"),
            ScanConfigError::IntervalTooShort => push_str(&mut v, "送信間隔は20ms以上が必要です"),
            ScanConfigError::MissingTimeout => push_str(&mut v, "応答タイムアウトが必要です"),
        }
        assert(v@ =~= self.message_text());
        string_from_chars(v.as_slice())
    }
}

/// The first rule a configuration breaks, checked in this order.
pub open spec fn config_error(c: PidScanConfig) -> Option<ScanConfigError> {
    if !is_safe_read_service(c.service) {
        Some(ScanConfigError::UnsafeService)
    } else if c.start_pid > c.end_pid {
        Some(ScanConfigError::InvalidRange)
    } else if c.interval@ < MIN_INTERVAL_MILLIS * 1_000_000 {
        Some(ScanConfigError::IntervalTooShort)
    } else if c.response_timeout@ == 0 {
        Some(ScanConfigError::MissingTimeout)
    } else {
        None
    }
}

impl PidScanConfig {
    pub fn validate(self) -> (r: Result<(), ScanConfigError>)
        ensures
            match r {
                Ok(()) => config_error(self) is None,
                Err(e) => config_error(self) == Some(e),
            },
    {
        let services = safe_read_services();
        if !(self.service == services[0] || self.service == services[1] || self.service
            == services[2]) {
            return Err(ScanConfigError::UnsafeService);
        }
        if self.start_pid > self.end_pid {
            return Err(ScanConfigError::InvalidRange);
        }
        if self.interval.lt(&Duration::from_millis(MIN_INTERVAL_MILLIS)) {
            return Err(ScanConfigError::IntervalTooShort);
        }
        if self.response_timeout.is_zero() {
            return Err(ScanConfigError::MissingTimeout);
        }
        Ok(())
    }
}

/// An adapter that can ask the ECU whether it answers a PID.
pub trait PidProbe {
    fn is_connected(&self) -> bool;

    /// Whether the ECU answered `pid` of `service` within `timeout`.
    fn probe(&mut self, service: u8, pid: u8, timeout: Duration) -> Result<bool, anyhow::Error>;
}

/// Waits between two probes.
pub trait ScanSleeper {
    fn sleep(&mut self, duration: Duration);
}

/// Receives the progress of a scan after each PID.
pub trait ScanProgressSink {
    fn report(&mut self, progress: PidScanProgress);
}

/// Collecting the reports in a vector.
impl ScanProgressSink for Vec<PidScanProgress> {
    fn report(&mut self, progress: PidScanProgress) {
        self.push(progress);
    }
}

/// A probe, sleeper or progress sink together with the record of the calls
/// it received through this wrapper, oldest first.  The record exists only
/// for the proofs; at run time the wrapper is just `inner`.
pub struct Observed<T, A> {
    pub inner: T,
    calls: Ghost<Seq<A>>,
}

impl<T, A> Observed<T, A> {
    /// The calls received so far, oldest first.
    pub closed spec fn calls(&self) -> Seq<A> {
        self.calls@
    }

    /// The observed value.
    pub closed spec fn wrapped(&self) -> T {
        self.inner
    }

    /// Starts observing `inner`; no call was received yet.
    pub fn new(inner: T) -> (o: Self)
        ensures
            o.wrapped() == inner,
            o.calls() == Seq::<A>::empty(),
    {
        Observed { inner, calls: Ghost(Seq::empty()) }
    }
}

/// One call the scan made to the adapter, with what it returned.
pub enum AdapterCall {
    /// `is_connected`, and its answer.
    Connected(bool),
    /// `probe` of a service, PID and timeout; `Some(answered)` for `Ok`,
    /// `None` for an error.
    Probed(u8, u8, Duration, Option<bool>),
}

/// What a probe's result records: the answer, or `None` for an error.
pub open spec fn answer_of(r: Result<bool, anyhow::Error>) -> Option<bool> {
    match r {
        Ok(b) => Some(b),
        Err(_) => None,
    }
}

impl<P: PidProbe> Observed<P, AdapterCall> {
    /// Asks whether the adapter is connected; the answer is recorded.
    pub fn is_connected(&mut self) -> (b: bool)
        ensures
            final(self).calls() == old(self).calls().push(AdapterCall::Connected(b)),
    {
        let b = self.inner.is_connected();
        proof {
            self.calls@ = self.calls@.push(AdapterCall::Connected(b));
        }
        b
    }

    /// Asks the probe; the request and its result are recorded.
    pub fn probe(&mut self, service: u8, pid: u8, timeout: Duration) -> (r: Result<
        bool,
        anyhow::Error,
    >)
        ensures
            final(self).calls() == old(self).calls().push(
                AdapterCall::Probed(service, pid, timeout, answer_of(r)),
            ),
    {
        let r = self.inner.probe(service, pid, timeout);
        proof {
            self.calls@ = self.calls@.push(AdapterCall::Probed(service, pid, timeout, answer_of(r)));
        }
        r
    }
}

impl Observed<ScanCancellation, bool> {
    /// Reads the flag; what was read is recorded.
    pub fn is_cancelled(&mut self) -> (b: bool)
        ensures
            final(self).calls() == old(self).calls().push(b),
    {
        let b = self.inner.cancelled();
        proof {
            self.calls@ = self.calls@.push(b);
        }
        b
    }
}

impl<S: ScanSleeper> Observed<S, Duration> {
    /// Waits; the duration is recorded as received.
    pub fn sleep(&mut self, duration: Duration)
        ensures
            final(self).calls() == old(self).calls().push(duration),
    {
        self.inner.sleep(duration);
        proof {
            self.calls@ = self.calls@.push(duration);
        }
    }
}

impl<R: ScanProgressSink> Observed<R, PidScanProgress> {
    /// Hands on a report; it is recorded as received.
    pub fn report(&mut self, progress: PidScanProgress)
        ensures
            final(self).calls() == old(self).calls().push(progress),
    {
        self.inner.report(progress);
        proof {
            self.calls@ = self.calls@.push(progress);
        }
    }
}

#[derive(Debug, Clone, Copy, PartialEq, Eq, Structural)]
pub struct PidScanProgress {
    pub scanned: u16,
    pub responses: u16,
    pub errors: u16,
    pub stopped: bool,
}

impl Default for PidScanProgress {
    fn default() -> (p: PidScanProgress)
        ensures
            p == (PidScanProgress { scanned: 0, responses: 0, errors: 0, stopped: false }),
    {
        PidScanProgress { scanned: 0, responses: 0, errors: 0, stopped: false }
    }
}

/// A flag shared between the scan and whoever may cancel it.
#[derive(Clone)]
pub struct ScanCancellation(Arc<AtomicBool>);

impl Default for ScanCancellation {
    /// A flag that is not yet raised.
    fn default() -> ScanCancellation {
        ScanCancellation(Arc::new(AtomicBool::new(false)))
    }
}

impl ScanCancellation {
    /// Raises the flag; every clone sees it.
    pub fn cancel(&self) {
        self.0.store(true, std::sync::atomic::Ordering::Relaxed);
    }

    /// Whether the flag was raised, as last seen.  Another thread may raise
    /// it at any time, so nothing is known of the answer.
    fn cancelled(&self) -> bool {
        self.0.load(std::sync::atomic::Ordering::Relaxed)
    }
}

/// What happened at one PID of a scan.
pub enum ScanEvent {
    /// The cancellation flag was read raised before the PID was probed.
    Cancelled,
    /// The adapter said it was not connected before the PID was probed.
    Disconnected,
    /// The probe returned; `true` when the ECU answered.
    Answered(bool),
    /// The probe reported an error.
    Failed,
}

/// Progress and the run of consecutive errors after one more event.
pub open spec fn apply_event(s: (PidScanProgress, nat), e: ScanEvent) -> (PidScanProgress, nat) {
    let p = s.0;
    match e {
        ScanEvent::Cancelled | ScanEvent::Disconnected => (
            PidScanProgress { stopped: true, ..p },
            s.1,
        ),
        ScanEvent::Answered(r) => (
            PidScanProgress {
                scanned: (p.scanned + 1) as u16,
                responses: (p.responses + if r {
                    1int
                } else {
                    0int
                }) as u16,
                ..p
            },
            0,
        ),
        ScanEvent::Failed => (
            PidScanProgress {
                scanned: (p.scanned + 1) as u16,
                errors: (p.errors + 1) as u16,
                stopped: p.stopped || s.1 + 1 >= MAX_CONSECUTIVE_ERRORS,
                ..p
            },
            s.1 + 1,
        ),
    }
}

/// The state after the events, starting from zero counts.
pub open spec fn fold_events(events: Seq<ScanEvent>) -> (PidScanProgress, nat)
    decreases events.len(),
{
    if events.len() == 0 {
        (PidScanProgress { scanned: 0, responses: 0, errors: 0, stopped: false }, 0)
    } else {
        apply_event(fold_events(events.drop_last()), events.last())
    }
}

/// The scan ends after this event.
pub open spec fn ends_scan(before: (PidScanProgress, nat), e: ScanEvent) -> bool {
    match e {
        ScanEvent::Cancelled | ScanEvent::Disconnected => true,
        ScanEvent::Answered(_) => false,
        ScanEvent::Failed => before.1 + 1 >= MAX_CONSECUTIVE_ERRORS,
    }
}

/// A possible history of a scan over `count` PIDs: one event per PID in
/// order, ending early exactly when an event ends the scan.
pub open spec fn valid_scan(events: Seq<ScanEvent>, count: nat) -> bool {
    &&& 0 < events.len() <= count
    &&& forall|i: int|
        0 <= i < events.len() - 1 ==> !ends_scan(
            fold_events(events.take(i)),
            #[trigger] events[i],
        )
    &&& events.len() < count ==> ends_scan(
        fold_events(events.drop_last()),
        events.last(),
    )
}

pub open spec fn pid_count(c: PidScanConfig) -> nat {
    (c.end_pid - c.start_pid + 1) as nat
}

proof fn lemma_fold_bounds(events: Seq<ScanEvent>)
    requires
        events.len() <= 256,
    ensures
        fold_events(events).0.scanned <= events.len(),
        fold_events(events).0.responses + fold_events(events).0.errors <= fold_events(
            events,
        ).0.scanned,
        fold_events(events).1 <= fold_events(events).0.errors,
    decreases events.len(),
{
    if events.len() > 0 {
        lemma_fold_bounds(events.drop_last());
    }
}

/// Records the outcome of probing one PID: counts it, resets or extends the
/// run of errors, and stops the scan at the fifth error in a row.
pub fn record_probe(progress: PidScanProgress, consecutive: u8, outcome: Option<bool>) -> (r: (
    PidScanProgress,
    u8,
))
    requires
        progress.scanned < 256,
        progress.responses + progress.errors <= progress.scanned,
        consecutive < MAX_CONSECUTIVE_ERRORS,
    ensures
        (r.0, r.1 as nat) == apply_event(
            (progress, consecutive as nat),
            match outcome {
                Some(b) => ScanEvent::Answered(b),
                None => ScanEvent::Failed,
            },
        ),
{
    let mut p = progress;
    let mut c = consecutive;
    match outcome {
        Some(responded) => {
            if responded {
                p.responses = p.responses + 1;
            }
            c = 0;
        },
        None => {
            p.errors = p.errors + 1;
            c = c + 1;
            if c >= MAX_CONSECUTIVE_ERRORS {
                p.stopped = true;
            }
        },
    }
    p.scanned = p.scanned + 1;
    (p, c)
}

/// The scan stopped at this PID without probing it.
pub open spec fn halts(e: ScanEvent) -> bool {
    e is Cancelled || e is Disconnected
}

/// The calls made to the adapter at the `i`-th PID of a scan, given what
/// happened there: no call once the flag was read raised, else the
/// connection check, and then the request for that PID with the configured
/// service and timeout and the answer the event records.
pub open spec fn adapter_calls_at(config: PidScanConfig, i: int, e: ScanEvent) -> Seq<AdapterCall> {
    let pid = (config.start_pid + i) as u8;
    match e {
        ScanEvent::Cancelled => seq![],
        ScanEvent::Disconnected => seq![AdapterCall::Connected(false)],
        ScanEvent::Answered(b) => seq![
            AdapterCall::Connected(true),
            AdapterCall::Probed(config.service, pid, config.response_timeout, Some(b)),
        ],
        ScanEvent::Failed => seq![
            AdapterCall::Connected(true),
            AdapterCall::Probed(config.service, pid, config.response_timeout, None),
        ],
    }
}

/// The calls made to the adapter over a scan with these events.
pub open spec fn adapter_calls(config: PidScanConfig, events: Seq<ScanEvent>) -> Seq<AdapterCall>
    decreases events.len(),
{
    if events.len() == 0 {
        seq![]
    } else {
        adapter_calls(config, events.drop_last()) + adapter_calls_at(
            config,
            events.len() - 1,
            events.last(),
        )
    }
}

/// The values of the cancellation flag read over a scan with these events:
/// one read per PID, raised only where the scan was cancelled.
pub open spec fn flag_reads(events: Seq<ScanEvent>) -> Seq<bool> {
    Seq::new(events.len(), |i: int| events[i] is Cancelled)
}

/// The progress reported after each of the first `n` events.
pub open spec fn reports_of(events: Seq<ScanEvent>, n: nat) -> Seq<PidScanProgress> {
    Seq::new(n, |i: int| fold_events(events.take(i + 1)).0)
}

/// `n` waits of the configured interval.
pub open spec fn sleeps_of(config: PidScanConfig, n: nat) -> Seq<Duration> {
    Seq::new(n, |i: int| config.interval)
}

/// How many waits a scan with these events made: one after every probed PID
/// that did not end the scan.
pub open spec fn sleep_count(events: Seq<ScanEvent>) -> nat {
    if halts(events.last()) {
        fold_events(events).0.scanned as nat
    } else {
        (fold_events(events).0.scanned - 1) as nat
    }
}

proof fn lemma_halt_step(events: Seq<ScanEvent>, h: ScanEvent)
    ensures
        events.push(h).drop_last() == events,
        forall|i: int| 0 <= i <= events.len() ==> #[trigger] events.push(h).take(i) == events.take(i),
        reports_of(events.push(h), events.len()) == reports_of(events, events.len()),
{
    let e = events.push(h);
    assert(e.drop_last() =~= events);
    assert forall|i: int| 0 <= i <= events.len() implies #[trigger] e.take(i) == events.take(i) by {
        assert(e.take(i) =~= events.take(i));
    }
    assert forall|i: int| 0 <= i < events.len() implies #[trigger] reports_of(e, events.len())[i]
        == reports_of(events, events.len())[i] by {
        assert(e.take(i + 1) =~= events.take(i + 1));
    }
    assert(reports_of(e, events.len()) =~= reports_of(events, events.len()));
}

proof fn lemma_logs_step(config: PidScanConfig, events: Seq<ScanEvent>, e: ScanEvent)
    ensures
        flag_reads(events.push(e)) == flag_reads(events).push(e is Cancelled),
        adapter_calls(config, events.push(e)) == adapter_calls(config, events) + adapter_calls_at(
            config,
            events.len() as int,
            e,
        ),
{
    assert(events.push(e).drop_last() =~= events);
    assert(flag_reads(events.push(e)) =~= flag_reads(events).push(e is Cancelled));
}

proof fn lemma_probe_step(events: Seq<ScanEvent>, event: ScanEvent)
    ensures
        events.push(event).drop_last() == events,
        forall|i: int|
            0 <= i <= events.len() ==> #[trigger] events.push(event).take(i) == events.take(i),
        events.push(event).take(events.len() + 1int) == events.push(event),
        reports_of(events.push(event), events.len() + 1) == reports_of(events, events.len()).push(
            fold_events(events.push(event)).0,
        ),
{
    let e = events.push(event);
    assert(e.drop_last() =~= events);
    assert forall|i: int| 0 <= i <= events.len() implies #[trigger] e.take(i) == events.take(i) by {
        assert(e.take(i) =~= events.take(i));
    }
    assert(e.take(events.len() + 1int) =~= e);
    assert forall|i: int| 0 <= i < events.len() implies #[trigger] reports_of(e, events.len() + 1)[i]
        == reports_of(events, events.len())[i] by {
        assert(e.take(i + 1) =~= events.take(i + 1));
    }
    assert(reports_of(e, events.len() + 1) =~= reports_of(events, events.len()).push(
        fold_events(e).0,
    ));
}

proof fn lemma_sleeps_step(config: PidScanConfig, k: nat)
    ensures
        sleeps_of(config, k + 1) == sleeps_of(config, k).push(config.interval),
{
    assert(sleeps_of(config, k + 1) =~= sleeps_of(config, k).push(config.interval));
}

/// The progress after a scan's events counts what the probe answered: the
/// PIDs scanned are the probes that returned, the responses those that
/// returned `true`, and the errors those that failed; a cancellation or a
/// disconnection counts nothing but stops the scan.
pub proof fn law_progress_counts_the_answers(events: Seq<ScanEvent>)
    requires
        events.len() <= 256,
    ensures
        ({
            let p = fold_events(events).0;
            &&& p.scanned == events.filter(|e: ScanEvent| e is Answered || e is Failed).len()
            &&& p.responses == events.filter(|e: ScanEvent| e == ScanEvent::Answered(true)).len()
            &&& p.errors == events.filter(|e: ScanEvent| e is Failed).len()
            &&& (exists|i: int| 0 <= i < events.len() && halts(#[trigger] events[i])) ==> p.stopped
        }),
    decreases events.len(),
{
    reveal(Seq::filter);
    if events.len() > 0 {
        let pre = events.drop_last();
        law_progress_counts_the_answers(pre);
        lemma_fold_bounds(pre);
        pre.lemma_filter_len(|e: ScanEvent| e is Answered || e is Failed);
        pre.lemma_filter_len(|e: ScanEvent| e == ScanEvent::Answered(true));
        pre.lemma_filter_len(|e: ScanEvent| e is Failed);
        if exists|i: int| 0 <= i < events.len() && halts(#[trigger] events[i]) {
            let i = choose|i: int| 0 <= i < events.len() && halts(#[trigger] events[i]);
            if i < events.len() - 1 {
                assert(pre[i] == events[i]);
                lemma_fold_stays_stopped(pre, events.last());
            }
        }
    }
}

proof fn lemma_fold_stays_stopped(events: Seq<ScanEvent>, e: ScanEvent)
    requires
        fold_events(events).0.stopped,
    ensures
        apply_event(fold_events(events), e).0.stopped,
{
}

/// Every request a scan of these events sends uses the configured service
/// and response timeout and asks for a PID of the configured range; the
/// PIDs are asked in increasing order, each at most once, and the i-th PID
/// of the range is asked only at the i-th event.
pub proof fn law_scan_requests_follow_the_configuration(config: PidScanConfig, events: Seq<ScanEvent>)
    requires
        config.start_pid <= config.end_pid,
        events.len() <= pid_count(config),
    ensures
        forall|i: int|
            0 <= i < adapter_calls(config, events).len() ==> (#[trigger] adapter_calls(
                config,
                events,
            )[i] matches AdapterCall::Probed(s, p, t, _) ==> s == config.service && t
                == config.response_timeout && config.start_pid <= p < config.start_pid
                + events.len() && p <= config.end_pid),
        forall|i: int, j: int|
            #![trigger adapter_calls(config, events)[i], adapter_calls(config, events)[j]]
            0 <= i < j < adapter_calls(config, events).len() ==> (adapter_calls(
                config,
                events,
            )[i] matches AdapterCall::Probed(_, p, _, _) ==> (adapter_calls(
                config,
                events,
            )[j] matches AdapterCall::Probed(_, q, _, _) ==> p < q)),
    decreases events.len(),
{
    if events.len() > 0 {
        let pre = events.drop_last();
        let k = events.len() - 1;
        law_scan_requests_follow_the_configuration(config, pre);
        let a = adapter_calls(config, pre);
        let b = adapter_calls_at(config, k, events.last());
        let all = adapter_calls(config, events);
        assert(all == a + b);
        let pid = (config.start_pid + k) as u8;
        assert(pid == config.start_pid + k);
        assert forall|i: int| 0 <= i < b.len() implies (#[trigger] b[i] matches AdapterCall::Probed(
            s,
            p,
            t,
            _,
        ) ==> s == config.service && t == config.response_timeout && p == pid) by {}
        assert forall|i: int| 0 <= i < all.len() implies (#[trigger] all[i] matches AdapterCall::Probed(
            s,
            p,
            t,
            _,
        ) ==> s == config.service && t == config.response_timeout && config.start_pid <= p
            < config.start_pid + events.len() && p <= config.end_pid) by {
            if i < a.len() {
                assert(all[i] == a[i]);
            } else {
                assert(all[i] == b[i - a.len()]);
            }
        }
        assert forall|i: int, j: int|
            #![trigger all[i], all[j]]
            0 <= i < j < all.len() implies (all[i] matches AdapterCall::Probed(_, p, _, _) ==> (
            all[j] matches AdapterCall::Probed(_, q, _, _) ==> p < q)) by {
            if j < a.len() {
                assert(all[i] == a[i] && all[j] == a[j]);
            } else if i < a.len() {
                assert(all[i] == a[i] && all[j] == b[j - a.len()]);
            } else {
                assert(all[i] == b[i - a.len()] && all[j] == b[j - a.len()]);
            }
        }
    }
}

/// Probes every PID of the configured range in order and returns the final
/// progress.  Refuses invalid configurations before touching the adapter,
/// the flag, the sleeper or the sink.  Otherwise, before each PID it reads
/// the flag and, unless it is raised, asks whether the adapter is connected;
/// it stops there if either says so.  It then probes the PID, counts the
/// answer or the error, reports the progress, and waits one interval before
/// the next PID.  It stops after the last PID or at the fifth error in a
/// row.  The calls it makes and what they return determine the result.
pub fn run_scan<P: PidProbe, S: ScanSleeper, R: ScanProgressSink>(
    probe: &mut Observed<P, AdapterCall>,
    sleeper: &mut Observed<S, Duration>,
    config: PidScanConfig,
    cancellation: &mut Observed<ScanCancellation, bool>,
    progress: &mut Observed<R, PidScanProgress>,
) -> (r: Result<PidScanProgress, ScanConfigError>)
    ensures
        match r {
            Err(e) => {
                &&& config_error(config) == Some(e)
                &&& *final(probe) == *old(probe)
                &&& *final(sleeper) == *old(sleeper)
                &&& *final(cancellation) == *old(cancellation)
                &&& *final(progress) == *old(progress)
            },
            Ok(p) => config_error(config) is None && p.responses + p.errors <= p.scanned
                <= pid_count(config) && (p.scanned < pid_count(config) ==> p.stopped)
                && exists|events: Seq<ScanEvent>|
                {
                    &&& valid_scan(events, pid_count(config))
                    &&& #[trigger] fold_events(events).0 == p
                    &&& final(cancellation).calls() == old(cancellation).calls() + flag_reads(
                        events,
                    )
                    &&& final(probe).calls() == old(probe).calls() + adapter_calls(config, events)
                    &&& final(progress).calls() == old(progress).calls() + reports_of(
                        events,
                        p.scanned as nat,
                    )
                    &&& final(sleeper).calls() == old(sleeper).calls() + sleeps_of(
                        config,
                        sleep_count(events),
                    )
                },
        },
{
    match config.validate() {
        Err(e) => {
            return Err(e);
        },
        Ok(()) => {},
    }
    let ghost adapter0 = probe.calls();
    let ghost flags0 = cancellation.calls();
    let ghost reports0 = progress.calls();
    let ghost sleeps0 = sleeper.calls();
    let mut state = PidScanProgress::default();
    let mut consecutive: u8 = 0;
    let mut pid: u8 = config.start_pid;
    let ghost mut events: Seq<ScanEvent> = Seq::empty();
    proof {
        assert(flag_reads(events) =~= Seq::<bool>::empty());
        assert(reports_of(events, 0) =~= Seq::<PidScanProgress>::empty());
        assert(sleeps_of(config, 0) =~= Seq::<Duration>::empty());
        assert(probe.calls() =~= adapter0 + adapter_calls(config, events));
        assert(cancellation.calls() =~= flags0 + flag_reads(events));
        assert(progress.calls() =~= reports0 + reports_of(events, 0));
        assert(sleeper.calls() =~= sleeps0 + sleeps_of(config, 0));
    }
    loop
        invariant_except_break
            events.len() == pid - config.start_pid,
            (state, consecutive as nat) == fold_events(events),
            state.scanned == events.len(),
            consecutive < MAX_CONSECUTIVE_ERRORS,
            forall|i: int|
                0 <= i < events.len() ==> !ends_scan(
                    fold_events(events.take(i)),
                    #[trigger] events[i],
                ),
            forall|i: int| 0 <= i < events.len() ==> !halts(#[trigger] events[i]),
            probe.calls() == adapter0 + adapter_calls(config, events),
            cancellation.calls() == flags0 + flag_reads(events),
            progress.calls() == reports0 + reports_of(events, events.len()),
            sleeper.calls() == sleeps0 + sleeps_of(config, events.len()),
        invariant
            config_error(config) is None,
            config.start_pid <= pid <= config.end_pid,
        ensures
            valid_scan(events, pid_count(config)),
            fold_events(events).0 == state,
            state.responses + state.errors <= state.scanned <= pid_count(config),
            state.scanned < pid_count(config) ==> state.stopped,
            probe.calls() == adapter0 + adapter_calls(config, events),
            cancellation.calls() == flags0 + flag_reads(events),
            progress.calls() == reports0 + reports_of(events, state.scanned as nat),
            sleeper.calls() == sleeps0 + sleeps_of(config, sleep_count(events)),
        decreases config.end_pid - pid,
    {
        proof {
            lemma_fold_bounds(events);
        }
        let ghost k: int = events.len() as int;
        if cancellation.is_cancelled() {
            state.stopped = true;
            proof {
                lemma_halt_step(events, ScanEvent::Cancelled);
                lemma_logs_step(config, events, ScanEvent::Cancelled);
                assert(adapter_calls_at(config, k, ScanEvent::Cancelled) =~= Seq::<
                    AdapterCall,
                >::empty());
                assert(probe.calls() =~= adapter0 + adapter_calls(
                    config,
                    events.push(ScanEvent::Cancelled),
                ));
                events = events.push(ScanEvent::Cancelled);
            }
            break ;
        }
        if !probe.is_connected() {
            state.stopped = true;
            proof {
                lemma_halt_step(events, ScanEvent::Disconnected);
                lemma_logs_step(config, events, ScanEvent::Disconnected);
                assert(probe.calls() =~= adapter0 + adapter_calls(
                    config,
                    events.push(ScanEvent::Disconnected),
                ));
                events = events.push(ScanEvent::Disconnected);
            }
            break ;
        }
        let r = probe.probe(config.service, pid, config.response_timeout);
        let outcome = match r {
            Ok(responded) => Some(responded),
            Err(_) => None,
        };
        let ghost event = match outcome {
            Some(b) => ScanEvent::Answered(b),
            None => ScanEvent::Failed,
        };
        let (next, c) = record_probe(state, consecutive, outcome);
        state = next;
        proof {
            lemma_probe_step(events, event);
            lemma_logs_step(config, events, event);
            assert(probe.calls() =~= adapter0 + adapter_calls(config, events.push(event)));
            events = events.push(event);
        }
        progress.report(state);
        proof {
            lemma_sleeps_step(config, k as nat);
            assert(progress.calls() =~= reports0 + reports_of(events, (k + 1) as nat));
        }
        if c >= MAX_CONSECUTIVE_ERRORS {
            break ;
        }
        consecutive = c;
        if pid == config.end_pid {
            break ;
        }
        sleeper.sleep(config.interval);
        proof {
            assert(sleeper.calls() =~= sleeps0 + sleeps_of(config, (k + 1) as nat));
        }
        pid = pid + 1;
    }
    Ok(state)
}

} // verus!
