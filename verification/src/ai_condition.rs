//! Timing of AI inference and the notifications raised from its scores.

use vstd::prelude::*;
use crate::time::{NANOS_PER_SEC, Timestamp};

verus! {

pub const PREPARATION_SECONDS: i64 = 60;

pub const INFERENCE_INTERVAL_SECONDS: i64 = 5;

/// Notifications of the same kind are at least this far apart.
pub const NOTIFICATION_SUPPRESSION_SECONDS: i64 = 600;

#[derive(Debug, Clone, Copy, PartialEq, Eq, Structural)]
pub enum AiAvailability {
    Preparing,
    Available,
    NoData,
    Unavailable,
}

#[derive(Debug, Clone, Copy, PartialEq, Eq, Structural)]
pub enum AiDisplay {
    Hidden,
    Reference,
    Normal,
}

#[derive(Debug, Clone, Copy, PartialEq, Eq, Structural)]
pub enum AiDrivingState {
    Global,
    WarmUp,
    WarmIdle,
    SteadyCruise,
    Acceleration,
    HighLoad,
}

/// When inference may run: not before the model had a minute of data, and
/// then at most every five seconds.
#[derive(Debug, Clone, Copy, PartialEq, Eq, Structural)]
pub struct InferenceSchedule {
    started_at: Option<Timestamp>,
    last_due: Option<Timestamp>,
}

/// The start of the schedule and the last time an inference was due.
pub struct ScheduleState {
    pub started_at: Option<Timestamp>,
    pub last_due: Option<Timestamp>,
}

impl View for InferenceSchedule {
    type V = ScheduleState;

    closed spec fn view(&self) -> ScheduleState {
        ScheduleState { started_at: self.started_at, last_due: self.last_due }
    }
}

impl Default for InferenceSchedule {
    fn default() -> (s: InferenceSchedule)
        ensures
            s@.started_at is None,
            s@.last_due is None,
    {
        InferenceSchedule { started_at: None, last_due: None }
    }
}

/// Availability of the AI at `now` for a schedule started at `started`.
pub open spec fn availability_at(started: Option<Timestamp>, now: Timestamp) -> AiAvailability {
    match started {
        Some(x) => if now@ - x@ < PREPARATION_SECONDS * NANOS_PER_SEC {
            AiAvailability::Preparing
        } else {
            AiAvailability::Available
        },
        None => AiAvailability::NoData,
    }
}

/// Whether an inference is due at `now`, and the schedule afterwards.
pub open spec fn take_due_step(s: ScheduleState, now: Timestamp) -> (ScheduleState, bool) {
    if availability_at(s.started_at, now) != AiAvailability::Available {
        (s, false)
    } else if s.last_due matches Some(x) && now@ - x@ < INFERENCE_INTERVAL_SECONDS * NANOS_PER_SEC {
        (s, false)
    } else {
        (ScheduleState { last_due: Some(now), ..s }, true)
    }
}

impl InferenceSchedule {
    pub fn start(&mut self, at: Timestamp)
        ensures
            final(self)@.started_at == Some(at),
            final(self)@.last_due is None,
    {
        self.started_at = Some(at);
        self.last_due = None;
    }

    pub fn availability(&self, now: Timestamp) -> (a: AiAvailability)
        ensures
            a == availability_at(self@.started_at, now),
    {
        match self.started_at {
            Some(x) => {
                if now.nanos_since(&x) < PREPARATION_SECONDS as i128 * 1_000_000_000 {
                    AiAvailability::Preparing
                } else {
                    AiAvailability::Available
                }
            },
            None => AiAvailability::NoData,
        }
    }

    /// Claims the inference slot at `now` if one is due.
    pub fn take_due(&mut self, now: Timestamp) -> (due: bool)
        ensures
            final(self)@ == take_due_step(old(self)@, now).0,
            due == take_due_step(old(self)@, now).1,
    {
        if self.availability(now) != AiAvailability::Available {
            return false;
        }
        match self.last_due {
            Some(x) => {
                if now.nanos_since(&x) < INFERENCE_INTERVAL_SECONDS as i128 * 1_000_000_000 {
                    return false;
                }
            },
            None => {},
        }
        self.last_due = Some(now);
        true
    }
}

/// Nothing is due during the first minute after the start.
pub proof fn law_no_inference_while_preparing(s: ScheduleState, at: Timestamp, now: Timestamp)
    requires
        s.started_at == Some(at),
        now@ - at@ < PREPARATION_SECONDS * NANOS_PER_SEC,
    ensures
        take_due_step(s, now) == (s, false),
{
}

/// After an inference at `now`, the next is due no sooner than five seconds
/// later.
pub proof fn law_inference_period(s: ScheduleState, now: Timestamp, later: Timestamp)
    requires
        take_due_step(s, now).1,
        later@ - now@ < INFERENCE_INTERVAL_SECONDS * NANOS_PER_SEC,
    ensures
        !take_due_step(take_due_step(s, now).0, later).1,
{
}

#[derive(Debug, Clone, Copy, PartialEq, Eq, Structural)]
pub enum NotificationKind {
    LightChange,
    LargeChange,
    Recovery,
}

/// Where a displayable AI score lies.
#[derive(Debug, Clone, Copy, PartialEq, Eq, Structural)]
pub enum ScoreBand {
    /// Below 40.
    Low,
    /// From 40 up to, not including, 60.
    Reduced,
    /// 60 or more.
    Normal,
    /// A score that is neither below 60 nor 60 or more (not a number).
    Unusable,
}

#[derive(Debug, Clone, PartialEq, Eq)]
pub struct AiNotification {
    pub kind: NotificationKind,
    pub at: Timestamp,
    pub message: String,
}

pub open spec fn notification_text(kind: NotificationKind) -> Seq<char> {
    match kind {
        NotificationKind::Recovery => "AIコンディションが通常域へ戻りました（走行中の操作は不要です）"@,
        NotificationKind::LargeChange => "通常との差が大きい状態が続いています。故障や安全性を断定するものではありません"@,
        NotificationKind::LightChange => "通常との差がある状態が続いています。故障や安全性を断定するものではありません"@,
    }
}

/// Raises notifications when low scores persist and when they recover.
#[derive(Debug, Clone, Copy, PartialEq, Eq, Structural)]
pub struct NotificationTracker {
    below60: u8,
    below40: u8,
    abnormal: bool,
    last_light: Option<Timestamp>,
    last_large: Option<Timestamp>,
}

/// Runs of scores below 60 and below 40, whether a change was reported
/// without a recovery since, and when each change was last reported.
pub struct TrackerState {
    pub below60: u8,
    pub below40: u8,
    pub abnormal: bool,
    pub last_light: Option<Timestamp>,
    pub last_large: Option<Timestamp>,
}

impl View for NotificationTracker {
    type V = TrackerState;

    closed spec fn view(&self) -> TrackerState {
        TrackerState {
            below60: self.below60,
            below40: self.below40,
            abnormal: self.abnormal,
            last_light: self.last_light,
            last_large: self.last_large,
        }
    }
}

impl Default for NotificationTracker {
    fn default() -> (t: NotificationTracker)
        ensures
            t@ == (TrackerState {
                below60: 0,
                below40: 0,
                abnormal: false,
                last_light: None,
                last_large: None,
            }),
    {
        NotificationTracker {
            below60: 0,
            below40: 0,
            abnormal: false,
            last_light: None,
            last_large: None,
        }
    }
}

pub open spec fn saturating_inc(x: u8) -> u8 {
    if x == 255 {
        255
    } else {
        (x + 1) as u8
    }
}

pub open spec fn suppressed(last: Option<Timestamp>, at: Timestamp) -> bool {
    last matches Some(x) && at@ - x@ < NOTIFICATION_SUPPRESSION_SECONDS * NANOS_PER_SEC
}

/// The tracker after a score in `band` at `at`, and the kind notified.  An
/// unusable score (`None`) changes nothing.
pub open spec fn observe_step(t: TrackerState, band: Option<ScoreBand>, at: Timestamp) -> (
    TrackerState,
    Option<NotificationKind>,
) {
    match band {
        None => (t, None),
        Some(b) => {
            let below60 = if b == ScoreBand::Low || b == ScoreBand::Reduced {
                saturating_inc(t.below60)
            } else {
                0
            };
            let below40 = if b == ScoreBand::Low {
                saturating_inc(t.below40)
            } else {
                0
            };
            let counted = TrackerState { below60, below40, ..t };
            if b == ScoreBand::Normal && t.abnormal {
                (TrackerState { abnormal: false, ..counted }, Some(NotificationKind::Recovery))
            } else if below40 >= 3 {
                if suppressed(t.last_large, at) {
                    (counted, None)
                } else {
                    (
                        TrackerState { last_large: Some(at), abnormal: true, ..counted },
                        Some(NotificationKind::LargeChange),
                    )
                }
            } else if below60 >= 3 {
                if suppressed(t.last_light, at) {
                    (counted, None)
                } else {
                    (
                        TrackerState { last_light: Some(at), abnormal: true, ..counted },
                        Some(NotificationKind::LightChange),
                    )
                }
            } else {
                (counted, None)
            }
        },
    }
}

impl NotificationTracker {
    /// Records a displayable score band (or `None` for a score that is
    /// missing or not confident enough) and returns the notification due.
    pub fn observe(&mut self, band: Option<ScoreBand>, at: Timestamp) -> (n: Option<AiNotification>)
        ensures
            final(self)@ == observe_step(old(self)@, band, at).0,
            match n {
                None => observe_step(old(self)@, band, at).1 is None,
                Some(x) => observe_step(old(self)@, band, at).1 == Some(x.kind) && x.at == at
                    && x.message@ == notification_text(x.kind),
            },
    {
        let b = match band {
            None => {
                return None;
            },
            Some(b) => b,
        };
        self.below60 = if b == ScoreBand::Low || b == ScoreBand::Reduced {
            self.below60.saturating_add(1)
        } else {
            0
        };
        self.below40 = if b == ScoreBand::Low {
            self.below40.saturating_add(1)
        } else {
            0
        };
        if b == ScoreBand::Normal && self.abnormal {
            self.abnormal = false;
            return Some(
                AiNotification {
                    kind: NotificationKind::Recovery,
                    at,
                    message: "AIコンディションが通常域へ戻りました（走行中の操作は不要です）".to_owned(),
                },
            );
        }
        let (kind, last) = if self.below40 >= 3 {
            (NotificationKind::LargeChange, self.last_large)
        } else if self.below60 >= 3 {
            (NotificationKind::LightChange, self.last_light)
        } else {
            return None;
        };
        match last {
            Some(x) => {
                if at.nanos_since(&x) < NOTIFICATION_SUPPRESSION_SECONDS as i128 * 1_000_000_000 {
                    return None;
                }
            },
            None => {},
        }
        let message = match kind {
            NotificationKind::LargeChange => {
                self.last_large = Some(at);
                "通常との差が大きい状態が続いています。故障や安全性を断定するものではありません".to_owned()
            },
            _ => {
                self.last_light = Some(at);
                "通常との差がある状態が続いています。故障や安全性を断定するものではありません".to_owned()
            },
        };
        self.abnormal = true;
        Some(AiNotification { kind, at, message })
    }
}

/// A recovery is only reported after a change was reported, and it clears
/// the abnormal state.
pub proof fn law_recovery_follows_change(t: TrackerState, band: Option<ScoreBand>, at: Timestamp)
    ensures
        observe_step(t, band, at).1 == Some(NotificationKind::Recovery) ==> t.abnormal
            && !observe_step(t, band, at).0.abnormal,
{
}

/// A change of a kind is not reported again within ten minutes.
pub proof fn law_change_suppression(t: TrackerState, band: Option<ScoreBand>, at: Timestamp)
    ensures
        observe_step(t, band, at).1 == Some(NotificationKind::LargeChange) ==> !suppressed(
            t.last_large,
            at,
        ) && observe_step(t, band, at).0.last_large == Some(at),
        observe_step(t, band, at).1 == Some(NotificationKind::LightChange) ==> !suppressed(
            t.last_light,
            at,
        ) && observe_step(t, band, at).0.last_light == Some(at),
{
}

} // verus!
