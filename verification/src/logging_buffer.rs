//! The decisions of a capture run: when the realtime logger writes buffered
//! frames, how it bounds the buffer while the store keeps failing, when
//! receive errors are reported or end the run, and when the connected
//! vehicle is checked again.  The caller receives frames, writes batches and
//! reads the VIN; it hands each outcome to `CaptureLoop`.

use vstd::prelude::*;
use crate::connection::{normalize_vin, normalized_vin};
use crate::realtime::CanFrame;
use crate::text::str_eq;
use crate::time::Duration;

verus! {

/// Frames are written in batches of at most this many.
pub const SAVE_BATCH_SIZE: usize = 128;

/// At most this many frames wait for the store; older ones are dropped.
pub const MAX_BUFFERED_FRAMES: usize = 10_000;

/// Buffered frames are written at least this often, in milliseconds.
pub const FLUSH_INTERVAL_MILLIS: u64 = 500;

/// Receive errors are reported at most this often, in seconds.
pub const RECEIVE_ERROR_INTERVAL_SECS: u64 = 2;

/// A full batch, or half a second since the last write.
pub fn flush_due(buffered: usize, since_last_flush: Duration) -> (b: bool)
    ensures
        b == (buffered >= SAVE_BATCH_SIZE || since_last_flush@ >= FLUSH_INTERVAL_MILLIS
            * 1_000_000),
{
    buffered >= SAVE_BATCH_SIZE || !since_last_flush.lt(&Duration::from_millis(FLUSH_INTERVAL_MILLIS))
}

/// A receive error is reported only if none was in the last two seconds.
pub fn receive_error_due(since_last_report: Duration) -> (b: bool)
    ensures
        b == (since_last_report@ >= RECEIVE_ERROR_INTERVAL_SECS * 1_000_000_000),
{
    !since_last_report.lt(&Duration::from_secs(RECEIVE_ERROR_INTERVAL_SECS))
}

/// Drops the oldest frames beyond the buffer limit and returns how many.
pub fn trim_overflow<T>(buffer: &mut Vec<T>) -> (dropped: usize)
    ensures
        dropped == if old(buffer)@.len() > MAX_BUFFERED_FRAMES {
            old(buffer)@.len() - MAX_BUFFERED_FRAMES
        } else {
            0
        },
        final(buffer)@ == old(buffer)@.subrange(dropped as int, old(buffer)@.len() as int),
{
    if buffer.len() <= MAX_BUFFERED_FRAMES {
        assert(buffer@.subrange(0, buffer@.len() as int) =~= buffer@);
        return 0;
    }
    let dropped = buffer.len() - MAX_BUFFERED_FRAMES;
    let ghost before = buffer@;
    let kept = buffer.split_off(dropped);
    *buffer = kept;
    assert(buffer@ =~= before.subrange(dropped as int, before.len() as int));
    dropped
}

/// After a successful write of `written` frames, the running total.
pub fn record_flush(total_frames: u64, written: usize) -> (t: u64)
    requires
        total_frames + written <= u64::MAX,
    ensures
        t == total_frames + written,
{
    total_frames + written as u64
}

/// The connected vehicle is read again at most this often, in seconds.
pub const IDENTITY_CHECK_INTERVAL_SECS: u64 = 30;

/// This many receive errors in a row end the run as a lost connection.
pub const MAX_CONSECUTIVE_RECEIVE_ERRORS: u16 = 50;

/// Time elapsed from `since` to `now` on the run's clock; zero if the clock
/// reads earlier than `since`.
pub open spec fn elapsed(now: nat, since: nat) -> nat {
    if now >= since { (now - since) as nat } else { 0 }
}

/// State of one capture run.  Times are read from a clock that starts with
/// the run.
pub struct CaptureLoop {
    buffer: Vec<CanFrame>,
    total_frames: u64,
    last_flush: Duration,
    last_receive_error: Option<Duration>,
    consecutive_receive_errors: u16,
    last_identity_check: Duration,
}

pub struct CaptureView {
    /// Frames received and not yet written, oldest first.
    pub buffer: Seq<CanFrame>,
    /// Frames written so far.
    pub total_frames: nat,
    pub last_flush: nat,
    /// When a receive error was last reported; none yet at the start.
    pub last_receive_error: Option<nat>,
    pub consecutive_receive_errors: nat,
    pub last_identity_check: nat,
}

impl View for CaptureLoop {
    type V = CaptureView;

    closed spec fn view(&self) -> CaptureView {
        CaptureView {
            buffer: self.buffer@,
            total_frames: self.total_frames as nat,
            last_flush: self.last_flush@,
            last_receive_error: match self.last_receive_error {
                Some(d) => Some(d@),
                None => None,
            },
            consecutive_receive_errors: self.consecutive_receive_errors as nat,
            last_identity_check: self.last_identity_check@,
        }
    }
}

/// Frames of the run that are written or still waiting.
pub open spec fn accounted(v: CaptureView) -> nat {
    v.total_frames + v.buffer.len()
}

/// What to do after a failed receive.
#[derive(Debug, Clone, Copy, PartialEq, Eq, Structural)]
pub struct ReceiveErrorAction {
    /// Show the error to the user.
    pub report: bool,
    /// Stop the run: the connection is lost.
    pub connection_lost: bool,
}

/// The VIN read from the vehicle does not name the expected vehicle: it
/// is blank or invalid, or it is another valid VIN.
pub open spec fn vehicle_changed(expected: Seq<char>, observed: Seq<char>) -> bool {
    normalized_vin(observed) != Ok::<Option<Seq<char>>, ()>(Some(expected))
}

impl CaptureLoop {
    /// A run starting at `now` with nothing buffered or written.
    pub fn new(now: Duration) -> (c: CaptureLoop)
        ensures
            c@ == (CaptureView {
                buffer: Seq::empty(),
                total_frames: 0,
                last_flush: now@,
                last_receive_error: None,
                consecutive_receive_errors: 0,
                last_identity_check: now@,
            }),
    {
        CaptureLoop {
            buffer: Vec::new(),
            total_frames: 0,
            last_flush: now,
            last_receive_error: None,
            consecutive_receive_errors: 0,
            last_identity_check: now,
        }
    }

    /// Frames waiting to be written, oldest first.
    pub fn pending(&self) -> (p: &[CanFrame])
        ensures
            p@ == self@.buffer,
    {
        self.buffer.as_slice()
    }

    pub fn total_frames(&self) -> (t: u64)
        ensures
            t == self@.total_frames,
    {
        self.total_frames
    }

    /// The vehicle is due to be read again.
    pub fn identity_check_due(&self, now: Duration) -> (b: bool)
        ensures
            b == (elapsed(now@, self@.last_identity_check) >= IDENTITY_CHECK_INTERVAL_SECS
                * 1_000_000_000),
    {
        !now.saturating_sub(&self.last_identity_check).lt(
            &Duration::from_secs(IDENTITY_CHECK_INTERVAL_SECS),
        )
    }

    /// Takes the VIN the vehicle reported (`None` when it reported none or
    /// could not be read) and tells whether the run must stop because
    /// another vehicle is connected.  Otherwise the next check is counted
    /// from `now`.
    pub fn identity_checked(&mut self, now: Duration, expected: Option<&str>, observed: Option<&str>) -> (changed: bool)
        ensures
            changed == (expected matches Some(e) && observed matches Some(o) && vehicle_changed(
                e@,
                o@,
            )),
            changed ==> final(self)@ == old(self)@,
            !changed ==> final(self)@ == (CaptureView { last_identity_check: now@, ..old(self)@ }),
    {
        if let (Some(e), Some(o)) = (expected, observed) {
            let same = match normalize_vin(o) {
                Ok(Some(v)) => str_eq(v.as_str(), e),
                _ => false,
            };
            if !same {
                return true;
            }
        }
        self.last_identity_check = now;
        false
    }

    /// Buffers a received frame; a run of receive errors ends.  Tells
    /// whether the buffer is due to be written.
    pub fn frame_received(&mut self, frame: CanFrame, now: Duration) -> (flush: bool)
        ensures
            final(self)@ == (CaptureView {
                buffer: old(self)@.buffer.push(frame),
                consecutive_receive_errors: 0,
                ..old(self)@
            }),
            accounted(final(self)@) == accounted(old(self)@) + 1,
            flush == (final(self)@.buffer.len() >= SAVE_BATCH_SIZE || elapsed(
                now@,
                old(self)@.last_flush,
            ) >= FLUSH_INTERVAL_MILLIS * 1_000_000),
    {
        self.consecutive_receive_errors = 0;
        self.buffer.push(frame);
        flush_due(self.buffer.len(), now.saturating_sub(&self.last_flush))
    }

    /// Records the outcome of writing the pending frames at `now`: written
    /// frames leave the buffer and are counted, and the new total is
    /// returned; after a failed write they stay buffered.
    pub fn flush_finished(&mut self, saved: bool, now: Duration) -> (total: Option<u64>)
        requires
            old(self)@.total_frames + old(self)@.buffer.len() <= u64::MAX,
        ensures
            saved ==> final(self)@ == (CaptureView {
                buffer: Seq::empty(),
                total_frames: old(self)@.total_frames + old(self)@.buffer.len(),
                last_flush: now@,
                ..old(self)@
            }),
            saved ==> total == Some(final(self)@.total_frames as u64),
            !saved ==> final(self)@ == (CaptureView { last_flush: now@, ..old(self)@ }),
            !saved ==> total is None,
            accounted(final(self)@) == accounted(old(self)@),
    {
        self.last_flush = now;
        if saved {
            self.total_frames = record_flush(self.total_frames, self.buffer.len());
            self.buffer.clear();
            Some(self.total_frames)
        } else {
            None
        }
    }

    /// Counts a failed receive at `now`: it is reported unless another was
    /// reported in the last two seconds, and the run ends at the fiftieth
    /// in a row.
    pub fn receive_failed(&mut self, now: Duration) -> (a: ReceiveErrorAction)
        ensures
            final(self)@.consecutive_receive_errors == if old(self)@.consecutive_receive_errors
                == u16::MAX {
                u16::MAX as nat
            } else {
                old(self)@.consecutive_receive_errors + 1
            },
            a.report == (match old(self)@.last_receive_error {
                None => true,
                Some(t) => elapsed(now@, t) >= RECEIVE_ERROR_INTERVAL_SECS * 1_000_000_000,
            }),
            final(self)@.last_receive_error == if a.report {
                Some(now@)
            } else {
                old(self)@.last_receive_error
            },
            a.connection_lost == (final(self)@.consecutive_receive_errors
                >= MAX_CONSECUTIVE_RECEIVE_ERRORS),
            final(self)@.buffer == old(self)@.buffer,
            final(self)@.total_frames == old(self)@.total_frames,
            final(self)@.last_flush == old(self)@.last_flush,
            final(self)@.last_identity_check == old(self)@.last_identity_check,
    {
        self.consecutive_receive_errors = self.consecutive_receive_errors.saturating_add(1);
        let report = match &self.last_receive_error {
            None => true,
            Some(last) => receive_error_due(now.saturating_sub(last)),
        };
        if report {
            self.last_receive_error = Some(now);
        }
        ReceiveErrorAction {
            report,
            connection_lost: self.consecutive_receive_errors >= MAX_CONSECUTIVE_RECEIVE_ERRORS,
        }
    }

    /// Drops the oldest buffered frames beyond the limit and returns how
    /// many were dropped, so that the loss can be reported.
    pub fn trim_overflow(&mut self) -> (dropped: usize)
        ensures
            dropped == if old(self)@.buffer.len() > MAX_BUFFERED_FRAMES {
                old(self)@.buffer.len() - MAX_BUFFERED_FRAMES
            } else {
                0
            },
            final(self)@ == (CaptureView {
                buffer: old(self)@.buffer.subrange(dropped as int, old(self)@.buffer.len() as int),
                ..old(self)@
            }),
            accounted(final(self)@) + dropped == accounted(old(self)@),
    {
        trim_overflow(&mut self.buffer)
    }
}

} // verus!
