//! Decisions of the self-updater that do not touch the network or the disk:
//! progress reporting, the release asset for this platform, error texts,
//! and checking a downloaded archive against its SHA-256 sidecar.

use vstd::prelude::*;
use crate::text::{
    ascii_lower, chars_of, contains_chars, contains_seq, decimal, is_unicode_whitespace, lower_all,
    lower_chars, push_decimal, push_str, str_eq, string_from_chars,
};

verus! {

#[derive(Clone, Debug, PartialEq, Eq)]
pub enum UpdatePhase {
    Idle,
    Checking,
    Downloading(u8),
    Verifying,
    WaitingForSafeExit,
    Failed(String),
}

#[derive(Clone, Debug)]
pub struct UpdateEvent {
    pub phase: UpdatePhase,
    pub target_version: Option<String>,
    pub notes: Option<String>,
    pub manual: bool,
}

impl UpdatePhase {
    pub open spec fn label_text(self) -> Seq<char> {
        match self {
            UpdatePhase::Idle => "最新"@,
            UpdatePhase::Checking => "更新確認中"@,
            UpdatePhase::Downloading(p) => "ダウンロード中 "@ + decimal(p as nat) + "%"@,
            UpdatePhase::Verifying => "検証中"@,
            UpdatePhase::WaitingForSafeExit => "更新待機中"@,
            UpdatePhase::Failed(_) => "更新失敗"@,
        }
    }

    /// The short state shown next to the version in the header.
    pub fn label(&self) -> (s: String)
        ensures
            s@ == self.label_text(),
    {
        match self {
            UpdatePhase::Idle => "最新".to_owned(),
            UpdatePhase::Checking => "更新確認中".to_owned(),
            UpdatePhase::Downloading(p) => {
                let mut v: Vec<char> = Vec::new();
                push_str(&mut v, "ダウンロード中 ");
                push_decimal(&mut v, *p as u64);
                push_str(&mut v, "%");
                string_from_chars(v.as_slice())
            },
            UpdatePhase::Verifying => "検証中".to_owned(),
            UpdatePhase::WaitingForSafeExit => "更新待機中".to_owned(),
            UpdatePhase::Failed(_) => "更新失敗".to_owned(),
        }
    }
}

/// Window state saved across a restart.
#[derive(Clone, Debug, PartialEq, Eq)]
pub struct RestorableUiState {
    pub page: String,
    pub width: i32,
    pub height: i32,
}

impl Default for RestorableUiState {
    fn default() -> (s: RestorableUiState)
        ensures
            s.page@ == Seq::<char>::empty(),
            s.width == 0,
            s.height == 0,
    {
        RestorableUiState { page: String::new(), width: 0, height: 0 }
    }
}

/// Download progress shown while an archive arrives: whole mebibytes
/// received, capped at 99 until verification takes over.
pub fn download_progress(written: u64) -> (p: u8)
    ensures
        p == if written / 1_048_576 < 99 {
            written / 1_048_576
        } else {
            99
        },
{
    let mib = written / (1024 * 1024);
    if mib < 99 {
        mib as u8
    } else {
        99
    }
}

pub open spec fn marker_for(os: Seq<char>, arch: Seq<char>) -> Seq<char> {
    if os == "windows"@ && arch == "x86_64"@ {
        "windows-x64"@
    } else if os == "macos"@ && arch == "x86_64"@ {
        "macos-x64"@
    } else if os == "macos"@ && arch == "aarch64"@ {
        "macos-arm64"@
    } else if os == "linux"@ && arch == "x86_64"@ {
        "linux-x64"@
    } else {
        "unsupported-platform"@
    }
}

/// The marker in the names of the release archives built for the given
/// operating system and CPU architecture.
pub fn platform_marker_for(os: &str, arch: &str) -> (m: &'static str)
    ensures
        m@ == marker_for(os@, arch@),
{
    if str_eq(os, "windows") && str_eq(arch, "x86_64") {
        "windows-x64"
    } else if str_eq(os, "macos") && str_eq(arch, "x86_64") {
        "macos-x64"
    } else if str_eq(os, "macos") && str_eq(arch, "aarch64") {
        "macos-arm64"
    } else if str_eq(os, "linux") && str_eq(arch, "x86_64") {
        "linux-x64"
    } else {
        "unsupported-platform"
    }
}

pub open spec fn rate_limited(error: Seq<char>) -> bool {
    contains_seq(error, "429"@) || contains_seq(lower_all(error), "rate limit"@)
}

pub open spec fn friendly_text(error: Seq<char>) -> Seq<char> {
    if rate_limited(error) {
        "GitHubの更新確認回数制限に達しました。後で再試行します"@
    } else {
        "更新サービスへ接続できません: "@ + error
    }
}

/// What the user is told when the update service fails.
pub fn friendly_error(error: &str) -> (m: String)
    ensures
        m@ == friendly_text(error@),
{
    let chars = chars_of(error);
    let lower = lower_chars(chars.as_slice());
    let code = chars_of("429");
    let phrase = chars_of("rate limit");
    if contains_chars(chars.as_slice(), code.as_slice()) || contains_chars(
        lower.as_slice(),
        phrase.as_slice(),
    ) {
        "GitHubの更新確認回数制限に達しました。後で再試行します".to_owned()
    } else {
        let mut v: Vec<char> = Vec::new();
        push_str(&mut v, "更新サービスへ接続できません: ");
        push_str(&mut v, error);
        string_from_chars(v.as_slice())
    }
}

#[derive(Clone, Debug, PartialEq, Eq, Structural)]
pub enum DigestError {
    /// The sidecar does not start with 64 hexadecimal digits.
    MalformedSidecar,
    /// The archive's digest differs from the expected one.
    Mismatch,
}

impl DigestError {
    pub open spec fn message_text(self) -> Seq<char> {
        match self {
            DigestError::MalformedSidecar => "SHA-256ファイルが不正です"@,
            DigestError::Mismatch => "更新ファイルのSHA-256が一致しません。適用を拒否しました"@,
        }
    }

    pub fn message(&self) -> (m: String)
        ensures
            m@ == self.message_text(),
    {
        match self {
            DigestError::MalformedSidecar => "SHA-256ファイルが不正です".to_owned(),
            DigestError::Mismatch => "更新ファイルのSHA-256が一致しません。適用を拒否しました".to_owned(),
        }
    }
}

pub open spec fn is_hex_digit(c: char) -> bool {
    ('0' <= c <= '9') || ('a' <= c <= 'f') || ('A' <= c <= 'F')
}

/// Index of the first character at or after `i` that is (when `ws`) or is
/// not (when `!ws`) white space.
pub open spec fn skip_while(s: Seq<char>, i: int, ws: bool) -> int
    decreases s.len() - i,
{
    if 0 <= i < s.len() && is_unicode_whitespace(s[i]) == ws {
        skip_while(s, i + 1, ws)
    } else {
        i
    }
}

/// The first white-space separated word of a sidecar file.
pub open spec fn first_word(s: Seq<char>) -> Seq<char> {
    let start = skip_while(s, 0, true);
    s.subrange(start, skip_while(s, start, false))
}

/// The two lowercase hexadecimal digits of each byte.
pub open spec fn hex_of(bytes: Seq<u8>) -> Seq<char>
    decreases bytes.len(),
{
    if bytes.len() == 0 {
        Seq::empty()
    } else {
        hex_of(bytes.drop_last()) + seq![
            hex_digit((bytes.last() / 16) as int),
            hex_digit((bytes.last() % 16) as int),
        ]
    }
}

pub open spec fn hex_digit(d: int) -> char {
    if d < 10 {
        (48 + d) as char
    } else {
        (87 + d) as char
    }
}

/// Result of checking a computed digest against a sidecar: the sidecar's
/// first word must be 64 hexadecimal digits and equal, ignoring case, to the
/// digest written in hexadecimal.
pub open spec fn digest_check(actual: Seq<u8>, sidecar: Seq<char>) -> Result<(), DigestError> {
    let expected = first_word(sidecar);
    if expected.len() == 0 || expected.len() != 64 || !(forall|i: int|
        0 <= i < expected.len() ==> is_hex_digit(#[trigger] expected[i])) {
        Err(DigestError::MalformedSidecar)
    } else if lower_all(hex_of(actual)) != lower_all(expected) {
        Err(DigestError::Mismatch)
    } else {
        Ok(())
    }
}

fn skip_run(s: &[char], i: usize, ws: bool) -> (j: usize)
    requires
        i <= s@.len(),
    ensures
        j == skip_while(s@, i as int, ws),
        i <= j <= s@.len(),
{
    let mut j = i;
    while j < s.len() && crate::text::is_whitespace(s[j]) == ws
        invariant
            i <= j <= s@.len(),
            skip_while(s@, j as int, ws) == skip_while(s@, i as int, ws),
        decreases s@.len() - j,
    {
        j = j + 1;
    }
    j
}

fn push_hex(out: &mut Vec<char>, bytes: &[u8])
    ensures
        final(out)@ == old(out)@ + hex_of(bytes@),
{
    let ghost start = out@;
    let mut i: usize = 0;
    while i < bytes.len()
        invariant
            i <= bytes@.len(),
            out@ == start + hex_of(bytes@.take(i as int)),
        decreases bytes.len() - i,
    {
        let b = bytes[i];
        let hi = b / 16;
        let lo = b % 16;
        out.push(if hi < 10 {
            (48u8 + hi) as char
        } else {
            (87u8 + hi) as char
        });
        out.push(if lo < 10 {
            (48u8 + lo) as char
        } else {
            (87u8 + lo) as char
        });
        assert(bytes@.take(i + 1).drop_last() =~= bytes@.take(i as int));
        assert(out@ =~= start + hex_of(bytes@.take(i + 1)));
        i = i + 1;
    }
    assert(bytes@.take(bytes@.len() as int) =~= bytes@);
}

/// The SHA-256 digest of the bytes.
pub uninterp spec fn sha256_of(data: Seq<u8>) -> Seq<u8>;

/// `sha2::Sha256::digest`: the 32-byte SHA-256 digest of `data`; the digest
/// is a function of the bytes alone, and nothing more is claimed of it.
#[verifier::external_body]
fn sha256(data: &[u8]) -> (d: Vec<u8>)
    ensures
        d@ == sha256_of(data@),
        d@.len() == 32,
{
    <sha2::Sha256 as sha2::Digest>::digest(data).to_vec()
}

/// Checks a downloaded archive against its SHA-256 sidecar file.
pub fn verify_archive(archive: &[u8], sidecar: &str) -> (r: Result<(), DigestError>)
    ensures
        r == digest_check(sha256_of(archive@), sidecar@),
{
    let digest = sha256(archive);
    check_digest(digest.as_slice(), sidecar)
}

/// Checks the SHA-256 digest of a downloaded archive against its sidecar.
pub fn check_digest(actual: &[u8], sidecar: &str) -> (r: Result<(), DigestError>)
    ensures
        r == digest_check(actual@, sidecar@),
{
    let s = chars_of(sidecar);
    let start = skip_run(s.as_slice(), 0, true);
    let end = skip_run(s.as_slice(), start, false);
    let mut expected: Vec<char> = Vec::new();
    let mut k = start;
    while k < end
        invariant
            start <= k <= end <= s@.len(),
            expected@ == s@.subrange(start as int, k as int),
        decreases end - k,
    {
        expected.push(s[k]);
        assert(expected@ =~= s@.subrange(start as int, k + 1));
        k = k + 1;
    }
    if expected.len() != 64 {
        return Err(DigestError::MalformedSidecar);
    }
    assert(expected@ == first_word(sidecar@));
    let mut i: usize = 0;
    while i < expected.len()
        invariant
            i <= expected@.len(),
            expected@ == first_word(sidecar@),
            forall|j: int| 0 <= j < i ==> is_hex_digit(#[trigger] expected@[j]),
        decreases expected.len() - i,
    {
        let c = expected[i];
        if !(('0' <= c && c <= '9') || ('a' <= c && c <= 'f') || ('A' <= c && c <= 'F')) {
            assert(!is_hex_digit(expected@[i as int]));
            return Err(DigestError::MalformedSidecar);
        }
        i = i + 1;
    }
    let mut hex: Vec<char> = Vec::new();
    push_hex(&mut hex, actual);
    assert(hex@ =~= hex_of(actual@));
    let a = lower_chars(hex.as_slice());
    let b = lower_chars(expected.as_slice());
    if !crate::text::seq_eq(a.as_slice(), b.as_slice()) {
        return Err(DigestError::Mismatch);
    }
    Ok(())
}

/// Seconds shown before a staged update is applied.
pub const RESTART_COUNTDOWN_SECONDS: u8 = 5;

/// Timer ticks, of 200 ms each, per second of the countdown.
pub const TICKS_PER_SECOND: u8 = 5;

/// The countdown before a staged update is applied at a safe moment: the
/// seconds left while it runs, and the ticks counted in the current second.
pub struct RestartCountdown {
    seconds: Option<u8>,
    ticks: u8,
}

impl View for RestartCountdown {
    type V = (Option<u8>, u8);

    closed spec fn view(&self) -> (Option<u8>, u8) {
        (self.seconds, self.ticks)
    }
}

/// What the timer does after one tick of the countdown.
#[derive(Debug, Clone, Copy, PartialEq, Eq, Structural)]
pub enum CountdownAction {
    /// No countdown runs.
    Nothing,
    /// The countdown runs; this many seconds are left.
    Show(u8),
    /// A vehicle connected, so the countdown stopped.
    Cancelled,
    /// The countdown reached zero: apply the staged update, if any.
    Apply,
}

/// The countdown after one tick, and what to do.
pub open spec fn tick_step(c: (Option<u8>, u8), vehicle_connected: bool) -> (
    (Option<u8>, u8),
    CountdownAction,
) {
    match c.0 {
        None => (c, CountdownAction::Nothing),
        Some(v) => if vehicle_connected {
            ((None, c.1), CountdownAction::Cancelled)
        } else if v > 0 {
            if c.1 + 1 >= TICKS_PER_SECOND {
                ((Some((v - 1) as u8), 0), CountdownAction::Show(v))
            } else {
                ((Some(v), (c.1 + 1) as u8), CountdownAction::Show(v))
            }
        } else {
            (c, CountdownAction::Apply)
        },
    }
}

impl RestartCountdown {
    #[verifier::type_invariant]
    closed spec fn ticks_below_a_second(self) -> bool {
        self.ticks < TICKS_PER_SECOND
    }

    /// No countdown runs.
    pub fn new() -> (c: RestartCountdown)
        ensures
            c@ == (None::<u8>, 0u8),
    {
        RestartCountdown { seconds: None, ticks: 0 }
    }

    /// An update event: once an update waits for a safe exit and no vehicle
    /// is connected, the countdown starts over from five seconds.
    pub fn on_event(&mut self, phase: &UpdatePhase, vehicle_connected: bool) -> (started: bool)
        ensures
            started == (*phase is WaitingForSafeExit && !vehicle_connected),
            started ==> final(self)@ == (Some(RESTART_COUNTDOWN_SECONDS), 0u8),
            !started ==> final(self)@ == old(self)@,
    {
        let started = match phase {
            UpdatePhase::WaitingForSafeExit => !vehicle_connected,
            _ => false,
        };
        if started {
            *self = RestartCountdown { seconds: Some(RESTART_COUNTDOWN_SECONDS), ticks: 0 };
        }
        started
    }

    /// One 200 ms tick: a connected vehicle stops the countdown; otherwise
    /// every fifth tick takes a second off, and at zero the update is due.
    pub fn tick(&mut self, vehicle_connected: bool) -> (a: CountdownAction)
        ensures
            (final(self)@, a) == tick_step(old(self)@, vehicle_connected),
    {
        proof {
            use_type_invariant(&*self);
        }
        match self.seconds {
            None => CountdownAction::Nothing,
            Some(v) => {
                if vehicle_connected {
                    self.seconds = None;
                    CountdownAction::Cancelled
                } else if v > 0 {
                    let t = self.ticks + 1;
                    if t >= TICKS_PER_SECOND {
                        self.ticks = 0;
                        self.seconds = Some(v - 1);
                    } else {
                        self.ticks = t;
                    }
                    CountdownAction::Show(v)
                } else {
                    CountdownAction::Apply
                }
            },
        }
    }

    /// Applying the update failed: the countdown stops.
    pub fn apply_failed(&mut self)
        ensures
            final(self)@ == (None::<u8>, old(self)@.1),
    {
        proof {
            use_type_invariant(&*self);
        }
        self.seconds = None;
    }
}

impl CountdownAction {
    pub open spec fn label_text(self) -> Option<Seq<char>> {
        match self {
            CountdownAction::Nothing => None,
            CountdownAction::Show(v) => Some(decimal(v as nat) + "秒後に再起動"@),
            CountdownAction::Cancelled => Some("更新待機中"@),
            CountdownAction::Apply => Some("更新適用中"@),
        }
    }

    /// The text the update indicator shows after this action, if it changes.
    pub fn label(&self) -> (s: Option<String>)
        ensures
            match s {
                Some(t) => self.label_text() == Some(t@),
                None => self.label_text() is None,
            },
    {
        match self {
            CountdownAction::Nothing => None,
            CountdownAction::Show(v) => {
                let mut c: Vec<char> = Vec::new();
                push_decimal(&mut c, *v as u64);
                push_str(&mut c, "秒後に再起動");
                Some(string_from_chars(c.as_slice()))
            },
            CountdownAction::Cancelled => Some("更新待機中".to_owned()),
            CountdownAction::Apply => Some("更新適用中".to_owned()),
        }
    }
}

/// Ticks left before a running countdown asks for the update: five per
/// remaining second, less those already counted in the current one.
pub open spec fn ticks_left(c: (Option<u8>, u8)) -> int {
    match c.0 {
        Some(v) => if v == 0 {
            0
        } else {
            v * TICKS_PER_SECOND - c.1
        },
        None => 0,
    }
}

/// With no vehicle connected, every tick of a running countdown brings the
/// update one tick closer and shows the seconds left, and the update is
/// asked for exactly when no tick is left; a started countdown therefore
/// asks after five seconds of ticks.
pub proof fn law_countdown_applies_after_five_seconds(c: (Option<u8>, u8))
    requires
        c.0 is Some,
        c.1 < TICKS_PER_SECOND,
    ensures
        ticks_left((Some(RESTART_COUNTDOWN_SECONDS), 0u8)) == 25,
        tick_step(c, false).1 == CountdownAction::Apply <==> ticks_left(c) == 0,
        ticks_left(c) > 0 ==> tick_step(c, false).1 == CountdownAction::Show(c.0->0)
            && tick_step(c, false).0.0 is Some && tick_step(c, false).0.1 < TICKS_PER_SECOND
            && ticks_left(tick_step(c, false).0) == ticks_left(c) - 1,
{
}

} // verus!
