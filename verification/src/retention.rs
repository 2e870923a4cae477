//! Compaction of old raw CAN frames into one-second buckets.
//!
//! Frames of one signal within one second collapse into a bucket that keeps
//! the first and last payload, the byte-wise smallest and largest payload,
//! the number of frames and how often the payload changed.  Buckets come out
//! ordered by key, as the storage layer writes them.

use vstd::prelude::*;
use crate::text::str_eq;
use crate::time::{MAX_TIMESTAMP_NANOS, MIN_TIMESTAMP_NANOS, NANOS_PER_DAY, NANOS_PER_SEC, Timestamp, timestamp_in_range};

verus! {

/// Raw frames older than this many days are compacted by default.
pub const DEFAULT_RAW_RETENTION_DAYS: i128 = 14;

/// Frames compacted per maintenance pass by default.
pub const DEFAULT_MAX_FRAMES_PER_RUN: usize = 50_000;

/// When raw frames become eligible for compaction, and how many one pass
/// handles.  The retention is a signed span in nanoseconds.
#[derive(Debug, Clone, Copy, PartialEq, Eq, Structural)]
pub struct LogRetentionPolicy {
    pub raw_retention_nanos: i128,
    pub max_frames_per_run: usize,
}

impl Default for LogRetentionPolicy {
    /// Fourteen days, fifty thousand frames per pass.
    fn default() -> (p: LogRetentionPolicy)
        ensures
            p.raw_retention_nanos == DEFAULT_RAW_RETENTION_DAYS * NANOS_PER_DAY,
            p.max_frames_per_run == DEFAULT_MAX_FRAMES_PER_RUN,
    {
        LogRetentionPolicy {
            raw_retention_nanos: DEFAULT_RAW_RETENTION_DAYS * NANOS_PER_DAY,
            max_frames_per_run: DEFAULT_MAX_FRAMES_PER_RUN,
        }
    }
}

#[derive(Debug, Clone, Copy, PartialEq, Eq, Structural)]
pub enum RetentionError {
    /// The retention span must be positive.
    NonPositiveRetention,
    /// A pass must handle at least one frame.
    EmptyBatch,
    /// `now` minus the retention leaves the range of timestamps.
    CutoffOutOfRange,
}

impl LogRetentionPolicy {
    /// Frames received before the returned instant may be compacted.
    pub fn cutoff(self, now: Timestamp) -> (r: Result<Timestamp, RetentionError>)
        ensures
            match r {
                Ok(t) => self.raw_retention_nanos > 0 && self.max_frames_per_run > 0 && t@ == now@
                    - self.raw_retention_nanos,
                Err(RetentionError::NonPositiveRetention) => self.raw_retention_nanos <= 0,
                Err(RetentionError::EmptyBatch) => self.raw_retention_nanos > 0
                    && self.max_frames_per_run == 0,
                Err(RetentionError::CutoffOutOfRange) => self.raw_retention_nanos > 0
                    && self.max_frames_per_run > 0 && !timestamp_in_range(
                    now@ - self.raw_retention_nanos,
                ),
            },
    {
        if self.raw_retention_nanos <= 0 {
            return Err(RetentionError::NonPositiveRetention);
        }
        if self.max_frames_per_run == 0 {
            return Err(RetentionError::EmptyBatch);
        }
        let n = now.bounded();
        if self.raw_retention_nanos > MAX_TIMESTAMP_NANOS - MIN_TIMESTAMP_NANOS {
            return Err(RetentionError::CutoffOutOfRange);
        }
        match Timestamp::from_nanos(n - self.raw_retention_nanos) {
            Some(t) => Ok(t),
            None => Err(RetentionError::CutoffOutOfRange),
        }
    }
}

/// What one compaction pass did.
#[derive(Debug, Clone, Copy, PartialEq, Eq, Structural)]
pub struct LogCompactionReport {
    pub raw_frames_removed: u64,
    pub second_buckets_written: u64,
    pub has_more: bool,
}

/// A stored raw frame, as compaction reads it.
#[derive(Debug, Clone)]
pub struct RawFrame {
    pub sequence_id: i64,
    pub signal_type: String,
    pub can_id: u32,
    pub is_extended: bool,
    pub is_remote: bool,
    pub data: Vec<u8>,
    pub received_at: Timestamp,
}

/// Signal and second that a frame belongs to.
#[derive(Debug, Clone, PartialEq, Eq)]
pub struct BucketKey {
    pub signal_type: String,
    pub can_id: u32,
    pub is_extended: bool,
    pub is_remote: bool,
    pub epoch: i64,
}

/// Everything a bucket keeps of its frames.
#[derive(Debug, Clone, PartialEq, Eq)]
pub struct SecondBucket {
    pub first_data: Vec<u8>,
    pub last_data: Vec<u8>,
    pub min_data: Vec<u8>,
    pub max_data: Vec<u8>,
    pub frame_count: u64,
    pub change_count: u64,
    pub first_received_at: Timestamp,
    pub last_received_at: Timestamp,
}

/// A bucket key with the signal type taken by its characters.
pub struct KeyView {
    pub signal_type: Seq<char>,
    pub can_id: u32,
    pub is_extended: bool,
    pub is_remote: bool,
    pub epoch: int,
}

pub open spec fn key_view(k: BucketKey) -> KeyView {
    KeyView {
        signal_type: k.signal_type@,
        can_id: k.can_id,
        is_extended: k.is_extended,
        is_remote: k.is_remote,
        epoch: k.epoch as int,
    }
}

/// The key of the bucket a frame falls into.
pub open spec fn frame_key(f: RawFrame) -> KeyView {
    KeyView {
        signal_type: f.signal_type@,
        can_id: f.can_id,
        is_extended: f.is_extended,
        is_remote: f.is_remote,
        epoch: f.received_at@ / (NANOS_PER_SEC as int),
    }
}

/// Byte-wise lexicographic order, as `Vec<u8>` compares.
pub open spec fn bytes_lt(a: Seq<u8>, b: Seq<u8>) -> bool
    decreases a.len(),
{
    if a.len() == 0 {
        b.len() > 0
    } else if b.len() == 0 {
        false
    } else if a[0] != b[0] {
        a[0] < b[0]
    } else {
        bytes_lt(a.drop_first(), b.drop_first())
    }
}

/// Lexicographic order of characters by code point, as `String` compares.
pub open spec fn chars_lt(a: Seq<char>, b: Seq<char>) -> bool
    decreases a.len(),
{
    if a.len() == 0 {
        b.len() > 0
    } else if b.len() == 0 {
        false
    } else if a[0] != b[0] {
        a[0] < b[0]
    } else {
        chars_lt(a.drop_first(), b.drop_first())
    }
}

pub open spec fn bool_lt(a: bool, b: bool) -> bool {
    !a && b
}

/// The order of bucket keys: field by field, as derived orderings compare.
pub open spec fn key_lt(a: KeyView, b: KeyView) -> bool {
    ||| chars_lt(a.signal_type, b.signal_type)
    ||| a.signal_type == b.signal_type && a.can_id < b.can_id
    ||| a.signal_type == b.signal_type && a.can_id == b.can_id && bool_lt(
        a.is_extended,
        b.is_extended,
    )
    ||| a.signal_type == b.signal_type && a.can_id == b.can_id && a.is_extended == b.is_extended
        && bool_lt(a.is_remote, b.is_remote)
    ||| a.signal_type == b.signal_type && a.can_id == b.can_id && a.is_extended == b.is_extended
        && a.is_remote == b.is_remote && a.epoch < b.epoch
}

/// The bucket of a single frame.
pub open spec fn bucket_start(f: RawFrame) -> SecondBucket {
    SecondBucket {
        first_data: f.data,
        last_data: f.data,
        min_data: f.data,
        max_data: f.data,
        frame_count: 1,
        change_count: 0,
        first_received_at: f.received_at,
        last_received_at: f.received_at,
    }
}

/// A bucket after one more frame of its second.
pub open spec fn bucket_push(b: SecondBucket, f: RawFrame) -> SecondBucket {
    SecondBucket {
        change_count: (b.change_count + if b.last_data@ != f.data@ {
            1int
        } else {
            0int
        }) as u64,
        last_data: f.data,
        min_data: if bytes_lt(f.data@, b.min_data@) {
            f.data
        } else {
            b.min_data
        },
        max_data: if bytes_lt(b.max_data@, f.data@) {
            f.data
        } else {
            b.max_data
        },
        frame_count: (b.frame_count + 1) as u64,
        last_received_at: f.received_at,
        ..b
    }
}

/// The bucket built from a non-empty run of frames, in order.
pub open spec fn bucket_of(fs: Seq<RawFrame>) -> SecondBucket
    decreases fs.len(),
{
    if fs.len() <= 1 {
        bucket_start(fs[0])
    } else {
        bucket_push(bucket_of(fs.drop_last()), fs.last())
    }
}

/// The frames that fall into the bucket with key `k`, in order.
pub open spec fn frames_with_key(fs: Seq<RawFrame>, k: KeyView) -> Seq<RawFrame>
    decreases fs.len(),
{
    if fs.len() == 0 {
        Seq::empty()
    } else if frame_key(fs.last()) == k {
        frames_with_key(fs.drop_last(), k).push(fs.last())
    } else {
        frames_with_key(fs.drop_last(), k)
    }
}

/// Contents equal: payloads and times by value, counts exactly.
pub open spec fn same_bucket(a: SecondBucket, b: SecondBucket) -> bool {
    &&& a.first_data@ == b.first_data@
    &&& a.last_data@ == b.last_data@
    &&& a.min_data@ == b.min_data@
    &&& a.max_data@ == b.max_data@
    &&& a.frame_count == b.frame_count
    &&& a.change_count == b.change_count
    &&& a.first_received_at == b.first_received_at
    &&& a.last_received_at == b.last_received_at
}

/// `out` holds one bucket per key that occurs in `fs`, in increasing key
/// order, each aggregating exactly the frames with its key.
pub open spec fn aggregates(fs: Seq<RawFrame>, out: Seq<(BucketKey, SecondBucket)>) -> bool {
    &&& forall|a: int, b: int|
        0 <= a < b < out.len() ==> key_lt(key_view(#[trigger] out[a].0), key_view(#[trigger] out[b].0))
    &&& forall|j: int|
        0 <= j < out.len() ==> frames_with_key(fs, key_view(#[trigger] out[j].0)).len() > 0
            && same_bucket(out[j].1, bucket_of(frames_with_key(fs, key_view(out[j].0))))
    &&& forall|i: int|
        0 <= i < fs.len() ==> exists|j: int|
            0 <= j < out.len() && key_view(#[trigger] out[j].0) == frame_key(#[trigger] fs[i])
}

proof fn lemma_chars_lt_order(a: Seq<char>, b: Seq<char>, c: Seq<char>)
    ensures
        !chars_lt(a, a),
        chars_lt(a, b) ==> !chars_lt(b, a),
        chars_lt(a, b) && chars_lt(b, c) ==> chars_lt(a, c),
        a != b ==> chars_lt(a, b) || chars_lt(b, a),
    decreases a.len(),
{
    if a.len() > 0 {
        lemma_chars_lt_order(a.drop_first(), a.drop_first(), a.drop_first());
    }
    if a.len() > 0 && b.len() > 0 {
        if c.len() > 0 {
            lemma_chars_lt_order(a.drop_first(), b.drop_first(), c.drop_first());
        } else {
            lemma_chars_lt_order(a.drop_first(), b.drop_first(), c);
        }
        if a != b && a[0] == b[0] {
            assert(a =~= seq![a[0]] + a.drop_first());
            assert(b =~= seq![b[0]] + b.drop_first());
        }
    } else if a.len() == 0 && b.len() == 0 {
        assert(a =~= b);
    }
}

/// The key order is a strict total order.
pub proof fn lemma_key_lt_order(a: KeyView, b: KeyView, c: KeyView)
    ensures
        !key_lt(a, a),
        key_lt(a, b) ==> !key_lt(b, a),
        key_lt(a, b) && key_lt(b, c) ==> key_lt(a, c),
        a != b ==> key_lt(a, b) || key_lt(b, a),
{
    lemma_chars_lt_order(a.signal_type, b.signal_type, c.signal_type);
    lemma_chars_lt_order(b.signal_type, a.signal_type, c.signal_type);
    lemma_chars_lt_order(a.signal_type, c.signal_type, b.signal_type);
    lemma_chars_lt_order(b.signal_type, c.signal_type, a.signal_type);
}

proof fn lemma_frames_with_key_source(fs: Seq<RawFrame>, k: KeyView)
    ensures
        frames_with_key(fs, k).len() > 0 ==> exists|i: int|
            0 <= i < fs.len() && frame_key(#[trigger] fs[i]) == k,
    decreases fs.len(),
{
    if fs.len() > 0 {
        lemma_frames_with_key_source(fs.drop_last(), k);
        if frames_with_key(fs.drop_last(), k).len() > 0 {
            let i = choose|i: int|
                0 <= i < fs.drop_last().len() && frame_key(#[trigger] fs.drop_last()[i]) == k;
            assert(fs[i] == fs.drop_last()[i]);
        } else if frame_key(fs.last()) == k {
            assert(frame_key(fs[fs.len() - 1]) == k);
        }
    }
}

proof fn lemma_bucket_push_same(a: SecondBucket, b: SecondBucket, f: RawFrame)
    requires
        same_bucket(a, b),
    ensures
        same_bucket(bucket_push(a, f), bucket_push(b, f)),
{
}

/// Sum of the frame counts of the buckets.
pub open spec fn total_frame_count(out: Seq<(BucketKey, SecondBucket)>) -> nat
    decreases out.len(),
{
    if out.len() == 0 {
        0
    } else {
        total_frame_count(out.drop_last()) + out.last().1.frame_count as nat
    }
}

/// Number of frames falling into the buckets with the given keys.
pub open spec fn frames_in_buckets(fs: Seq<RawFrame>, out: Seq<(BucketKey, SecondBucket)>) -> nat
    decreases out.len(),
{
    if out.len() == 0 {
        0
    } else {
        frames_in_buckets(fs, out.drop_last()) + frames_with_key(
            fs,
            key_view(out.last().0),
        ).len()
    }
}

/// How many of the buckets have key `k`.
pub open spec fn key_hits(out: Seq<(BucketKey, SecondBucket)>, k: KeyView) -> nat
    decreases out.len(),
{
    if out.len() == 0 {
        0
    } else {
        key_hits(out.drop_last(), k) + if key_view(out.last().0) == k {
            1nat
        } else {
            0nat
        }
    }
}

proof fn lemma_bucket_of_count(fs: Seq<RawFrame>)
    requires
        0 < fs.len() <= u64::MAX,
    ensures
        bucket_of(fs).frame_count == fs.len(),
    decreases fs.len(),
{
    if fs.len() > 1 {
        lemma_bucket_of_count(fs.drop_last());
    }
}

proof fn lemma_frames_in_buckets_push(
    fs: Seq<RawFrame>,
    f: RawFrame,
    out: Seq<(BucketKey, SecondBucket)>,
)
    ensures
        frames_in_buckets(fs.push(f), out) == frames_in_buckets(fs, out) + key_hits(
            out,
            frame_key(f),
        ),
    decreases out.len(),
{
    assert(fs.push(f).drop_last() =~= fs);
    if out.len() > 0 {
        lemma_frames_in_buckets_push(fs, f, out.drop_last());
    }
}

proof fn lemma_key_hits_one(out: Seq<(BucketKey, SecondBucket)>, j: int)
    requires
        0 <= j < out.len(),
        forall|a: int, b: int|
            0 <= a < b < out.len() ==> key_lt(key_view(#[trigger] out[a].0), key_view(#[trigger] out[b].0)),
    ensures
        key_hits(out, key_view(out[j].0)) == 1,
    decreases out.len(),
{
    let k = key_view(out[j].0);
    let rest = out.drop_last();
    if j == out.len() - 1 {
        assert forall|i: int| 0 <= i < rest.len() implies key_view(#[trigger] rest[i].0) != k by {
            assert(rest[i] == out[i]);
            lemma_key_lt_order(key_view(out[i].0), k, k);
        }
        lemma_key_hits_zero(rest, k);
    } else {
        assert forall|a: int, b: int| 0 <= a < b < rest.len() implies key_lt(
            key_view(#[trigger] rest[a].0),
            key_view(#[trigger] rest[b].0),
        ) by {
            assert(rest[a] == out[a] && rest[b] == out[b]);
        }
        assert(rest[j] == out[j]);
        lemma_key_hits_one(rest, j);
        lemma_key_lt_order(k, key_view(out.last().0), k);
        assert(key_lt(key_view(out[j].0), key_view(out[out.len() - 1].0)));
    }
}

proof fn lemma_key_hits_zero(out: Seq<(BucketKey, SecondBucket)>, k: KeyView)
    requires
        forall|i: int| 0 <= i < out.len() ==> key_view(#[trigger] out[i].0) != k,
    ensures
        key_hits(out, k) == 0,
    decreases out.len(),
{
    if out.len() > 0 {
        let rest = out.drop_last();
        assert forall|i: int| 0 <= i < rest.len() implies key_view(#[trigger] rest[i].0) != k by {
            assert(rest[i] == out[i]);
        }
        lemma_key_hits_zero(rest, k);
        assert(key_view(out[out.len() - 1].0) != k);
    }
}

proof fn lemma_frames_in_buckets_cover(fs: Seq<RawFrame>, out: Seq<(BucketKey, SecondBucket)>)
    requires
        forall|a: int, b: int|
            0 <= a < b < out.len() ==> key_lt(key_view(#[trigger] out[a].0), key_view(#[trigger] out[b].0)),
        forall|i: int|
            0 <= i < fs.len() ==> exists|j: int|
                0 <= j < out.len() && key_view(#[trigger] out[j].0) == frame_key(#[trigger] fs[i]),
    ensures
        frames_in_buckets(fs, out) == fs.len(),
    decreases fs.len(),
{
    if fs.len() == 0 {
        lemma_frames_in_buckets_empty(out);
        assert(fs =~= Seq::<RawFrame>::empty());
    } else {
        let rest = fs.drop_last();
        let f = fs.last();
        assert forall|i: int| 0 <= i < rest.len() implies exists|j: int|
            0 <= j < out.len() && key_view(#[trigger] out[j].0) == frame_key(#[trigger] rest[i]) by {
            assert(rest[i] == fs[i]);
        }
        lemma_frames_in_buckets_cover(rest, out);
        assert(rest.push(f) =~= fs);
        lemma_frames_in_buckets_push(rest, f, out);
        assert(fs[fs.len() - 1] == f);
        let j = choose|j: int| 0 <= j < out.len() && key_view(#[trigger] out[j].0) == frame_key(fs[fs.len() - 1]);
        lemma_key_hits_one(out, j);
        assert(key_hits(out, frame_key(f)) == 1);
        assert(frames_in_buckets(fs, out) == frames_in_buckets(rest, out) + 1);
    }
}

proof fn lemma_frames_in_buckets_empty(out: Seq<(BucketKey, SecondBucket)>)
    ensures
        frames_in_buckets(Seq::empty(), out) == 0,
    decreases out.len(),
{
    if out.len() > 0 {
        lemma_frames_in_buckets_empty(out.drop_last());
    }
}

proof fn lemma_total_matches_runs(fs: Seq<RawFrame>, out: Seq<(BucketKey, SecondBucket)>)
    requires
        fs.len() <= u64::MAX,
        forall|j: int|
            0 <= j < out.len() ==> frames_with_key(fs, key_view(#[trigger] out[j].0)).len() > 0
                && same_bucket(out[j].1, bucket_of(frames_with_key(fs, key_view(out[j].0)))),
    ensures
        total_frame_count(out) == frames_in_buckets(fs, out),
    decreases out.len(),
{
    if out.len() > 0 {
        let rest = out.drop_last();
        assert forall|j: int| 0 <= j < rest.len() implies frames_with_key(
            fs,
            key_view(#[trigger] rest[j].0),
        ).len() > 0 && same_bucket(rest[j].1, bucket_of(frames_with_key(fs, key_view(rest[j].0)))) by {
            assert(rest[j] == out[j]);
        }
        lemma_total_matches_runs(fs, rest);
        let run = frames_with_key(fs, key_view(out[out.len() - 1].0));
        lemma_frames_with_key_len(fs, key_view(out[out.len() - 1].0));
        lemma_bucket_of_count(run);
    }
}

proof fn lemma_frames_with_key_len(fs: Seq<RawFrame>, k: KeyView)
    ensures
        frames_with_key(fs, k).len() <= fs.len(),
    decreases fs.len(),
{
    if fs.len() > 0 {
        lemma_frames_with_key_len(fs.drop_last(), k);
    }
}

/// Compaction loses no frame: the bucket counts add up to the number of
/// frames aggregated.
pub proof fn law_compaction_keeps_every_frame(fs: Seq<RawFrame>, out: Seq<(BucketKey, SecondBucket)>)
    requires
        aggregates(fs, out),
        fs.len() <= u64::MAX,
    ensures
        total_frame_count(out) == fs.len(),
{
    lemma_total_matches_runs(fs, out);
    lemma_frames_in_buckets_cover(fs, out);
}

/// How often the payload changed along a run of frames: the adjacent pairs
/// of frames whose payloads differ.
pub open spec fn payload_changes(run: Seq<RawFrame>) -> nat
    decreases run.len(),
{
    if run.len() <= 1 {
        0
    } else {
        payload_changes(run.drop_last()) + if run[run.len() - 1].data@ != run[run.len()
            - 2].data@ {
            1nat
        } else {
            0nat
        }
    }
}

proof fn lemma_bytes_lt_order(a: Seq<u8>, b: Seq<u8>, c: Seq<u8>)
    ensures
        !bytes_lt(a, a),
        bytes_lt(a, b) ==> !bytes_lt(b, a),
        bytes_lt(a, b) && bytes_lt(b, c) ==> bytes_lt(a, c),
        a != b ==> bytes_lt(a, b) || bytes_lt(b, a),
    decreases a.len(),
{
    if a.len() > 0 {
        lemma_bytes_lt_order(a.drop_first(), a.drop_first(), a.drop_first());
    }
    if a.len() > 0 && b.len() > 0 {
        if c.len() > 0 {
            lemma_bytes_lt_order(a.drop_first(), b.drop_first(), c.drop_first());
        } else {
            lemma_bytes_lt_order(a.drop_first(), b.drop_first(), c);
        }
        if a != b && a[0] == b[0] {
            assert(a =~= seq![a[0]] + a.drop_first());
            assert(b =~= seq![b[0]] + b.drop_first());
        }
    } else if a.len() == 0 && b.len() == 0 {
        assert(a =~= b);
    }
}

/// What a bucket says of the run of frames it was built from.
pub open spec fn summarises(b: SecondBucket, run: Seq<RawFrame>) -> bool {
    let n = run.len() as int;
    &&& b.frame_count == n
    &&& b.change_count == payload_changes(run)
    &&& b.first_data@ == run[0].data@ && b.first_received_at == run[0].received_at
    &&& b.last_data@ == run[n - 1].data@ && b.last_received_at == run[n - 1].received_at
    &&& exists|i: int| 0 <= i < n && b.min_data@ == (#[trigger] run[i]).data@
    &&& exists|i: int| 0 <= i < n && b.max_data@ == (#[trigger] run[i]).data@
    &&& forall|i: int|
        0 <= i < n ==> !bytes_lt((#[trigger] run[i]).data@, b.min_data@) && !bytes_lt(
            b.max_data@,
            run[i].data@,
        )
}

proof fn lemma_bucket_of_summarises(run: Seq<RawFrame>)
    requires
        0 < run.len() <= u64::MAX,
    ensures
        summarises(bucket_of(run), run),
    decreases run.len(),
{
    if run.len() > 1 {
        let pre = run.drop_last();
        lemma_bucket_of_summarises(pre);
        let b = bucket_of(pre);
        let f = run.last();
        let n = run.len() as int;
        assert(payload_changes(run) <= n - 1) by {
            lemma_payload_changes_bound(run);
        }
        assert(pre[n - 2] == run[n - 2]);
        let mi = choose|i: int| 0 <= i < n - 1 && b.min_data@ == (#[trigger] pre[i]).data@;
        let ma = choose|i: int| 0 <= i < n - 1 && b.max_data@ == (#[trigger] pre[i]).data@;
        let nb = bucket_of(run);
        assert(nb == bucket_push(b, f));
        assert(run[n - 1] == f);
        assert(nb.frame_count == n);
        assert(nb.change_count == payload_changes(run));
        if bytes_lt(f.data@, b.min_data@) {
            assert(nb.min_data@ == run[n - 1].data@);
        } else {
            assert(run[mi] == pre[mi]);
            assert(nb.min_data@ == run[mi].data@);
        }
        if bytes_lt(b.max_data@, f.data@) {
            assert(nb.max_data@ == run[n - 1].data@);
        } else {
            assert(run[ma] == pre[ma]);
            assert(nb.max_data@ == run[ma].data@);
        }
        assert forall|i: int| 0 <= i < n implies !bytes_lt((#[trigger] run[i]).data@, nb.min_data@)
            && !bytes_lt(nb.max_data@, run[i].data@) by {
            lemma_bytes_lt_order(run[i].data@, f.data@, b.min_data@);
            lemma_bytes_lt_order(b.max_data@, f.data@, run[i].data@);
            lemma_bytes_lt_order(f.data@, f.data@, f.data@);
            if i < n - 1 {
                assert(run[i] == pre[i]);
                lemma_bytes_lt_order(run[i].data@, b.min_data@, f.data@);
                lemma_bytes_lt_order(f.data@, b.max_data@, run[i].data@);
            }
        }
        assert(run[0] == pre[0]);
    } else {
        let f = run[0];
        lemma_bytes_lt_order(f.data@, f.data@, f.data@);
        assert(bucket_of(run).min_data@ == run[0].data@);
        assert(bucket_of(run).max_data@ == run[0].data@);
    }
}

proof fn lemma_payload_changes_bound(run: Seq<RawFrame>)
    requires
        run.len() > 0,
    ensures
        payload_changes(run) <= run.len() - 1,
    decreases run.len(),
{
    if run.len() > 1 {
        lemma_payload_changes_bound(run.drop_last());
    }
}

/// Every bucket of a compaction summarises exactly the frames of its signal
/// and second, in the order they came: it counts them, counts the adjacent
/// pairs whose payloads differ, keeps the first and last payload and time,
/// and keeps a smallest and a largest payload, each one of the frames' own.
pub proof fn law_buckets_summarise_their_frames(fs: Seq<RawFrame>, out: Seq<(BucketKey, SecondBucket)>)
    requires
        aggregates(fs, out),
        fs.len() <= u64::MAX,
    ensures
        forall|j: int|
            0 <= j < out.len() ==> summarises(
                (#[trigger] out[j]).1,
                frames_with_key(fs, key_view(out[j].0)),
            ),
{
    assert forall|j: int| 0 <= j < out.len() implies summarises(
        (#[trigger] out[j]).1,
        frames_with_key(fs, key_view(out[j].0)),
    ) by {
        let run = frames_with_key(fs, key_view(out[j].0));
        lemma_frames_with_key_len(fs, key_view(out[j].0));
        lemma_bucket_of_summarises(run);
        let b = bucket_of(run);
        let n = run.len() as int;
        let mi = choose|i: int| 0 <= i < n && b.min_data@ == (#[trigger] run[i]).data@;
        let ma = choose|i: int| 0 <= i < n && b.max_data@ == (#[trigger] run[i]).data@;
        assert(out[j].1.min_data@ == run[mi].data@);
        assert(out[j].1.max_data@ == run[ma].data@);
    }
}

fn copy_bytes(v: &Vec<u8>) -> (r: Vec<u8>)
    ensures
        r@ == v@,
{
    let r = v.clone();
    assert(r@ =~= v@);
    r
}

fn bytes_less(a: &[u8], b: &[u8]) -> (r: bool)
    ensures
        r == bytes_lt(a@, b@),
{
    let mut i: usize = 0;
    assert(a@.subrange(0, a@.len() as int) =~= a@);
    assert(b@.subrange(0, b@.len() as int) =~= b@);
    while i < a.len() && i < b.len() && a[i] == b[i]
        invariant
            i <= a@.len(),
            i <= b@.len(),
            bytes_lt(a@, b@) == bytes_lt(
                a@.subrange(i as int, a@.len() as int),
                b@.subrange(i as int, b@.len() as int),
            ),
        decreases a@.len() - i,
    {
        assert(a@.subrange(i as int, a@.len() as int).drop_first() =~= a@.subrange(
            i + 1,
            a@.len() as int,
        ));
        assert(b@.subrange(i as int, b@.len() as int).drop_first() =~= b@.subrange(
            i + 1,
            b@.len() as int,
        ));
        i = i + 1;
    }
    if i == a.len() {
        i < b.len()
    } else if i == b.len() {
        false
    } else {
        a[i] < b[i]
    }
}

fn chars_less(a: &[char], b: &[char]) -> (r: bool)
    ensures
        r == chars_lt(a@, b@),
{
    let mut i: usize = 0;
    assert(a@.subrange(0, a@.len() as int) =~= a@);
    assert(b@.subrange(0, b@.len() as int) =~= b@);
    while i < a.len() && i < b.len() && a[i] == b[i]
        invariant
            i <= a@.len(),
            i <= b@.len(),
            chars_lt(a@, b@) == chars_lt(
                a@.subrange(i as int, a@.len() as int),
                b@.subrange(i as int, b@.len() as int),
            ),
        decreases a@.len() - i,
    {
        assert(a@.subrange(i as int, a@.len() as int).drop_first() =~= a@.subrange(
            i + 1,
            a@.len() as int,
        ));
        assert(b@.subrange(i as int, b@.len() as int).drop_first() =~= b@.subrange(
            i + 1,
            b@.len() as int,
        ));
        i = i + 1;
    }
    if i == a.len() {
        i < b.len()
    } else if i == b.len() {
        false
    } else {
        a[i] < b[i]
    }
}

fn key_less(a: &BucketKey, b: &BucketKey) -> (r: bool)
    ensures
        r == key_lt(key_view(*a), key_view(*b)),
{
    let sa = crate::text::chars_of(a.signal_type.as_str());
    let sb = crate::text::chars_of(b.signal_type.as_str());
    if chars_less(sa.as_slice(), sb.as_slice()) {
        return true;
    }
    if !str_eq(a.signal_type.as_str(), b.signal_type.as_str()) {
        return false;
    }
    if a.can_id != b.can_id {
        return a.can_id < b.can_id;
    }
    if a.is_extended != b.is_extended {
        return !a.is_extended && b.is_extended;
    }
    if a.is_remote != b.is_remote {
        return !a.is_remote && b.is_remote;
    }
    a.epoch < b.epoch
}

fn key_same(a: &BucketKey, b: &BucketKey) -> (r: bool)
    ensures
        r == (key_view(*a) == key_view(*b)),
{
    str_eq(a.signal_type.as_str(), b.signal_type.as_str()) && a.can_id == b.can_id
        && a.is_extended == b.is_extended && a.is_remote == b.is_remote && a.epoch == b.epoch
}

fn key_of_frame(f: &RawFrame) -> (k: BucketKey)
    ensures
        key_view(k) == frame_key(*f),
{
    BucketKey {
        signal_type: f.signal_type.clone(),
        can_id: f.can_id,
        is_extended: f.is_extended,
        is_remote: f.is_remote,
        epoch: f.received_at.epoch_second(),
    }
}

fn new_bucket(f: &RawFrame) -> (b: SecondBucket)
    ensures
        same_bucket(b, bucket_start(*f)),
{
    SecondBucket {
        first_data: copy_bytes(&f.data),
        last_data: copy_bytes(&f.data),
        min_data: copy_bytes(&f.data),
        max_data: copy_bytes(&f.data),
        frame_count: 1,
        change_count: 0,
        first_received_at: f.received_at,
        last_received_at: f.received_at,
    }
}

fn push_frame(b: SecondBucket, f: &RawFrame) -> (r: SecondBucket)
    requires
        b.frame_count < u64::MAX,
        b.change_count < u64::MAX,
    ensures
        same_bucket(r, bucket_push(b, *f)),
{
    let changed = !crate::text::seq_eq_bytes(b.last_data.as_slice(), f.data.as_slice());
    let min_data = if bytes_less(f.data.as_slice(), b.min_data.as_slice()) {
        copy_bytes(&f.data)
    } else {
        b.min_data
    };
    let max_data = if bytes_less(b.max_data.as_slice(), f.data.as_slice()) {
        copy_bytes(&f.data)
    } else {
        b.max_data
    };
    SecondBucket {
        first_data: b.first_data,
        last_data: copy_bytes(&f.data),
        min_data,
        max_data,
        frame_count: b.frame_count + 1,
        change_count: if changed {
            b.change_count + 1
        } else {
            b.change_count
        },
        first_received_at: b.first_received_at,
        last_received_at: f.received_at,
    }
}

/// Groups frames into one-second buckets per signal, ordered by key.
#[verifier::rlimit(50)]
pub fn aggregate(frames: &[RawFrame]) -> (out: Vec<(BucketKey, SecondBucket)>)
    ensures
        aggregates(frames@, out@),
        out@.len() <= frames@.len(),
{
    let mut out: Vec<(BucketKey, SecondBucket)> = Vec::new();
    let mut i: usize = 0;
    while i < frames.len()
        invariant
            i <= frames@.len(),
            aggregates(frames@.take(i as int), out@),
            out@.len() <= i,
            forall|j: int|
                0 <= j < out@.len() ==> (#[trigger] out@[j]).1.frame_count <= i && out@[j].1.change_count
                    <= i,
        decreases frames.len() - i,
    {
        let f = &frames[i];
        let key = key_of_frame(f);
        let ghost fs = frames@.take(i as int);
        let ghost fs2 = frames@.take(i + 1);
        let ghost k = key_view(key);
        assert(fs2.drop_last() =~= fs);
        assert(fs2.last() == *f);
        let mut p: usize = 0;
        while p < out.len() && key_less(&out[p].0, &key)
            invariant
                p <= out@.len(),
                forall|j: int| 0 <= j < p ==> key_lt(key_view(#[trigger] out@[j].0), k),
                k == key_view(key),
            decreases out@.len() - p,
        {
            p = p + 1;
        }
        let ghost before = out@;
        proof {
            assert forall|a: int, b: int|
                0 <= a < before.len() && 0 <= b < before.len() && a != b implies key_view(
                #[trigger] before[a].0,
            ) != key_view(#[trigger] before[b].0) by {
                if a < b {
                    lemma_key_lt_order(key_view(before[a].0), key_view(before[b].0), k);
                } else {
                    lemma_key_lt_order(key_view(before[b].0), key_view(before[a].0), k);
                }
            }
        }
        if p < out.len() && key_same(&out[p].0, &key) {
            let (old_key, old_bucket) = out.remove(p);
            let ghost old_b = old_bucket;
            let bucket = push_frame(old_bucket, f);
            out.insert(p, (old_key, bucket));
            proof {
                assert forall|j: int| 0 <= j < out@.len() && j != p implies out@[j] == before[j] by {}
                assert forall|k2: KeyView| k2 != k implies #[trigger] frames_with_key(fs2, k2)
                    == frames_with_key(fs, k2) by {}
                assert(frames_with_key(fs2, k) == frames_with_key(fs, k).push(*f));
                let run = frames_with_key(fs, k);
                assert(run.push(*f).drop_last() =~= run);
                lemma_bucket_push_same(old_b, bucket_of(run), *f);
                assert forall|a: int, b: int| 0 <= a < b < out@.len() implies key_lt(
                    key_view(#[trigger] out@[a].0),
                    key_view(#[trigger] out@[b].0),
                ) by {
                    assert(key_view(out@[a].0) == key_view(before[a].0));
                    assert(key_view(out@[b].0) == key_view(before[b].0));
                }
                assert forall|j: int| 0 <= j < out@.len() implies frames_with_key(
                    fs2,
                    key_view(#[trigger] out@[j].0),
                ).len() > 0 && same_bucket(
                    out@[j].1,
                    bucket_of(frames_with_key(fs2, key_view(out@[j].0))),
                ) by {
                    if j != p {
                        assert(key_view(before[j].0) != k);
                    }
                }
                assert forall|x: int| 0 <= x < fs2.len() implies exists|j: int|
                    0 <= j < out@.len() && key_view(#[trigger] out@[j].0) == frame_key(
                        #[trigger] fs2[x],
                    ) by {
                    if x < fs.len() {
                        assert(fs2[x] == fs[x]);
                        let j = choose|j: int|
                            0 <= j < before.len() && key_view(#[trigger] before[j].0) == frame_key(
                                fs[x],
                            );
                        assert(key_view(out@[j].0) == key_view(before[j].0));
                    } else {
                        assert(key_view(out@[p as int].0) == frame_key(fs2[x]));
                    }
                }
            }
        } else {
            proof {
                if p < before.len() {
                    lemma_key_lt_order(key_view(before[p as int].0), k, k);
                    assert(key_lt(k, key_view(before[p as int].0)));
                }
                assert forall|j: int| p <= j < before.len() implies key_lt(
                    k,
                    key_view(#[trigger] before[j].0),
                ) by {
                    if j > p {
                        lemma_key_lt_order(k, key_view(before[p as int].0), key_view(before[j].0));
                    }
                }
                assert forall|j: int| 0 <= j < before.len() implies key_view(
                    #[trigger] before[j].0,
                ) != k by {
                    lemma_key_lt_order(k, k, k);
                }
                lemma_frames_with_key_source(fs, k);
                if frames_with_key(fs, k).len() > 0 {
                    let x = choose|x: int| 0 <= x < fs.len() && frame_key(#[trigger] fs[x]) == k;
                    let j = choose|j: int|
                        0 <= j < before.len() && key_view(#[trigger] before[j].0) == frame_key(
                            fs[x],
                        );
                    assert(false);
                }
            }
            let bucket = new_bucket(f);
            out.insert(p, (key, bucket));
            proof {
                assert forall|k2: KeyView| k2 != k implies #[trigger] frames_with_key(fs2, k2)
                    == frames_with_key(fs, k2) by {}
                assert(frames_with_key(fs2, k) =~= seq![*f]);
                assert forall|a: int, b: int| 0 <= a < b < out@.len() implies key_lt(
                    key_view(#[trigger] out@[a].0),
                    key_view(#[trigger] out@[b].0),
                ) by {
                    if b < p {
                        assert(out@[a] == before[a] && out@[b] == before[b]);
                    } else if b == p {
                        assert(out@[a] == before[a]);
                    } else if a == p {
                        assert(out@[b] == before[b - 1]);
                    } else if a < p {
                        assert(out@[a] == before[a] && out@[b] == before[b - 1]);
                    } else {
                        assert(out@[a] == before[a - 1] && out@[b] == before[b - 1]);
                    }
                }
                assert forall|j: int| 0 <= j < out@.len() implies frames_with_key(
                    fs2,
                    key_view(#[trigger] out@[j].0),
                ).len() > 0 && same_bucket(
                    out@[j].1,
                    bucket_of(frames_with_key(fs2, key_view(out@[j].0))),
                ) by {
                    if j < p {
                        assert(out@[j] == before[j]);
                    } else if j > p {
                        assert(out@[j] == before[j - 1]);
                    }
                }
                assert forall|x: int| 0 <= x < fs2.len() implies exists|j: int|
                    0 <= j < out@.len() && key_view(#[trigger] out@[j].0) == frame_key(
                        #[trigger] fs2[x],
                    ) by {
                    if x < fs.len() {
                        assert(fs2[x] == fs[x]);
                        let j = choose|j: int|
                            0 <= j < before.len() && key_view(#[trigger] before[j].0) == frame_key(
                                fs[x],
                            );
                        if j < p {
                            assert(out@[j] == before[j]);
                        } else {
                            assert(out@[j + 1] == before[j]);
                        }
                    } else {
                        assert(key_view(out@[p as int].0) == frame_key(fs2[x]));
                    }
                }
            }
        }
        i = i + 1;
    }
    assert(frames@.take(frames@.len() as int) =~= frames@);
    out
}

} // verus!
