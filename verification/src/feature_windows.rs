//! The shape of the AI feature windows: which seconds of a resampled signal
//! are filled in, and where the fixed-length windows start.  The values
//! themselves are floating point and computed by the caller.

use vstd::prelude::*;

verus! {

pub const AI_FEATURE_SCHEMA_VERSION: &'static str = "ai-window-v1";

/// Seconds in one feature window.
pub const WINDOW_SECONDS: usize = 60;

/// Seconds between the starts of training windows.
pub const TRAINING_STRIDE_SECONDS: usize = 10;

/// Seconds between the starts of inference windows.
pub const INFERENCE_STRIDE_SECONDS: usize = 5;

/// Fewest and most signals a window may hold.
pub const MIN_SIGNALS: usize = 4;

pub const MAX_SIGNALS: usize = 16;

/// Missing seconds filled in a slowly changing signal; others allow fewer.
pub const SLOW_SIGNAL_MAX_GAP: usize = 10;

pub const FAST_SIGNAL_MAX_GAP: usize = 5;

pub open spec fn stride(training: bool) -> int {
    if training {
        TRAINING_STRIDE_SECONDS as int
    } else {
        INFERENCE_STRIDE_SECONDS as int
    }
}

/// How many windows fit into `len` seconds.
pub open spec fn window_count(len: int, training: bool) -> int {
    if len >= WINDOW_SECONDS {
        (len - WINDOW_SECONDS) / stride(training) + 1
    } else {
        0
    }
}

/// The start of every window over `len` resampled seconds: every stride-th
/// second from the first, as long as a whole window fits.
pub fn window_offsets(len: usize, training: bool) -> (r: Vec<usize>)
    ensures
        r@.len() == window_count(len as int, training),
        forall|k: int| 0 <= k < r@.len() ==> #[trigger] r@[k] == k * stride(training),
{
    let step: usize = if training { TRAINING_STRIDE_SECONDS } else { INFERENCE_STRIDE_SECONDS };
    let mut r: Vec<usize> = Vec::new();
    if len < WINDOW_SECONDS {
        return r;
    }
    let last = len - WINDOW_SECONDS;
    let mut offset: usize = 0;
    while offset <= last
        invariant
            step == stride(training),
            last == len - WINDOW_SECONDS,
            offset == r@.len() * step,
            offset <= last + step,
            r@.len() <= last / step + 1,
            forall|k: int| 0 <= k < r@.len() ==> #[trigger] r@[k] == k * step,
        decreases last + step - offset,
    {
        proof {
            let c = r@.len() as int;
            assert((c + 1) * step == c * step + step) by (nonlinear_arith);
            assert(c <= last / step) by (nonlinear_arith)
                requires
                    c * step <= last,
                    step > 0,
                    last >= 0,
                    c >= 0,
            {
                if c > last / step {
                    assert(c >= last / step + 1);
                    assert(c * step >= (last / step + 1) * step);
                    assert((last / step + 1) * step > last);
                }
            }
        }
        r.push(offset);
        offset = offset + step;
    }
    assert(r@.len() == last / step + 1) by (nonlinear_arith)
        requires
            offset == r@.len() * step,
            offset > last,
            r@.len() <= last / step + 1,
            step > 0,
    {
        assert(last / step * step <= last);
    }
    r
}

/// `[begin, end)` is a whole run of missing seconds.
pub open spec fn missing_run(present: Seq<bool>, begin: int, end: int) -> bool {
    &&& 0 <= begin < end <= present.len()
    &&& forall|k: int| begin <= k < end ==> !#[trigger] present[k]
    &&& (begin == 0 || present[begin - 1])
    &&& (end == present.len() || present[end])
}

/// A run that is filled: it follows an observed second and is at most
/// `max_gap` long; interpolation also needs an observed second after it,
/// carrying the last value forward does not.
pub open spec fn fillable(present: Seq<bool>, max_gap: int, forward: bool, begin: int, end: int) -> bool {
    &&& missing_run(present, begin, end)
    &&& end - begin <= max_gap
    &&& begin > 0
    &&& (forward || end < present.len())
}

/// The runs of missing seconds that are filled in, in order.
pub fn fillable_gaps(present: &[bool], max_gap: usize, forward: bool) -> (r: Vec<(usize, usize)>)
    ensures
        forall|k: int|
            0 <= k < r@.len() ==> fillable(present@, max_gap as int, forward, (#[trigger] r@[k]).0 as int, r@[k].1 as int),
        forall|k: int, l: int| 0 <= k < l < r@.len() ==> (#[trigger] r@[k]).1 < (#[trigger] r@[l]).0,
        forall|b: int, e: int|
            fillable(present@, max_gap as int, forward, b, e) ==> exists|k: int|
                0 <= k < r@.len() && #[trigger] r@[k] == (b as usize, e as usize),
{
    let n = present.len();
    let mut r: Vec<(usize, usize)> = Vec::new();
    let mut i: usize = 0;
    while i < n
        invariant
            n == present@.len(),
            i <= n,
            i == 0 || i == n || present@[i - 1] || present@[i as int],
            forall|k: int|
                0 <= k < r@.len() ==> fillable(present@, max_gap as int, forward, (#[trigger] r@[k]).0 as int, r@[k].1 as int),
            forall|k: int| 0 <= k < r@.len() ==> (#[trigger] r@[k]).1 <= i,
            forall|k: int, l: int| 0 <= k < l < r@.len() ==> (#[trigger] r@[k]).1 < (#[trigger] r@[l]).0,
            forall|b: int, e: int|
                fillable(present@, max_gap as int, forward, b, e) && e <= i ==> exists|k: int|
                    0 <= k < r@.len() && #[trigger] r@[k] == (b as usize, e as usize),
        decreases n - i,
    {
        if present[i] {
            i = i + 1;
        } else {
            let begin = i;
            let mut j = i;
            while j < n && !present[j]
                invariant
                    n == present@.len(),
                    begin <= j <= n,
                    forall|k: int| begin <= k < j ==> !#[trigger] present@[k],
                decreases n - j,
            {
                j = j + 1;
            }
            let ghost old_r = r@;
            assert(missing_run(present@, begin as int, j as int));
            if j - begin <= max_gap && begin > 0 && (forward || j < n) {
                r.push((begin, j));
            }
            assert forall|b: int, e: int|
                fillable(present@, max_gap as int, forward, b, e) && e <= j implies exists|k: int|
                    0 <= k < r@.len() && #[trigger] r@[k] == (b as usize, e as usize) by {
                if e <= begin {
                    let k = choose|k: int| 0 <= k < old_r.len() && #[trigger] old_r[k] == (b as usize, e as usize);
                    assert(r@[k] == old_r[k]);
                } else {
                    if b < begin {
                        assert(!present@[begin as int - 1]);
                        assert(!present@[begin as int]);
                    }
                    if b > begin {
                        assert(!present@[b - 1]);
                    }
                    if e < j {
                        assert(!present@[e]);
                    }
                    if e > j {
                        assert(!present@[j as int]);
                    }
                    assert(r@[r@.len() - 1] == (b as usize, e as usize));
                }
            }
            i = j;
        }
    }
    r
}

} // verus!
