//! Bookkeeping of the GPU profiler's double-buffered query pools.
//!
//! Frame N writes to slot N % 2.  Each profiled pass writes two timestamps
//! (begin and end) and one pipeline-statistics query spans the frame.  The
//! tracker decides which query index each write uses; the caller records
//! the corresponding commands.
use vstd::prelude::*;

verus! {

/// Number of frame slots (double buffering).
pub const MAX_FRAMES: usize = 2;

/// Timestamp queries per slot: up to 32 passes × 2 timestamps.
pub const MAX_TS_QUERIES: u32 = 64;

/// Aggregated pipeline statistics for a full frame.
#[derive(Debug, Clone, Copy, PartialEq, Eq, Default)]
pub struct PipelineStats {
    /// Total vertex shader invocations across all draw calls.
    pub vertex_invocations: u64,
    /// Total fragments that passed rasterization (pre-depth test).
    pub fragment_invocations: u64,
    /// Primitives that passed clipping.
    pub clipping_primitives: u64,
}

impl PipelineStats {
    /// Build the statistics from the three values of the query, which come
    /// in flag-bit order: vertex invocations, clipping primitives, fragment
    /// invocations.
    pub fn from_query(raw: [u64; 3]) -> (s: Self)
        ensures
            s.vertex_invocations == raw@[0],
            s.clipping_primitives == raw@[1],
            s.fragment_invocations == raw@[2],
    {
        PipelineStats {
            vertex_invocations: raw[0],
            clipping_primitives: raw[1],
            fragment_invocations: raw[2],
        }
    }
}

/// Per-slot query bookkeeping.
pub struct QueryTracker {
    /// Timestamp pools exist (the queue family has timestamp bits).
    supports_timestamps: bool,
    /// Pipeline-statistics pools exist.
    supports_pipeline_stats: bool,
    /// Per slot: next free timestamp query index.
    write_idx: Vec<u32>,
    /// Per slot: names of the passes begun, in order.
    names: Vec<Vec<&'static str>>,
    /// Per slot: a statistics query is open.
    stat_active: Vec<bool>,
}

/// What has to be reset at the start of a frame.
#[derive(Debug, Clone, Copy, PartialEq, Eq)]
pub struct FrameReset {
    /// Reset the slot's timestamp pool (queries `0..MAX_TS_QUERIES`).
    pub timestamps: bool,
    /// Reset the slot's statistics pool (query 0).
    pub pipeline_stats: bool,
}

impl QueryTracker {
    /// Whether the tracker has timestamp pools.
    pub closed spec fn ts(&self) -> bool {
        self.supports_timestamps
    }

    /// Whether the tracker has pipeline-statistics pools.
    pub closed spec fn stats(&self) -> bool {
        self.supports_pipeline_stats
    }

    /// Whether timestamp queries are available.
    pub fn supports_timestamps(&self) -> (r: bool)
        ensures
            r == self.ts(),
    {
        self.supports_timestamps
    }

    /// Whether pipeline-statistics queries are available.
    pub fn supports_pipeline_stats(&self) -> (r: bool)
        ensures
            r == self.stats(),
    {
        self.supports_pipeline_stats
    }

    /// Next free timestamp index of a slot.
    pub closed spec fn spec_write_idx(&self, frame: int) -> u32 {
        self.write_idx@[frame]
    }

    /// Names of the passes begun in a slot.
    pub closed spec fn spec_names(&self, frame: int) -> Seq<&'static str> {
        self.names@[frame]@
    }

    /// Whether a slot's statistics query is open.
    pub closed spec fn spec_stat_active(&self, frame: int) -> bool {
        self.stat_active@[frame]
    }

    /// Well-formedness: one entry per slot, indices within the pool.
    pub closed spec fn wf(&self) -> bool {
        &&& self.write_idx@.len() == MAX_FRAMES
        &&& self.names@.len() == MAX_FRAMES
        &&& self.stat_active@.len() == MAX_FRAMES
        &&& forall|f: int|
            0 <= f < MAX_FRAMES ==> #[trigger] self.write_idx@[f] <= MAX_TS_QUERIES
                && self.names@[f]@.len() <= self.write_idx@[f]
    }

    /// The other slot is left unchanged by an operation on `frame`.
    pub open spec fn others_unchanged(&self, old: &Self, frame: int) -> bool {
        forall|f: int|
            0 <= f < MAX_FRAMES && f != frame ==> {
                &&& #[trigger] self.spec_write_idx(f) == old.spec_write_idx(f)
                &&& self.spec_names(f) == old.spec_names(f)
                &&& self.spec_stat_active(f) == old.spec_stat_active(f)
            }
    }

    /// A fresh tracker: every slot empty.
    pub fn new(supports_timestamps: bool, supports_pipeline_stats: bool) -> (t: Self)
        ensures
            t.wf(),
            t.ts() == supports_timestamps,
            t.stats() == supports_pipeline_stats,
            forall|f: int|
                0 <= f < MAX_FRAMES ==> {
                    &&& #[trigger] t.spec_write_idx(f) == 0
                    &&& t.spec_names(f).len() == 0
                    &&& !t.spec_stat_active(f)
                },
    {
        let mut write_idx: Vec<u32> = Vec::new();
        write_idx.push(0);
        write_idx.push(0);
        let mut names: Vec<Vec<&'static str>> = Vec::new();
        names.push(Vec::new());
        names.push(Vec::new());
        let mut stat_active: Vec<bool> = Vec::new();
        stat_active.push(false);
        stat_active.push(false);
        QueryTracker { supports_timestamps, supports_pipeline_stats, write_idx, names, stat_active }
    }

    /// Start a frame in slot `frame`: forget its passes and queries and say
    /// which pools must be reset.
    pub fn begin_frame(&mut self, frame: usize) -> (r: FrameReset)
        requires
            old(self).wf(),
            frame < MAX_FRAMES,
        ensures
            final(self).wf(),
            final(self).ts() == old(self).ts(),
            final(self).stats() == old(self).stats(),
            final(self).others_unchanged(&*old(self), frame as int),
            final(self).spec_write_idx(frame as int) == 0,
            final(self).spec_names(frame as int).len() == 0,
            !final(self).spec_stat_active(frame as int),
            r.timestamps == old(self).ts(),
            r.pipeline_stats == old(self).stats(),
    {
        self.write_idx.set(frame, 0);
        let mut empty: Vec<&'static str> = Vec::new();
        std::mem::swap(&mut self.names[frame], &mut empty);
        self.stat_active.set(frame, false);
        FrameReset {
            timestamps: self.supports_timestamps,
            pipeline_stats: self.supports_pipeline_stats,
        }
    }

    /// Begin timestamp of a pass: the query index to write at TOP_OF_PIPE, or
    /// `None` when there is no timestamp pool or the slot is full (then
    /// nothing changes).
    pub fn begin_pass(&mut self, frame: usize, name: &'static str) -> (r: Option<u32>)
        requires
            old(self).wf(),
            frame < MAX_FRAMES,
        ensures
            final(self).wf(),
            final(self).ts() == old(self).ts(),
            final(self).stats() == old(self).stats(),
            final(self).others_unchanged(&*old(self), frame as int),
            begin_pass_post(&*old(self), &*final(self), frame as int, name, r),
    {
        if !self.supports_timestamps {
            return None;
        }
        let idx = self.write_idx[frame];
        if idx + 1 >= MAX_TS_QUERIES {
            return None;
        }
        let mut list: Vec<&'static str> = Vec::new();
        std::mem::swap(&mut self.names[frame], &mut list);
        list.push(name);
        std::mem::swap(&mut self.names[frame], &mut list);
        self.write_idx.set(frame, idx + 1);
        Some(idx)
    }

    /// End timestamp of a pass: the query index to write at BOTTOM_OF_PIPE,
    /// or `None` when there is no timestamp pool or the slot is full.
    pub fn end_pass(&mut self, frame: usize) -> (r: Option<u32>)
        requires
            old(self).wf(),
            frame < MAX_FRAMES,
        ensures
            final(self).wf(),
            final(self).ts() == old(self).ts(),
            final(self).stats() == old(self).stats(),
            final(self).others_unchanged(&*old(self), frame as int),
            end_pass_post(&*old(self), &*final(self), frame as int, r),
    {
        if !self.supports_timestamps {
            return None;
        }
        let idx = self.write_idx[frame];
        if idx >= MAX_TS_QUERIES {
            return None;
        }
        self.write_idx.set(frame, idx + 1);
        Some(idx)
    }

    /// Open the frame's statistics query.  Returns whether the caller must
    /// record the begin-query command.
    pub fn begin_stats(&mut self, frame: usize) -> (r: bool)
        requires
            old(self).wf(),
            frame < MAX_FRAMES,
        ensures
            final(self).wf(),
            final(self).ts() == old(self).ts(),
            final(self).stats() == old(self).stats(),
            final(self).others_unchanged(&*old(self), frame as int),
            final(self).spec_write_idx(frame as int) == old(self).spec_write_idx(frame as int),
            final(self).spec_names(frame as int) == old(self).spec_names(frame as int),
            r == old(self).stats(),
            final(self).spec_stat_active(frame as int) == if r {
                true
            } else {
                old(self).spec_stat_active(frame as int)
            },
    {
        if !self.supports_pipeline_stats {
            return false;
        }
        self.stat_active.set(frame, true);
        true
    }

    /// Close the frame's statistics query.  Returns whether the caller must
    /// record the end-query command: only when a query is open.
    pub fn end_stats(&mut self, frame: usize) -> (r: bool)
        requires
            old(self).wf(),
            frame < MAX_FRAMES,
        ensures
            final(self).wf(),
            final(self).ts() == old(self).ts(),
            final(self).stats() == old(self).stats(),
            final(self).others_unchanged(&*old(self), frame as int),
            final(self).spec_write_idx(frame as int) == old(self).spec_write_idx(frame as int),
            final(self).spec_names(frame as int) == old(self).spec_names(frame as int),
            r == (old(self).spec_stat_active(frame as int) && old(self).stats()),
            final(self).spec_stat_active(frame as int) == (old(self).spec_stat_active(frame as int)
                && !r),
    {
        if !self.stat_active[frame] {
            return false;
        }
        if !self.supports_pipeline_stats {
            return false;
        }
        self.stat_active.set(frame, false);
        true
    }

    /// Number of timestamps to read back for a slot: two per pass begun, or
    /// `None` when there is nothing to read.
    pub fn timestamps_to_read(&self, frame: usize) -> (r: Option<usize>)
        requires
            self.wf(),
            frame < MAX_FRAMES,
        ensures
            r == if self.ts() && self.spec_names(frame as int).len() > 0 {
                Some((2 * self.spec_names(frame as int).len()) as usize)
            } else {
                None::<usize>
            },
    {
        let count = self.names[frame].len();
        if self.supports_timestamps && count > 0 {
            assert(self.write_idx@[frame as int] <= MAX_TS_QUERIES);
            Some(count * 2)
        } else {
            None
        }
    }

    /// Pair up the timestamps read back for a slot: pass `i` spans
    /// `timestamps[2i]..timestamps[2i+1]`.  Passes whose end is not after
    /// their begin are dropped.  Returns each kept pass's name and tick count.
    pub fn pair_timestamps(&self, frame: usize, timestamps: &Vec<u64>) -> (r: Vec<(&'static str, u64)>)
        requires
            self.wf(),
            frame < MAX_FRAMES,
            timestamps@.len() == 2 * self.spec_names(frame as int).len(),
        ensures
            r@ == spec_pair_timestamps(self.spec_names(frame as int), timestamps@),
    {
        let names = &self.names[frame];
        assert(self.write_idx@[frame as int] <= MAX_TS_QUERIES);
        let mut out: Vec<(&'static str, u64)> = Vec::new();
        let mut i: usize = 0;
        while i < names.len()
            invariant
                i <= names@.len(),
                names@ == self.spec_names(frame as int),
                names@.len() <= MAX_TS_QUERIES,
                timestamps@.len() == 2 * names@.len(),
                out@ == spec_pair_timestamps(names@.take(i as int), timestamps@),
            decreases names@.len() - i,
        {
            let begin_ts = timestamps[2 * i];
            let end_ts = timestamps[2 * i + 1];
            assert(names@.take(i + 1).drop_last() =~= names@.take(i as int));
            if end_ts > begin_ts {
                out.push((names[i], end_ts - begin_ts));
            }
            i = i + 1;
        }
        assert(names@.take(i as int) =~= names@);
        out
    }
}

/// Pass timings from paired timestamps: for each pass `i` (in order) whose
/// end timestamp `2i+1` is after its begin timestamp `2i`, its name and the
/// difference.
pub open spec fn spec_pair_timestamps(names: Seq<&'static str>, ts: Seq<u64>) -> Seq<
    (&'static str, u64),
>
    decreases names.len(),
{
    if names.len() == 0 {
        Seq::empty()
    } else {
        let i = names.len() - 1;
        let rest = spec_pair_timestamps(names.drop_last(), ts);
        if ts[2 * i + 1] > ts[2 * i] {
            rest.push((names[i], (ts[2 * i + 1] - ts[2 * i]) as u64))
        } else {
            rest
        }
    }
}

/// Pass `i` was timed: its end timestamp is after its begin timestamp.
pub open spec fn pass_timed(ts: Seq<u64>, i: int) -> bool {
    ts[2 * i + 1] > ts[2 * i]
}

/// The timing reported for pass `i`: its name and end minus begin.
pub open spec fn pass_timing(names: Seq<&'static str>, ts: Seq<u64>, i: int) -> (&'static str, u64) {
    (names[i], (ts[2 * i + 1] - ts[2 * i]) as u64)
}

/// Pairing reports exactly the timed passes, each once, in pass order:
/// the `j`-th timing is that of pass `idx[j]`, the passes `idx` are timed
/// and increasing, and every timed pass (the last one included) is among
/// them.  Passes whose end is not after their begin are left out.
pub proof fn lemma_pair_timestamps_exact(names: Seq<&'static str>, ts: Seq<u64>) -> (idx: Seq<int>)
    requires
        ts.len() >= 2 * names.len(),
    ensures
        idx.len() == spec_pair_timestamps(names, ts).len(),
        forall|j: int| 0 <= j < idx.len() ==> {
            &&& 0 <= #[trigger] idx[j] < names.len()
            &&& pass_timed(ts, idx[j])
            &&& spec_pair_timestamps(names, ts)[j] == pass_timing(names, ts, idx[j])
        },
        forall|j1: int, j2: int| 0 <= j1 < j2 < idx.len() ==> idx[j1] < idx[j2],
        forall|i: int| 0 <= i < names.len() && #[trigger] pass_timed(ts, i) ==> exists|j: int|
            0 <= j < idx.len() && idx[j] == i,
    decreases names.len(),
{
    if names.len() == 0 {
        Seq::empty()
    } else {
        let n = names.len() - 1;
        let prev = names.drop_last();
        let p = lemma_pair_timestamps_exact(prev, ts);
        let rp = spec_pair_timestamps(prev, ts);
        let r = spec_pair_timestamps(names, ts);
        assert forall|j: int| 0 <= j < p.len() implies r[j] == pass_timing(names, ts, p[j]) by {
            assert(r[j] == rp[j]);
            assert(prev[p[j]] == names[p[j]]);
        }
        if pass_timed(ts, n) {
            let idx = p.push(n);
            assert forall|j: int| 0 <= j < idx.len() implies {
                &&& 0 <= #[trigger] idx[j] < names.len()
                &&& pass_timed(ts, idx[j])
                &&& r[j] == pass_timing(names, ts, idx[j])
            } by {
                if j < p.len() {
                    assert(idx[j] == p[j]);
                }
            }
            assert forall|i: int| 0 <= i < names.len() && #[trigger] pass_timed(ts, i) implies exists|j: int|
                0 <= j < idx.len() && idx[j] == i by {
                if i == n {
                    assert(idx[p.len() as int] == i);
                } else {
                    let j = choose|j: int| 0 <= j < p.len() && p[j] == i;
                    assert(idx[j] == i);
                }
            }
            idx
        } else {
            assert forall|i: int| 0 <= i < names.len() && #[trigger] pass_timed(ts, i) implies exists|j: int|
                0 <= j < p.len() && p[j] == i by {
                assert(i != n);
            }
            p
        }
    }
}

/// What `begin_pass` does to slot `f`: with a timestamp pool and room for
/// a begin and an end timestamp, it hands out the next index and records the
/// pass name; otherwise it hands out nothing and changes nothing.
pub open spec fn begin_pass_post(
    old: &QueryTracker,
    new: &QueryTracker,
    f: int,
    name: &'static str,
    r: Option<u32>,
) -> bool {
    &&& new.spec_stat_active(f) == old.spec_stat_active(f)
    &&& if old.ts() && old.spec_write_idx(f) + 1 < MAX_TS_QUERIES {
        &&& r == Some(old.spec_write_idx(f))
        &&& new.spec_write_idx(f) == old.spec_write_idx(f) + 1
        &&& new.spec_names(f) == old.spec_names(f).push(name)
    } else {
        &&& r is None
        &&& new.spec_write_idx(f) == old.spec_write_idx(f)
        &&& new.spec_names(f) == old.spec_names(f)
    }
}

/// What `end_pass` does to slot `f`: with a timestamp pool and room for one
/// timestamp, it hands out the next index; otherwise nothing.
pub open spec fn end_pass_post(old: &QueryTracker, new: &QueryTracker, f: int, r: Option<u32>) -> bool {
    &&& new.spec_stat_active(f) == old.spec_stat_active(f)
    &&& new.spec_names(f) == old.spec_names(f)
    &&& if old.ts() && old.spec_write_idx(f) < MAX_TS_QUERIES {
        &&& r == Some(old.spec_write_idx(f))
        &&& new.spec_write_idx(f) == old.spec_write_idx(f) + 1
    } else {
        &&& r is None
        &&& new.spec_write_idx(f) == old.spec_write_idx(f)
    }
}

/// A slot is balanced when every begun pass was also ended: two timestamps
/// per pass name.
pub open spec fn balanced(t: &QueryTracker, f: int) -> bool {
    t.spec_write_idx(f) == 2 * t.spec_names(f).len()
}

/// Two writes per pass: from a balanced slot with fewer than 32 passes,
/// `begin_pass` then `end_pass` hand out the indices `2n` and `2n + 1` for
/// the next pass `n` (where `pair_timestamps` reads that pass's begin and
/// end) and leave the slot balanced, with the pass's name appended.
pub proof fn lemma_pass_pair_indices(
    t0: &QueryTracker,
    t1: &QueryTracker,
    t2: &QueryTracker,
    f: int,
    name: &'static str,
    r1: Option<u32>,
    r2: Option<u32>,
)
    requires
        t0.ts(),
        t1.ts() == t0.ts(),
        balanced(t0, f),
        t0.spec_names(f).len() < 32,
        begin_pass_post(t0, t1, f, name, r1),
        end_pass_post(t1, t2, f, r2),
    ensures
        r1 == Some((2 * t0.spec_names(f).len()) as u32),
        r2 == Some((2 * t0.spec_names(f).len() + 1) as u32),
        t2.spec_names(f) == t0.spec_names(f).push(name),
        balanced(t2, f),
{
}

} // verus!
