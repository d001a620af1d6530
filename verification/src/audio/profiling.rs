//! Performance bookkeeping for the audio callback and named operations.

use std::time::{Duration, Instant};
use vstd::prelude::*;

verus! {

#[verifier::external_type_specification]
#[verifier::external_body]
pub struct ExInstant(Instant);

/// `a + b` wrapping around at the top of the range.
pub open spec fn wrapping_add_u64(a: u64, b: u64) -> u64 {
    if a + b > u64::MAX {
        (a + b - u64::MAX - 1) as u64
    } else {
        (a + b) as u64
    }
}

fn wrapping_add(a: u64, b: u64) -> (r: u64)
    ensures
        r == wrapping_add_u64(a, b),
{
    if a > u64::MAX - b {
        a - (u64::MAX - b) - 1
    } else {
        a + b
    }
}

/// What `Duration::as_nanos` gives, truncated to 64 bits, for a duration.
pub uninterp spec fn duration_nanos(d: Duration) -> u64;

/// Wraps `Duration::as_nanos` (truncated to `u64`); the result is
/// named `duration_nanos(d)`.
#[verifier::external_body]
fn duration_as_nanos(d: Duration) -> (r: u64)
    ensures
        r == duration_nanos(d),
{
    d.as_nanos() as u64
}

/// Reads the monotonic clock (`Instant::now`); nothing is stated of it.
#[verifier::external_body]
fn instant_now() -> Instant {
    Instant::now()
}

/// The time elapsed since `start` (`Instant::elapsed`); it depends on the
/// time of the call, so nothing is stated of it.
#[verifier::external_body]
fn instant_elapsed(start: &Instant) -> Duration {
    start.elapsed()
}

/// Nanoseconds elapsed since `start`, truncated to `u64`.
fn nanos_since(start: &Instant) -> u64 {
    duration_as_nanos(instant_elapsed(start))
}

/// Totals of one named operation.
struct OperationRecord {
    name: String,
    total_time: u64,
    count: u64,
}

/// Profiler for the audio callback and named operations.
pub struct AudioProfiler {
    /// Total time spent in audio callback (nanoseconds)
    total_callback_time: u64,
    /// Number of callback executions
    callback_count: u64,
    /// Maximum callback time observed (nanoseconds)
    max_callback_time: u64,
    /// Minimum callback time observed (nanoseconds)
    min_callback_time: u64,
    operations: Vec<OperationRecord>,
}

/// Statistics of one operation.
#[derive(Debug, Clone, Copy)]
pub struct OperationStats {
    pub total_time: u64,
    pub call_count: u64,
    pub avg_time: u64,
}

/// Performance statistics.
#[derive(Debug, Clone)]
pub struct ProfilerStats {
    pub callback_count: u64,
    pub total_callback_time: u64,
    pub avg_callback_time: u64,
    pub max_callback_time: u64,
    pub min_callback_time: u64,
    pub operation_stats: Vec<(String, OperationStats)>,
}

/// The view of operation records: name, total time, count.
spec fn records_view(v: Seq<OperationRecord>) -> Seq<(Seq<char>, u64, u64)> {
    v.map_values(|r: OperationRecord| (r.name@, r.total_time, r.count))
}

/// Whether every operation name occurs at most once.
pub open spec fn op_names_unique(ops: Seq<(Seq<char>, u64, u64)>) -> bool {
    forall|i: int, j: int|
        0 <= i < ops.len() && 0 <= j < ops.len() && i != j ==> #[trigger] ops[i].0
            != #[trigger] ops[j].0
}

pub open spec fn has_op(ops: Seq<(Seq<char>, u64, u64)>, name: Seq<char>) -> bool {
    exists|i: int| 0 <= i < ops.len() && #[trigger] ops[i].0 == name
}

pub open spec fn op_index(ops: Seq<(Seq<char>, u64, u64)>, name: Seq<char>) -> int {
    choose|i: int| 0 <= i < ops.len() && #[trigger] ops[i].0 == name
}

/// The operations after one call of `name` that took `nanos`: its time
/// grows by `nanos` and its count by one (both wrapping); a new name is
/// appended.
pub open spec fn record_op(ops: Seq<(Seq<char>, u64, u64)>, name: Seq<char>, nanos: u64) -> Seq<
    (Seq<char>, u64, u64),
> {
    if has_op(ops, name) {
        let i = op_index(ops, name);
        ops.update(i, (name, wrapping_add_u64(ops[i].1, nanos), wrapping_add_u64(ops[i].2, 1)))
    } else {
        ops.push((name, nanos, 1))
    }
}

/// The statistics of the operations that were called at least once,
/// in their order: name, total time, count, average time.
pub open spec fn op_stats_of(ops: Seq<(Seq<char>, u64, u64)>) -> Seq<(Seq<char>, u64, u64, u64)>
    decreases ops.len(),
{
    if ops.len() == 0 {
        seq![]
    } else {
        let rest = op_stats_of(ops.drop_last());
        let o = ops.last();
        if o.2 > 0 {
            rest.push((o.0, o.1, o.2, o.1 / o.2))
        } else {
            rest
        }
    }
}

/// The view of reported operation statistics.
pub open spec fn op_stats_view(v: Seq<(String, OperationStats)>) -> Seq<(Seq<char>, u64, u64, u64)> {
    v.map_values(
        |e: (String, OperationStats)| (e.0@, e.1.total_time, e.1.call_count, e.1.avg_time),
    )
}

/// Timer of one audio callback; hand it back with `finish`.
pub struct CallbackTimer {
    start_time: Instant,
}

/// Timer of one named operation; hand it back with `finish`.
pub struct OperationTimer {
    operation: String,
    start_time: Instant,
}

impl AudioProfiler {
    pub closed spec fn spec_total_callback_time(&self) -> u64 {
        self.total_callback_time
    }

    pub closed spec fn spec_callback_count(&self) -> u64 {
        self.callback_count
    }

    pub closed spec fn spec_max_callback_time(&self) -> u64 {
        self.max_callback_time
    }

    pub closed spec fn spec_min_callback_time(&self) -> u64 {
        self.min_callback_time
    }

    /// The names, times and counts of the recorded operations.
    pub closed spec fn spec_operations(&self) -> Seq<(Seq<char>, u64, u64)> {
        records_view(self.operations@)
    }

    /// Well-formedness: each operation appears once.
    pub open spec fn wf(&self) -> bool {
        op_names_unique(self.spec_operations())
    }

    /// A profiler with nothing recorded (minimum at its "unset" value).
    pub fn new() -> (r: Self)
        ensures
            r.wf(),
            r.spec_total_callback_time() == 0,
            r.spec_callback_count() == 0,
            r.spec_max_callback_time() == 0,
            r.spec_min_callback_time() == u64::MAX,
            r.spec_operations() == Seq::<(Seq<char>, u64, u64)>::empty(),
    {
        let r = Self {
            total_callback_time: 0,
            callback_count: 0,
            max_callback_time: 0,
            min_callback_time: u64::MAX,
            operations: Vec::new(),
        };
        assert(r.spec_operations() =~= Seq::<(Seq<char>, u64, u64)>::empty());
        r
    }

    /// Counts a callback and starts timing it.
    pub fn start_callback(&mut self) -> (t: CallbackTimer)
        ensures
            final(self).spec_callback_count() == wrapping_add_u64(old(self).spec_callback_count(), 1),
            final(self).spec_total_callback_time() == old(self).spec_total_callback_time(),
            final(self).spec_max_callback_time() == old(self).spec_max_callback_time(),
            final(self).spec_min_callback_time() == old(self).spec_min_callback_time(),
            final(self).spec_operations() == old(self).spec_operations(),
    {
        self.callback_count = wrapping_add(self.callback_count, 1);
        CallbackTimer { start_time: instant_now() }
    }

    /// Accounts a callback that took `nanos`: adds it to the total (wrapping),
    /// raises the maximum and lowers the minimum; the first recorded time
    /// replaces the "unset" minimum.
    pub fn record_callback_time(&mut self, nanos: u64)
        ensures
            final(self).spec_total_callback_time() == wrapping_add_u64(old(self).spec_total_callback_time(), nanos),
            final(self).spec_max_callback_time() == if nanos > old(self).spec_max_callback_time() {
                nanos
            } else {
                old(self).spec_max_callback_time()
            },
            final(self).spec_min_callback_time() == if nanos < old(self).spec_min_callback_time() {
                nanos
            } else {
                old(self).spec_min_callback_time()
            },
            final(self).spec_callback_count() == old(self).spec_callback_count(),
            final(self).spec_operations() == old(self).spec_operations(),
    {
        self.total_callback_time = wrapping_add(self.total_callback_time, nanos);
        if nanos > self.max_callback_time {
            self.max_callback_time = nanos;
        }
        if nanos < self.min_callback_time {
            self.min_callback_time = nanos;
        }
    }

    fn find_operation(&self, operation: &str) -> (r: Option<usize>)
        ensures
            match r {
                Some(i) => i < self.operations@.len() && self.spec_operations()[i as int].0
                    == operation@,
                None => !has_op(self.spec_operations(), operation@),
            },
    {
        let n = self.operations.len();
        let key = operation.to_owned();
        let mut i: usize = 0;
        while i < n
            invariant
                n == self.operations.len(),
                key@ == operation@,
                i <= n,
                forall|j: int| 0 <= j < i ==> #[trigger] self.spec_operations()[j].0 != operation@,
            decreases n - i,
        {
            if self.operations[i].name == key {
                return Some(i);
            }
            i = i + 1;
        }
        None
    }

    /// Accounts one call of `operation` that took `nanos`.
    pub fn record_operation_nanos(&mut self, operation: &str, nanos: u64)
        requires
            old(self).wf(),
        ensures
            final(self).wf(),
            final(self).spec_operations() == record_op(old(self).spec_operations(), operation@, nanos),
            final(self).spec_total_callback_time() == old(self).spec_total_callback_time(),
            final(self).spec_callback_count() == old(self).spec_callback_count(),
            final(self).spec_max_callback_time() == old(self).spec_max_callback_time(),
            final(self).spec_min_callback_time() == old(self).spec_min_callback_time(),
    {
        let ghost old_ops = self.spec_operations();
        match self.find_operation(operation) {
            Some(i) => {
                proof {
                    assert(has_op(old_ops, operation@));
                    let k = op_index(old_ops, operation@);
                    assert(old_ops[k].0 == operation@);
                    assert(k == i);
                }
                let t = wrapping_add(self.operations[i].total_time, nanos);
                let c = wrapping_add(self.operations[i].count, 1);
                self.operations.set(i, OperationRecord { name: operation.to_owned(), total_time: t, count: c });
                assert(self.spec_operations() =~= record_op(old_ops, operation@, nanos));
            },
            None => {
                self.operations.push(OperationRecord { name: operation.to_owned(), total_time: nanos, count: 1 });
                assert(self.spec_operations() =~= record_op(old_ops, operation@, nanos));
            },
        }
    }

    /// Accounts one call of `operation` that took `duration`.
    pub fn record_operation(&mut self, operation: &str, duration: Duration)
        requires
            old(self).wf(),
        ensures
            final(self).wf(),
            final(self).spec_operations() == record_op(
                old(self).spec_operations(),
                operation@,
                duration_nanos(duration),
            ),
            final(self).spec_total_callback_time() == old(self).spec_total_callback_time(),
            final(self).spec_callback_count() == old(self).spec_callback_count(),
            final(self).spec_max_callback_time() == old(self).spec_max_callback_time(),
            final(self).spec_min_callback_time() == old(self).spec_min_callback_time(),
    {
        let nanos = duration_as_nanos(duration);
        self.record_operation_nanos(operation, nanos);
    }

    /// Current statistics: the average callback time is the total over the
    /// count (zero without callbacks); an unset minimum reads as zero; only
    /// operations called at least once are listed.
    pub fn get_stats(&self) -> (r: ProfilerStats)
        ensures
            r.callback_count == self.spec_callback_count(),
            r.total_callback_time == self.spec_total_callback_time(),
            r.avg_callback_time == if self.spec_callback_count() > 0 {
                self.spec_total_callback_time() / self.spec_callback_count()
            } else {
                0
            },
            r.max_callback_time == self.spec_max_callback_time(),
            r.min_callback_time == if self.spec_min_callback_time() == u64::MAX {
                0
            } else {
                self.spec_min_callback_time()
            },
            op_stats_view(r.operation_stats@) == op_stats_of(self.spec_operations()),
    {
        let avg = if self.callback_count > 0 {
            self.total_callback_time / self.callback_count
        } else {
            0
        };
        let mut ops: Vec<(String, OperationStats)> = Vec::new();
        let ghost all = self.spec_operations();
        let n = self.operations.len();
        let mut i: usize = 0;
        while i < n
            invariant
                n == self.operations.len(),
                all == self.spec_operations(),
                i <= n,
                op_stats_view(ops@) == op_stats_of(all.take(i as int)),
            decreases n - i,
        {
            proof {
                assert(all.take(i + 1).drop_last() =~= all.take(i as int));
            }
            let count = self.operations[i].count;
            let time = self.operations[i].total_time;
            if count > 0 {
                ops.push(
                    (
                        self.operations[i].name.clone(),
                        OperationStats { total_time: time, call_count: count, avg_time: time / count },
                    ),
                );
            }
            assert(op_stats_view(ops@) =~= op_stats_of(all.take(i + 1)));
            i = i + 1;
        }
        assert(all.take(n as int) =~= all);
        ProfilerStats {
            callback_count: self.callback_count,
            total_callback_time: self.total_callback_time,
            avg_callback_time: avg,
            max_callback_time: self.max_callback_time,
            min_callback_time: if self.min_callback_time == u64::MAX {
                0
            } else {
                self.min_callback_time
            },
            operation_stats: ops,
        }
    }

    /// Clears the callback statistics and the times and counts of all
    /// operations (the operations stay known, with zero counts).
    pub fn reset(&mut self)
        requires
            old(self).wf(),
        ensures
            final(self).wf(),
            final(self).spec_total_callback_time() == 0,
            final(self).spec_callback_count() == 0,
            final(self).spec_max_callback_time() == 0,
            final(self).spec_min_callback_time() == u64::MAX,
            final(self).spec_operations().len() == old(self).spec_operations().len(),
            forall|i: int|
                0 <= i < old(self).spec_operations().len() ==> #[trigger] final(self).spec_operations()[i]
                    == (old(self).spec_operations()[i].0, 0u64, 0u64),
    {
        self.total_callback_time = 0;
        self.callback_count = 0;
        self.max_callback_time = 0;
        self.min_callback_time = u64::MAX;
        let ghost old_ops = self.spec_operations();
        let n = self.operations.len();
        let mut i: usize = 0;
        while i < n
            invariant
                n == self.operations.len(),
                old_ops.len() == n,
                i <= n,
                forall|j: int| 0 <= j < i ==> #[trigger] self.spec_operations()[j] == (old_ops[j].0, 0u64, 0u64),
                forall|j: int| i <= j < n ==> #[trigger] self.spec_operations()[j] == old_ops[j],
                self.total_callback_time == 0,
                self.callback_count == 0,
                self.max_callback_time == 0,
                self.min_callback_time == u64::MAX,
            decreases n - i,
        {
            let ghost before = self.spec_operations();
            let name = self.operations[i].name.clone();
            assert(before[i as int] == old_ops[i as int]);
            assert(name@ == before[i as int].0);
            self.operations.set(i, OperationRecord { name, total_time: 0, count: 0 });
            assert(self.spec_operations() =~= before.update(i as int, (old_ops[i as int].0, 0u64, 0u64)));
            i = i + 1;
        }
        proof {
            assert forall|a: int, b: int|
                0 <= a < n && 0 <= b < n && a != b implies #[trigger] self.spec_operations()[a].0
                != #[trigger] self.spec_operations()[b].0 by {
                assert(old_ops[a].0 != old_ops[b].0);
            }
        }
    }
}

impl CallbackTimer {
    /// Ends the timing and accounts the elapsed time to `profiler`.
    pub fn finish(self, profiler: &mut AudioProfiler)
        ensures
            final(profiler).spec_callback_count() == old(profiler).spec_callback_count(),
            final(profiler).spec_operations() == old(profiler).spec_operations(),
            exists|nanos: u64|
                final(profiler).spec_total_callback_time() == wrapping_add_u64(
                    old(profiler).spec_total_callback_time(),
                    nanos,
                ) && final(profiler).spec_max_callback_time() == (if nanos > old(profiler).spec_max_callback_time() {
                    nanos
                } else {
                    old(profiler).spec_max_callback_time()
                }) && final(profiler).spec_min_callback_time() == (if nanos < old(profiler).spec_min_callback_time() {
                    nanos
                } else {
                    old(profiler).spec_min_callback_time()
                }),
    {
        let nanos = nanos_since(&self.start_time);
        profiler.record_callback_time(nanos);
    }
}

impl OperationTimer {
    /// Starts timing `operation`.
    pub fn new(operation: &str) -> (r: Self)
        ensures
            r.spec_operation() == operation@,
    {
        Self { operation: operation.to_owned(), start_time: instant_now() }
    }

    pub closed spec fn spec_operation(&self) -> Seq<char> {
        self.operation@
    }

    /// Ends the timing and accounts one call of the operation to `profiler`.
    pub fn finish(self, profiler: &mut AudioProfiler)
        requires
            old(profiler).wf(),
        ensures
            final(profiler).wf(),
            exists|nanos: u64|
                final(profiler).spec_operations() == record_op(
                    old(profiler).spec_operations(),
                    self.spec_operation(),
                    nanos,
                ),
            final(profiler).spec_callback_count() == old(profiler).spec_callback_count(),
            final(profiler).spec_total_callback_time() == old(profiler).spec_total_callback_time(),
            final(profiler).spec_max_callback_time() == old(profiler).spec_max_callback_time(),
            final(profiler).spec_min_callback_time() == old(profiler).spec_min_callback_time(),
    {
        let nanos = nanos_since(&self.start_time);
        profiler.record_operation_nanos(self.operation.as_str(), nanos);
        assert(profiler.spec_operations() == record_op(
            old(profiler).spec_operations(),
            self.spec_operation(),
            nanos,
        ));
    }
}

/// Every recorded callback time lies between the minimum and the maximum
/// that recording it leaves, whatever they were before.
pub proof fn law_recorded_time_within_bounds(min: u64, max: u64, nanos: u64)
    ensures
        (if nanos < min {
            nanos
        } else {
            min
        }) <= nanos <= (if nanos > max {
            nanos
        } else {
            max
        }),
{
}

/// What one timed callback does to the profiler's statistics: `start_callback`
/// counts it, and `finish` (through `record_callback_time`) adds its time
/// `d` to the total and moves the maximum and minimum.
pub open spec fn callback_counted(a: AudioProfiler, b: AudioProfiler, d: u64) -> bool {
    &&& b.spec_callback_count() == wrapping_add_u64(a.spec_callback_count(), 1)
    &&& b.spec_total_callback_time() == wrapping_add_u64(a.spec_total_callback_time(), d)
    &&& b.spec_max_callback_time() == if d > a.spec_max_callback_time() {
        d
    } else {
        a.spec_max_callback_time()
    }
    &&& b.spec_min_callback_time() == if d < a.spec_min_callback_time() {
        d
    } else {
        a.spec_min_callback_time()
    }
}

/// The sum of some times.
pub open spec fn seq_sum(ds: Seq<u64>) -> nat
    decreases ds.len(),
{
    if ds.len() == 0 {
        0
    } else {
        seq_sum(ds.drop_last()) + (ds.last() as nat)
    }
}

/// The largest of some times (0 for none).
pub open spec fn seq_max(ds: Seq<u64>) -> u64
    decreases ds.len(),
{
    if ds.len() == 0 {
        0
    } else if ds.last() > seq_max(ds.drop_last()) {
        ds.last()
    } else {
        seq_max(ds.drop_last())
    }
}

/// The smallest of some times (`u64::MAX`, "unset", for none).
pub open spec fn seq_min(ds: Seq<u64>) -> u64
    decreases ds.len(),
{
    if ds.len() == 0 {
        u64::MAX
    } else if ds.last() < seq_min(ds.drop_last()) {
        ds.last()
    } else {
        seq_min(ds.drop_last())
    }
}

/// `len * min <= sum <= len * max`.
proof fn lemma_sum_between(ds: Seq<u64>)
    ensures
        ds.len() > 0 ==> ds.len() * (seq_min(ds) as int) <= seq_sum(ds),
        seq_sum(ds) <= ds.len() * (seq_max(ds) as int),
    decreases ds.len(),
{
    if ds.len() > 0 {
        let pre = ds.drop_last();
        lemma_sum_between(pre);
        let n = pre.len() as int;
        let mn = seq_min(pre) as int;
        let mx = seq_max(pre) as int;
        let sm = seq_sum(pre) as int;
        let l = ds.last() as int;
        let mn2 = seq_min(ds) as int;
        let mx2 = seq_max(ds) as int;
        assert(seq_sum(ds) == sm + l);
        assert(ds.len() == n + 1);
        assert(mn2 <= l && mx2 >= l && mx2 >= mx);
        assert(n > 0 ==> mn2 <= mn);
        if n == 0 {
            assert(sm == 0);
            assert(mn2 == l && mx2 == l);
            assert(1 * mn2 == mn2 && 1 * mx2 == mx2);
        } else {
            assert((n + 1) * mn2 <= sm + l) by (nonlinear_arith)
                requires
                    n * mn <= sm,
                    mn2 <= mn,
                    mn2 <= l,
                    n >= 0,
                    mn2 >= 0,
            ;
        }
        assert(sm + l <= (n + 1) * mx2) by (nonlinear_arith)
            requires
                sm <= n * mx,
                mx <= mx2,
                l <= mx2,
                n >= 0,
                mx >= 0,
        ;
    }
}

/// Callback statistics: from a fresh profiler, `k` timed callbacks taking
/// `ds[0]`, ..., `ds[k-1]` nanoseconds (`ps[i]` is the profiler before
/// callback `i`) leave a count of `k`, a total of the sum, the largest and
/// the smallest time, so that the reported average (total over count) lies
/// between the minimum and the maximum; as long as the total does not wrap.
pub proof fn law_callback_statistics(ps: Seq<AudioProfiler>, ds: Seq<u64>)
    requires
        ps.len() == ds.len() + 1,
        ps[0].spec_callback_count() == 0,
        ps[0].spec_total_callback_time() == 0,
        ps[0].spec_max_callback_time() == 0,
        ps[0].spec_min_callback_time() == u64::MAX,
        forall|i: int| 0 <= i < ds.len() ==> #[trigger] callback_counted(ps[i], ps[i + 1], ds[i]),
        seq_sum(ds) <= u64::MAX,
        ds.len() <= u64::MAX,
    ensures
        ps.last().spec_callback_count() == ds.len(),
        ps.last().spec_total_callback_time() == seq_sum(ds),
        ps.last().spec_max_callback_time() == seq_max(ds),
        ps.last().spec_min_callback_time() == seq_min(ds),
        ds.len() >= 1 ==> seq_min(ds) <= (seq_sum(ds) as int) / (ds.len() as int) <= seq_max(ds),
    decreases ds.len(),
{
    if ds.len() > 0 {
        let pp = ps.drop_last();
        let pd = ds.drop_last();
        assert forall|i: int| 0 <= i < pd.len() implies #[trigger] callback_counted(pp[i], pp[i + 1], pd[i]) by {
            assert(pp[i] == ps[i] && pp[i + 1] == ps[i + 1] && pd[i] == ds[i]);
            assert(callback_counted(ps[i], ps[i + 1], ds[i]));
        }
        assert(seq_sum(pd) <= seq_sum(ds));
        law_callback_statistics(pp, pd);
        let k = pd.len() as int;
        assert(pp.last() == ps[k]);
        assert(ds.last() == ds[k]);
        assert(callback_counted(ps[k], ps[k + 1], ds[k]));
        assert(ps.last() == ps[k + 1]);
        lemma_sum_between(ds);
        let n = ds.len() as int;
        let sm = seq_sum(ds) as int;
        let mn = seq_min(ds) as int;
        let mx = seq_max(ds) as int;
        assert(mn <= sm / n) by (nonlinear_arith)
            requires
                n * mn <= sm,
                n >= 1,
        ;
        assert(sm / n <= mx) by (nonlinear_arith)
            requires
                sm <= n * mx,
                n >= 1,
                sm >= 0,
        ;
    }
}

} // verus!
