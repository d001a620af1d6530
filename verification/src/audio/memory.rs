//! Allocation bookkeeping and memory leak reports.

use crate::text::{decimal, push_decimal, push_str};
use vstd::prelude::*;

verus! {

/// Statistics for one allocation site (by name).
#[derive(Debug, Default, Clone, Copy)]
pub struct AllocationStats {
    pub count: usize,
    pub total_bytes: usize,
    pub peak_bytes: usize,
}

/// `x + 1`, wrapping around at the top of the range.
pub open spec fn wrapping_inc(x: usize) -> usize {
    if x == usize::MAX {
        0
    } else {
        (x + 1) as usize
    }
}

/// `x - 1`, wrapping around at zero.
pub open spec fn wrapping_dec(x: usize) -> usize {
    if x == 0 {
        usize::MAX
    } else {
        (x - 1) as usize
    }
}

/// Whether every name occurs at most once.
pub open spec fn names_unique(entries: Seq<(Seq<char>, AllocationStats)>) -> bool {
    forall|i: int, j: int|
        0 <= i < entries.len() && 0 <= j < entries.len() && i != j ==> #[trigger] entries[i].0
            != #[trigger] entries[j].0
}

/// Whether `name` has an entry.
pub open spec fn has_name(entries: Seq<(Seq<char>, AllocationStats)>, name: Seq<char>) -> bool {
    exists|i: int| 0 <= i < entries.len() && #[trigger] entries[i].0 == name
}

/// The position of the entry of `name` (meaningful when `has_name`).
pub open spec fn name_index(entries: Seq<(Seq<char>, AllocationStats)>, name: Seq<char>) -> int {
    choose|i: int| 0 <= i < entries.len() && #[trigger] entries[i].0 == name
}

/// The statistics recorded under `name` (all zero when there are none).
pub open spec fn stats_of(entries: Seq<(Seq<char>, AllocationStats)>, name: Seq<char>) -> AllocationStats {
    if has_name(entries, name) {
        entries[name_index(entries, name)].1
    } else {
        AllocationStats { count: 0, total_bytes: 0, peak_bytes: 0 }
    }
}

/// The entries after recording an allocation of `size` bytes under `name`:
/// its count grows by one, its bytes by `size`, its peak to at least `size`;
/// a new name is appended with a count of one.
pub open spec fn record_entry(
    entries: Seq<(Seq<char>, AllocationStats)>,
    name: Seq<char>,
    size: usize,
) -> Seq<(Seq<char>, AllocationStats)> {
    if has_name(entries, name) {
        let i = name_index(entries, name);
        let e = entries[i].1;
        entries.update(
            i,
            (
                name,
                AllocationStats {
                    count: (e.count + 1) as usize,
                    total_bytes: (e.total_bytes + size) as usize,
                    peak_bytes: if e.peak_bytes >= size {
                        e.peak_bytes
                    } else {
                        size
                    },
                },
            ),
        )
    } else {
        entries.push((name, AllocationStats { count: 1, total_bytes: size, peak_bytes: size }))
    }
}

/// Allocation tracker for leak detection.
pub struct MemoryTracker {
    total_allocations: usize,
    total_deallocations: usize,
    active_allocations: usize,
    peak_memory_usage: usize,
    allocation_stats: Vec<(String, AllocationStats)>,
}

/// Memory statistics.
#[derive(Debug, Clone)]
pub struct MemoryStats {
    pub total_allocations: usize,
    pub total_deallocations: usize,
    pub active_allocations: usize,
    pub peak_memory_usage: usize,
    pub leaked_allocations: usize,
    pub allocation_stats: Vec<(String, AllocationStats)>,
}

/// A component suspected of leaking.
#[derive(Debug, Clone)]
pub struct MemoryLeak {
    pub component: String,
    pub allocated: usize,
    pub estimated_leaked: usize,
    pub total_bytes: usize,
    pub severity: LeakSeverity,
}

/// Leak severity levels.
#[derive(Debug, Clone, PartialEq)]
pub enum LeakSeverity {
    Low,
    Medium,
    High,
    Critical,
}

/// Memory leak report.
#[derive(Debug, Clone)]
pub struct MemoryLeakReport {
    pub total_allocations: usize,
    pub total_deallocations: usize,
    pub leaked_allocations: usize,
    pub peak_memory_usage: usize,
    pub current_active: usize,
    pub leaks: Vec<MemoryLeak>,
}

/// The view of a list of named statistics.
pub open spec fn entries_view(v: Seq<(String, AllocationStats)>) -> Seq<(Seq<char>, AllocationStats)> {
    v.map_values(|e: (String, AllocationStats)| (e.0@, e.1))
}

/// `a - b`, or zero when `b` exceeds `a`.
pub open spec fn saturating_sub(a: usize, b: usize) -> usize {
    if a >= b {
        (a - b) as usize
    } else {
        0
    }
}

/// Whether an allocation site counts as leaking: it made allocations and
/// more than a tenth of all allocations (taking at least one).
pub open spec fn is_leaking_site(count: usize, total: usize) -> bool {
    count > 0 && 10 * count > (if total >= 1 {
        total as int
    } else {
        1
    })
}

/// The estimated number of leaked objects of a leaking site: its count
/// times its share of all allocations, rounded down, at most `usize::MAX`.
pub open spec fn estimated_leaked(count: usize, total: usize) -> usize {
    let t: int = if total >= 1 {
        total as int
    } else {
        1
    };
    let e = (count * count) / t;
    if e <= usize::MAX {
        e as usize
    } else {
        usize::MAX
    }
}

/// How grave the leaks are: critical once at least nine tenths of all
/// allocations are still live (`leaked` of `total`), high otherwise.
pub open spec fn severity_for(leaked: usize, total: usize) -> LeakSeverity {
    if 10 * (leaked as int) >= 9 * (total as int) {
        LeakSeverity::Critical
    } else {
        LeakSeverity::High
    }
}

/// The severity of the leaks when `leaked` of `total` allocations are live.
fn grade_severity(leaked: usize, total: usize) -> (r: LeakSeverity)
    ensures
        r == severity_for(leaked, total),
{
    if 10 * (leaked as u128) >= 9 * (total as u128) {
        LeakSeverity::Critical
    } else {
        LeakSeverity::High
    }
}

/// The leak entry reported for a site.
pub open spec fn leak_of(name: Seq<char>, s: AllocationStats, total: usize) -> (Seq<char>, usize, usize, usize) {
    (name, s.count, estimated_leaked(s.count, total), s.total_bytes)
}

/// The leaks reported for the sites `entries`, in their order.
pub open spec fn leaks_of(entries: Seq<(Seq<char>, AllocationStats)>, total: usize) -> Seq<(Seq<char>, usize, usize, usize)>
    decreases entries.len(),
{
    if entries.len() == 0 {
        seq![]
    } else {
        let rest = leaks_of(entries.drop_last(), total);
        let e = entries.last();
        if is_leaking_site(e.1.count, total) {
            rest.push(leak_of(e.0, e.1, total))
        } else {
            rest
        }
    }
}

/// The view of reported leaks: component, allocated, estimated leaked, bytes.
pub open spec fn leaks_view(v: Seq<MemoryLeak>) -> Seq<(Seq<char>, usize, usize, usize)> {
    v.map_values(|l: MemoryLeak| (l.component@, l.allocated, l.estimated_leaked, l.total_bytes))
}

impl MemoryTracker {
    pub closed spec fn spec_total_allocations(&self) -> usize {
        self.total_allocations
    }

    pub closed spec fn spec_total_deallocations(&self) -> usize {
        self.total_deallocations
    }

    pub closed spec fn spec_active_allocations(&self) -> usize {
        self.active_allocations
    }

    pub closed spec fn spec_peak_memory_usage(&self) -> usize {
        self.peak_memory_usage
    }

    /// The allocation sites, by name, in the order in which they first allocated.
    pub closed spec fn spec_entries(&self) -> Seq<(Seq<char>, AllocationStats)> {
        entries_view(self.allocation_stats@)
    }

    /// Well-formedness: each site appears once.
    pub open spec fn wf(&self) -> bool {
        names_unique(self.spec_entries())
    }

    /// An empty tracker.
    pub fn new() -> (r: Self)
        ensures
            r.wf(),
            r.spec_total_allocations() == 0,
            r.spec_total_deallocations() == 0,
            r.spec_active_allocations() == 0,
            r.spec_peak_memory_usage() == 0,
            r.spec_entries() == Seq::<(Seq<char>, AllocationStats)>::empty(),
    {
        let r = Self {
            total_allocations: 0,
            total_deallocations: 0,
            active_allocations: 0,
            peak_memory_usage: 0,
            allocation_stats: Vec::new(),
        };
        assert(r.spec_entries() =~= Seq::<(Seq<char>, AllocationStats)>::empty());
        r
    }

    /// Records an allocation of `size` bytes under `name`. The counters of
    /// allocations wrap around, like the atomic counters they stand for; the
    /// per-site sums do not (the caller keeps them in range).
    pub fn record_allocation(&mut self, name: &str, size: usize)
        requires
            old(self).wf(),
            stats_of(old(self).spec_entries(), name@).count < usize::MAX,
            stats_of(old(self).spec_entries(), name@).total_bytes + size <= usize::MAX,
        ensures
            final(self).wf(),
            final(self).spec_total_allocations() == wrapping_inc(old(self).spec_total_allocations()),
            final(self).spec_total_deallocations() == old(self).spec_total_deallocations(),
            final(self).spec_active_allocations() == wrapping_inc(old(self).spec_active_allocations()),
            final(self).spec_peak_memory_usage() == if wrapping_inc(
                old(self).spec_active_allocations(),
            ) > old(self).spec_peak_memory_usage() {
                wrapping_inc(old(self).spec_active_allocations())
            } else {
                old(self).spec_peak_memory_usage()
            },
            final(self).spec_entries() == record_entry(old(self).spec_entries(), name@, size),
    {
        self.total_allocations = if self.total_allocations == usize::MAX {
            0
        } else {
            self.total_allocations + 1
        };
        self.active_allocations = if self.active_allocations == usize::MAX {
            0
        } else {
            self.active_allocations + 1
        };
        let current = self.active_allocations;
        if current > self.peak_memory_usage {
            self.peak_memory_usage = current;
        }
        let ghost old_entries = entries_view(self.allocation_stats@);
        match self.find_entry(name) {
            Some(i) => {
                proof {
                    assert(has_name(old_entries, name@));
                    let k = name_index(old_entries, name@);
                    assert(old_entries[k].0 == name@);
                    assert(old_entries[i as int].0 == name@);
                    assert(k == i);
                }
                let e = self.allocation_stats[i].1;
                let new_stats = AllocationStats {
                    count: e.count + 1,
                    total_bytes: e.total_bytes + size,
                    peak_bytes: if e.peak_bytes >= size {
                        e.peak_bytes
                    } else {
                        size
                    },
                };
                let key = name.to_owned();
                self.allocation_stats.set(i, (key, new_stats));
                assert(entries_view(self.allocation_stats@) =~= record_entry(
                    old_entries,
                    name@,
                    size,
                ));
            },
            None => {
                self.allocation_stats.push(
                    (name.to_owned(), AllocationStats { count: 1, total_bytes: size, peak_bytes: size }),
                );
                assert(entries_view(self.allocation_stats@) =~= record_entry(
                    old_entries,
                    name@,
                    size,
                ));
            },
        }
    }

    /// The position of the site called `name`, if it has allocated.
    fn find_entry(&self, name: &str) -> (r: Option<usize>)
        ensures
            match r {
                Some(i) => i < self.allocation_stats@.len() && self.spec_entries()[i as int].0
                    == name@,
                None => !has_name(self.spec_entries(), name@),
            },
    {
        let n = self.allocation_stats.len();
        let key = name.to_owned();
        let mut i: usize = 0;
        while i < n
            invariant
                n == self.allocation_stats.len(),
                key@ == name@,
                i <= n,
                forall|j: int| 0 <= j < i ==> #[trigger] self.spec_entries()[j].0 != name@,
            decreases n - i,
        {
            if self.allocation_stats[i].0 == key {
                return Some(i);
            }
            i = i + 1;
        }
        None
    }

    /// Records a deallocation (the name and size are not used).
    pub fn record_deallocation(&mut self, name: &str, size: usize)
        requires
            old(self).wf(),
        ensures
            final(self).wf(),
            final(self).spec_total_allocations() == old(self).spec_total_allocations(),
            final(self).spec_total_deallocations() == wrapping_inc(
                old(self).spec_total_deallocations(),
            ),
            final(self).spec_active_allocations() == wrapping_dec(old(self).spec_active_allocations()),
            final(self).spec_peak_memory_usage() == old(self).spec_peak_memory_usage(),
            final(self).spec_entries() == old(self).spec_entries(),
    {
        self.total_deallocations = if self.total_deallocations == usize::MAX {
            0
        } else {
            self.total_deallocations + 1
        };
        self.active_allocations = if self.active_allocations == 0 {
            usize::MAX
        } else {
            self.active_allocations - 1
        };
    }

    fn copy_entries(&self) -> (r: Vec<(String, AllocationStats)>)
        ensures
            entries_view(r@) == self.spec_entries(),
    {
        let mut r: Vec<(String, AllocationStats)> = Vec::new();
        let n = self.allocation_stats.len();
        let mut i: usize = 0;
        while i < n
            invariant
                n == self.allocation_stats.len(),
                i <= n,
                r@.len() == i,
                forall|j: int|
                    0 <= j < i ==> (#[trigger] r@[j]).0@ == self.allocation_stats@[j].0@ && r@[j].1
                        == self.allocation_stats@[j].1,
            decreases n - i,
        {
            let name = self.allocation_stats[i].0.clone();
            let stats = self.allocation_stats[i].1;
            r.push((name, stats));
            i = i + 1;
        }
        assert(entries_view(r@) =~= entries_view(self.allocation_stats@));
        r
    }

    /// Current statistics; the leaked allocations are the allocations not
    /// matched by a deallocation.
    pub fn get_stats(&self) -> (r: MemoryStats)
        ensures
            r.total_allocations == self.spec_total_allocations(),
            r.total_deallocations == self.spec_total_deallocations(),
            r.active_allocations == self.spec_active_allocations(),
            r.peak_memory_usage == self.spec_peak_memory_usage(),
            r.leaked_allocations == saturating_sub(
                self.spec_total_allocations(),
                self.spec_total_deallocations(),
            ),
            entries_view(r.allocation_stats@) == self.spec_entries(),
    {
        let leaked = if self.total_allocations >= self.total_deallocations {
            self.total_allocations - self.total_deallocations
        } else {
            0
        };
        MemoryStats {
            total_allocations: self.total_allocations,
            total_deallocations: self.total_deallocations,
            active_allocations: self.active_allocations,
            peak_memory_usage: self.peak_memory_usage,
            leaked_allocations: leaked,
            allocation_stats: self.copy_entries(),
        }
    }

    /// Clears every counter and every site.
    pub fn reset(&mut self)
        ensures
            final(self).wf(),
            final(self).spec_total_allocations() == 0,
            final(self).spec_total_deallocations() == 0,
            final(self).spec_active_allocations() == 0,
            final(self).spec_peak_memory_usage() == 0,
            final(self).spec_entries() == Seq::<(Seq<char>, AllocationStats)>::empty(),
    {
        self.total_allocations = 0;
        self.total_deallocations = 0;
        self.active_allocations = 0;
        self.peak_memory_usage = 0;
        self.allocation_stats = Vec::new();
        assert(self.spec_entries() =~= Seq::<(Seq<char>, AllocationStats)>::empty());
    }

    /// Reports the counters and, when some allocations were not freed, every
    /// site that made more than a tenth of all allocations: critical where at
    /// least nine tenths of all allocations are still live, high otherwise.
    pub fn check_leaks(&self) -> (r: MemoryLeakReport)
        ensures
            r.total_allocations == self.spec_total_allocations(),
            r.total_deallocations == self.spec_total_deallocations(),
            r.leaked_allocations == saturating_sub(
                self.spec_total_allocations(),
                self.spec_total_deallocations(),
            ),
            r.peak_memory_usage == self.spec_peak_memory_usage(),
            r.current_active == self.spec_active_allocations(),
            leaks_view(r.leaks@) == if r.leaked_allocations > 0 {
                leaks_of(self.spec_entries(), self.spec_total_allocations())
            } else {
                Seq::empty()
            },
            forall|i: int| 0 <= i < r.leaks@.len() ==> r.leaks@[i].severity == severity_for(
                r.leaked_allocations,
                r.total_allocations,
            ),
    {
        let stats = self.get_stats();
        let mut leaks: Vec<MemoryLeak> = Vec::new();
        let total = stats.total_allocations;
        let ghost entries = entries_view(stats.allocation_stats@);
        if stats.leaked_allocations > 0 {
            let n = stats.allocation_stats.len();
            let mut i: usize = 0;
            while i < n
                invariant
                    n == stats.allocation_stats.len(),
                    entries == entries_view(stats.allocation_stats@),
                    total == stats.total_allocations,
                    i <= n,
                    leaks_view(leaks@) == leaks_of(entries.take(i as int), total),
                    forall|k: int| 0 <= k < leaks@.len() ==> leaks@[k].severity == severity_for(stats.leaked_allocations, total),
                decreases n - i,
            {
                let count = stats.allocation_stats[i].1.count;
                let bytes = stats.allocation_stats[i].1.total_bytes;
                let t: usize = if total >= 1 {
                    total
                } else {
                    1
                };
                proof {
                    assert(entries.take(i + 1).drop_last() =~= entries.take(i as int));
                }
                if count > 0 && count as u128 * 10 > t as u128 {
                    let c = count as u128;
                    assert(c * c <= u128::MAX) by (nonlinear_arith)
                        requires
                            c <= u64::MAX,
                    ;
                    let prod: u128 = c * c;
                    let est128: u128 = prod / (t as u128);
                    let est: usize = if est128 <= usize::MAX as u128 {
                        est128 as usize
                    } else {
                        usize::MAX
                    };
                    leaks.push(
                        MemoryLeak {
                            component: stats.allocation_stats[i].0.clone(),
                            allocated: count,
                            estimated_leaked: est,
                            total_bytes: bytes,
                            severity: grade_severity(stats.leaked_allocations, total),
                        },
                    );
                    assert(leaks_view(leaks@) =~= leaks_of(entries.take(i + 1), total));
                } else {
                    assert(leaks_view(leaks@) =~= leaks_of(entries.take(i + 1), total));
                }
                i = i + 1;
            }
            assert(entries.take(n as int) =~= entries);
        } else {
            assert(leaks_view(leaks@) =~= Seq::empty());
        }
        MemoryLeakReport {
            total_allocations: stats.total_allocations,
            total_deallocations: stats.total_deallocations,
            leaked_allocations: stats.leaked_allocations,
            peak_memory_usage: stats.peak_memory_usage,
            current_active: stats.active_allocations,
            leaks,
        }
    }
}

/// `{:?}` of a severity.
pub open spec fn severity_text(s: LeakSeverity) -> Seq<char> {
    match s {
        LeakSeverity::Low => "Low"@,
        LeakSeverity::Medium => "Medium"@,
        LeakSeverity::High => "High"@,
        LeakSeverity::Critical => "Critical"@,
    }
}

/// The report paragraph of one leak.
pub open spec fn leak_text(l: MemoryLeak) -> Seq<char> {
    "Component: "@ + l.component@ + " (Severity: "@ + severity_text(l.severity) + ")\n"@
        + "  Allocated: "@ + decimal(l.allocated as nat) + " objects\n"@
        + "  Estimated leaked: "@ + decimal(l.estimated_leaked as nat) + " objects\n"@
        + "  Total bytes: "@ + decimal(l.total_bytes as nat) + " bytes\n\n"@
}

/// The report paragraphs of `leaks`, in order.
pub open spec fn leaks_text(leaks: Seq<MemoryLeak>) -> Seq<char>
    decreases leaks.len(),
{
    if leaks.len() == 0 {
        seq![]
    } else {
        leaks_text(leaks.drop_last()) + leak_text(leaks.last())
    }
}

/// The human-readable text of a report.
pub open spec fn report_text(r: MemoryLeakReport) -> Seq<char> {
    "# Memory Leak Detection Report\n\n"@
        + "Total allocations: "@ + decimal(r.total_allocations as nat) + "\n"@
        + "Total deallocations: "@ + decimal(r.total_deallocations as nat) + "\n"@
        + "Leaked allocations: "@ + decimal(r.leaked_allocations as nat) + "\n"@
        + "Peak memory usage: "@ + decimal(r.peak_memory_usage as nat) + " bytes\n\n"@
        + "Current active allocations: "@ + decimal(r.current_active as nat) + "\n\n"@
        + if r.leaked_allocations > 0 {
        "## Potential Memory Leaks:\n\n"@ + leaks_text(r.leaks@)
    } else {
        "✅ No memory leaks detected\n"@
    }
}

/// The sum of the bytes of `leaks`.
pub open spec fn leaked_bytes(leaks: Seq<MemoryLeak>) -> nat
    decreases leaks.len(),
{
    if leaks.len() == 0 {
        0
    } else {
        leaked_bytes(leaks.drop_last()) + (leaks.last().total_bytes as nat)
    }
}

fn push_severity(s: &mut String, sev: &LeakSeverity)
    ensures
        final(s)@ == old(s)@ + severity_text(*sev),
{
    match sev {
        LeakSeverity::Low => push_str(s, "Low"),
        LeakSeverity::Medium => push_str(s, "Medium"),
        LeakSeverity::High => push_str(s, "High"),
        LeakSeverity::Critical => push_str(s, "Critical"),
    }
}

fn push_leak(s: &mut String, l: &MemoryLeak)
    ensures
        final(s)@ == old(s)@ + leak_text(*l),
{
    push_str(s, "Component: ");
    push_str(s, l.component.as_str());
    push_str(s, " (Severity: ");
    push_severity(s, &l.severity);
    push_str(s, ")\n");
    push_str(s, "  Allocated: ");
    push_decimal(s, l.allocated as u64);
    push_str(s, " objects\n");
    push_str(s, "  Estimated leaked: ");
    push_decimal(s, l.estimated_leaked as u64);
    push_str(s, " objects\n");
    push_str(s, "  Total bytes: ");
    push_decimal(s, l.total_bytes as u64);
    push_str(s, " bytes\n\n");
    assert(s@ =~= old(s)@ + leak_text(*l));
}

impl MemoryLeakReport {
    /// A human-readable report.
    pub fn generate_report(&self) -> (r: String)
        ensures
            r@ == report_text(*self),
    {
        let mut report = String::new();
        push_str(&mut report, "# Memory Leak Detection Report\n\n");
        push_str(&mut report, "Total allocations: ");
        push_decimal(&mut report, self.total_allocations as u64);
        push_str(&mut report, "\n");
        push_str(&mut report, "Total deallocations: ");
        push_decimal(&mut report, self.total_deallocations as u64);
        push_str(&mut report, "\n");
        push_str(&mut report, "Leaked allocations: ");
        push_decimal(&mut report, self.leaked_allocations as u64);
        push_str(&mut report, "\n");
        push_str(&mut report, "Peak memory usage: ");
        push_decimal(&mut report, self.peak_memory_usage as u64);
        push_str(&mut report, " bytes\n\n");
        push_str(&mut report, "Current active allocations: ");
        push_decimal(&mut report, self.current_active as u64);
        push_str(&mut report, "\n\n");
        let ghost head = report@;
        if self.leaked_allocations > 0 {
            push_str(&mut report, "## Potential Memory Leaks:\n\n");
            let ghost start = report@;
            let n = self.leaks.len();
            let mut i: usize = 0;
            while i < n
                invariant
                    n == self.leaks.len(),
                    i <= n,
                    report@ == start + leaks_text(self.leaks@.take(i as int)),
                decreases n - i,
            {
                push_leak(&mut report, &self.leaks[i]);
                proof {
                    assert(self.leaks@.take(i + 1).drop_last() =~= self.leaks@.take(i as int));
                }
                assert(report@ =~= start + leaks_text(self.leaks@.take(i + 1)));
                i = i + 1;
            }
            assert(self.leaks@.take(n as int) =~= self.leaks@);
        } else {
            push_str(&mut report, "✅ No memory leaks detected\n");
        }
        assert(report@ =~= report_text(*self));
        report
    }

    /// Whether any reported leak is critical.
    pub fn has_critical_leaks(&self) -> (r: bool)
        ensures
            r == exists|i: int|
                0 <= i < self.leaks@.len() && #[trigger] self.leaks@[i].severity
                    == LeakSeverity::Critical,
    {
        let n = self.leaks.len();
        let mut i: usize = 0;
        while i < n
            invariant
                n == self.leaks.len(),
                i <= n,
                forall|k: int| 0 <= k < i ==> #[trigger] self.leaks@[k].severity != LeakSeverity::Critical,
            decreases n - i,
        {
            match self.leaks[i].severity {
                LeakSeverity::Critical => {
                    return true;
                },
                _ => {},
            }
            i = i + 1;
        }
        false
    }

    /// The total bytes of all reported leaks.
    pub fn total_leaked_bytes(&self) -> (r: usize)
        requires
            leaked_bytes(self.leaks@) <= usize::MAX,
        ensures
            r == leaked_bytes(self.leaks@),
    {
        let n = self.leaks.len();
        let mut sum: usize = 0;
        let mut i: usize = 0;
        while i < n
            invariant
                n == self.leaks.len(),
                i <= n,
                sum == leaked_bytes(self.leaks@.take(i as int)),
                leaked_bytes(self.leaks@) <= usize::MAX,
            decreases n - i,
        {
            proof {
                assert(self.leaks@.take(i + 1).drop_last() =~= self.leaks@.take(i as int));
                lemma_leaked_bytes_prefix(self.leaks@, i + 1);
            }
            sum = sum + self.leaks[i].total_bytes;
            i = i + 1;
        }
        assert(self.leaks@.take(n as int) =~= self.leaks@);
        sum
    }
}

/// The bytes of a prefix of the leaks never exceed those of all of them.
proof fn lemma_leaked_bytes_prefix(leaks: Seq<MemoryLeak>, k: int)
    requires
        0 <= k <= leaks.len(),
    ensures
        leaked_bytes(leaks.take(k)) <= leaked_bytes(leaks),
    decreases leaks.len(),
{
    if k < leaks.len() {
        assert(leaks.drop_last().take(k) =~= leaks.take(k));
        lemma_leaked_bytes_prefix(leaks.drop_last(), k);
    } else {
        assert(leaks.take(k) =~= leaks);
    }
}

/// The number of allocations recorded over all sites.
pub open spec fn total_count(entries: Seq<(Seq<char>, AllocationStats)>) -> nat
    decreases entries.len(),
{
    if entries.len() == 0 {
        0
    } else {
        total_count(entries.drop_last()) + (entries.last().1.count as nat)
    }
}

proof fn lemma_total_count_update(
    entries: Seq<(Seq<char>, AllocationStats)>,
    i: int,
    x: (Seq<char>, AllocationStats),
)
    requires
        0 <= i < entries.len(),
    ensures
        total_count(entries.update(i, x)) + entries[i].1.count == total_count(entries) + x.1.count,
    decreases entries.len(),
{
    let u = entries.update(i, x);
    if i == entries.len() - 1 {
        assert(u.drop_last() =~= entries.drop_last());
    } else {
        assert(u.drop_last() =~= entries.drop_last().update(i, x));
        lemma_total_count_update(entries.drop_last(), i, x);
    }
}

/// Each recorded allocation adds exactly one to the allocations counted over
/// all sites; so, from an empty tracker and without wrap-around, the site
/// counts always add up to the total number of allocations.
pub proof fn law_site_counts_add_up(
    entries: Seq<(Seq<char>, AllocationStats)>,
    name: Seq<char>,
    size: usize,
)
    requires
        stats_of(entries, name).count < usize::MAX,
        stats_of(entries, name).total_bytes + size <= usize::MAX,
    ensures
        total_count(record_entry(entries, name, size)) == total_count(entries) + 1,
{
    if has_name(entries, name) {
        let i = name_index(entries, name);
        let e = entries[i].1;
        let x = (
            name,
            AllocationStats {
                count: (e.count + 1) as usize,
                total_bytes: (e.total_bytes + size) as usize,
                peak_bytes: if e.peak_bytes >= size {
                    e.peak_bytes
                } else {
                    size
                },
            },
        );
        lemma_total_count_update(entries, i, x);
    } else {
        let x = (name, AllocationStats { count: 1, total_bytes: size, peak_bytes: size });
        assert(entries.push(x).drop_last() =~= entries);
    }
}

/// Recording an allocation keeps each site once, and the site of `name`
/// afterwards has one more allocation and `size` more bytes.
pub proof fn law_record_updates_site(
    entries: Seq<(Seq<char>, AllocationStats)>,
    name: Seq<char>,
    size: usize,
)
    requires
        names_unique(entries),
        stats_of(entries, name).count < usize::MAX,
        stats_of(entries, name).total_bytes + size <= usize::MAX,
    ensures
        names_unique(record_entry(entries, name, size)),
        stats_of(record_entry(entries, name, size), name).count == stats_of(entries, name).count + 1,
        stats_of(record_entry(entries, name, size), name).total_bytes == stats_of(entries, name).total_bytes + size,
{
    let r = record_entry(entries, name, size);
    if has_name(entries, name) {
        let i = name_index(entries, name);
        assert(r[i].0 == name);
        assert(has_name(r, name));
        let j = name_index(r, name);
        assert(r[j].0 == name);
        if j != i {
            assert(entries[j].0 == name);
        }
        assert forall|a: int, b: int| 0 <= a < r.len() && 0 <= b < r.len() && a != b implies #[trigger] r[a].0 != #[trigger] r[b].0 by {
            if a != i && b != i {
                assert(r[a] == entries[a] && r[b] == entries[b]);
            } else if a == i {
                assert(r[b] == entries[b]);
                assert(entries[b].0 != entries[i].0);
            } else {
                assert(r[a] == entries[a]);
                assert(entries[a].0 != entries[i].0);
            }
        }
    } else {
        let last = r.len() - 1;
        assert(r[last].0 == name);
        assert(has_name(r, name));
        let j = name_index(r, name);
        if j != last {
            assert(r[j] == entries[j]);
        }
        assert forall|a: int, b: int| 0 <= a < r.len() && 0 <= b < r.len() && a != b implies #[trigger] r[a].0 != #[trigger] r[b].0 by {
            if a < last && b < last {
                assert(r[a] == entries[a] && r[b] == entries[b]);
            } else if a == last {
                assert(r[b] == entries[b]);
            } else {
                assert(r[a] == entries[a]);
            }
        }
    }
}

} // verus!
