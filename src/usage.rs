//! Host memory and CPU figures, and the selection of the busiest processes.
//!
//! Percentages are held in hundredths of a percent (`10000` is 100%).

use vstd::prelude::*;

verus! {

/// Number of processes listed under each host metric.
pub const TOP_PROCESS_CAP: usize = 3;

/// `i` is listed ahead of `j`: a larger key first, equal keys in input order.
pub open spec fn ranks_before(keys: Seq<u64>, i: int, j: int) -> bool {
    keys[i] > keys[j] || (keys[i] == keys[j] && i < j)
}

pub open spec fn min_nat(a: nat, b: nat) -> nat {
    if a <= b {
        a
    } else {
        b
    }
}

/// `idx` lists, best first, the `cap` highest-ranked positions of `keys`
/// (all of them when there are fewer).
pub open spec fn is_top_selection(keys: Seq<u64>, cap: nat, idx: Seq<usize>) -> bool {
    &&& idx.len() == min_nat(cap, keys.len())
    &&& forall|k: int| 0 <= k < idx.len() ==> idx[k] < keys.len()
    &&& forall|k: int, l: int|
        0 <= k < l < idx.len() ==> ranks_before(keys, idx[k] as int, idx[l] as int)
    &&& forall|k: int, j: int|
        0 <= k < idx.len() && 0 <= j < keys.len() && !idx.contains(j as usize) ==> ranks_before(
            keys,
            idx[k] as int,
            j,
        )
}

/// A top list is never longer than the cap and is ordered by the compared
/// key, largest first; where no two keys are equal it is strictly descending.
pub proof fn lemma_top_list_descending(keys: Seq<u64>, cap: nat, idx: Seq<usize>)
    requires
        is_top_selection(keys, cap, idx),
    ensures
        idx.len() <= cap,
        forall|k: int, l: int|
            0 <= k < l < idx.len() ==> keys[idx[k] as int] >= keys[idx[l] as int],
        (forall|i: int, j: int| 0 <= i < j < keys.len() ==> keys[i] != keys[j]) ==> forall|
            k: int,
            l: int,
        | 0 <= k < l < idx.len() ==> keys[idx[k] as int] > keys[idx[l] as int],
{
    assert forall|k: int, l: int| 0 <= k < l < idx.len() implies keys[idx[k] as int]
        >= keys[idx[l] as int] by {
        assert(ranks_before(keys, idx[k] as int, idx[l] as int));
    }
    if forall|i: int, j: int| 0 <= i < j < keys.len() ==> keys[i] != keys[j] {
        assert forall|k: int, l: int| 0 <= k < l < idx.len() implies keys[idx[k] as int]
            > keys[idx[l] as int] by {
            let (i, j) = (idx[k] as int, idx[l] as int);
            assert(ranks_before(keys, i, j));
            if i < j {
                assert(keys[i] != keys[j]);
            } else if j < i {
                assert(keys[j] != keys[i]);
            }
        }
    }
}

/// There is only one top selection for given keys and cap, so a result
/// described through one is fully determined.
pub proof fn lemma_top_selection_unique(keys: Seq<u64>, cap: nat, a: Seq<usize>, b: Seq<usize>)
    requires
        is_top_selection(keys, cap, a),
        is_top_selection(keys, cap, b),
    ensures
        a == b,
{
    if a.len() > 0 {
        lemma_top_prefix_agrees(keys, cap, a, b, (a.len() - 1) as nat);
    }
    assert(a =~= b);
}

proof fn lemma_top_prefix_agrees(keys: Seq<u64>, cap: nat, a: Seq<usize>, b: Seq<usize>, k: nat)
    requires
        is_top_selection(keys, cap, a),
        is_top_selection(keys, cap, b),
        k < a.len(),
    ensures
        forall|j: int| 0 <= j <= k ==> a[j] == b[j],
    decreases k,
{
    if k > 0 {
        lemma_top_prefix_agrees(keys, cap, a, b, (k - 1) as nat);
    }
    let (x, y) = (a[k as int], b[k as int]);
    if x != y {
        // x ranks before y ...
        if a.contains(y) {
            let l = choose|l: int| 0 <= l < a.len() && a[l] == y;
            if l < k {
                assert(b[l] == y);
                assert(ranks_before(keys, b[l] as int, b[k as int] as int));
            }
            assert(l > k);
            assert(ranks_before(keys, x as int, y as int));
        } else {
            assert(ranks_before(keys, x as int, y as int));
        }
        // ... and y ranks before x
        if b.contains(x) {
            let l = choose|l: int| 0 <= l < b.len() && b[l] == x;
            if l < k {
                assert(a[l] == x);
                assert(ranks_before(keys, a[l] as int, a[k as int] as int));
            }
            assert(l > k);
            assert(ranks_before(keys, y as int, x as int));
        } else {
            assert(ranks_before(keys, y as int, x as int));
        }
    }
}

/// Positions of the `cap` largest keys, largest first; equal keys keep their
/// input order.
pub fn top_indices(keys: &Vec<u64>, cap: usize) -> (r: Vec<usize>)
    ensures
        is_top_selection(keys@, cap as nat, r@),
{
    let n = keys.len();
    let goal = if cap < n {
        cap
    } else {
        n
    };
    let mut taken: Vec<bool> = Vec::new();
    for t in 0..n
        invariant
            taken@.len() == t,
            forall|j: int| 0 <= j < t ==> !taken@[j],
    {
        taken.push(false);
    }
    let mut r: Vec<usize> = Vec::new();
    while r.len() < goal
        invariant
            n == keys.len(),
            goal == min_nat(cap as nat, n as nat),
            r.len() <= goal,
            taken@.len() == n,
            forall|k: int| 0 <= k < r.len() ==> r[k] < n,
            forall|j: int| 0 <= j < n ==> (taken@[j] <==> r@.contains(j as usize)),
            forall|k: int, l: int|
                0 <= k < l < r.len() ==> ranks_before(keys@, r[k] as int, r[l] as int),
            forall|k: int, j: int|
                0 <= k < r.len() && 0 <= j < n && !taken@[j] ==> ranks_before(
                    keys@,
                    r[k] as int,
                    j,
                ),
        decreases goal - r.len(),
    {
        // some position is still free, since fewer than n are taken
        let mut best: usize = n;
        let mut j: usize = 0;
        while j < n
            invariant
                n == keys.len(),
                taken@.len() == n,
                j <= n,
                best == n || (best < j && !taken@[best as int]),
                forall|x: int|
                    0 <= x < j && !taken@[x] ==> best < n && (x == best || ranks_before(
                        keys@,
                        best as int,
                        x,
                    )),
            decreases n - j,
        {
            if !taken[j] && (best == n || keys[j] > keys[best]) {
                best = j;
            }
            j = j + 1;
        }
        proof {
            if best == n {
                // every position is taken, so r holds n distinct positions
                assert forall|x: usize| (x as int) < n implies #[trigger] r@.contains(x) by {
                    assert(taken@[x as int]);
                }
                lemma_all_taken_len(r@, n as nat);
            }
        }
        assert(best < n);
        let ghost old_r = r@;
        r.push(best);
        taken.set(best, true);
        proof {
            assert forall|x: int| 0 <= x < n implies (taken@[x] <==> r@.contains(x as usize)) by {
                if x == best {
                    assert(r@[r.len() - 1] == best);
                } else {
                    if old_r.contains(x as usize) {
                        let w = choose|w: int| 0 <= w < old_r.len() && old_r[w] == x as usize;
                        assert(r@[w] == x as usize);
                    }
                    if r@.contains(x as usize) {
                        let w = choose|w: int| 0 <= w < r.len() && r@[w] == x as usize;
                        assert(w < old_r.len());
                        assert(old_r[w] == x as usize);
                    }
                }
            }
        }
    }
    r
}

/// `r` holds distinct positions below `n` and misses none of them, so it has
/// at least `n` entries.
proof fn lemma_all_taken_len(r: Seq<usize>, n: nat)
    requires
        n <= usize::MAX,
        forall|j: usize| (j as int) < n ==> #[trigger] r.contains(j),
    ensures
        r.len() >= n,
{
    let ri = r.map_values(|x: usize| x as int);
    let s = vstd::set_lib::set_int_range(0, n as int);
    let rs = ri.to_set();
    assert(s.subset_of(rs)) by {
        assert forall|j: int| s.contains(j) implies rs.contains(j) by {
            assert(r.contains(j as usize));
            let w = choose|w: int| 0 <= w < r.len() && r[w] == j as usize;
            assert(ri[w] == j);
        }
    }
    vstd::set_lib::lemma_int_range(0, n as int);
    vstd::seq_lib::seq_to_set_is_finite(ri);
    vstd::set_lib::lemma_len_subset(s, rs);
    ri.lemma_cardinality_of_set();
}

/// One process under the memory metric.
pub struct ProcessMemory {
    pub name: String,
    pub memory: u64,
    /// Share of total memory, in hundredths of a percent.
    pub percentage: u128,
}

/// Host memory figures.
pub struct RamUsage {
    pub used: u64,
    pub total: u64,
    /// Share of total memory in use, in hundredths of a percent.
    pub percentage: u128,
    pub top_processes: Vec<ProcessMemory>,
}

/// One core's load, in hundredths of a percent.
pub struct CpuCore {
    pub core_id: usize,
    pub usage: u64,
}

/// One process under the CPU metric, its load in hundredths of a percent.
pub struct ProcessLoad {
    pub name: String,
    pub cpu_usage: u64,
}

/// Host CPU figures.
pub struct CpuUsage {
    /// Mean of the per-core loads, rounded down.
    pub overall_usage: u64,
    pub cores: Vec<CpuCore>,
    pub top_processes: Vec<ProcessLoad>,
}

/// `part` as a share of `total` in hundredths of a percent; `0` when
/// `total` is zero.
pub open spec fn share(part: u64, total: u64) -> int {
    if total == 0 {
        0
    } else {
        (part as int * 10000) / (total as int)
    }
}

pub open spec fn sum_of(s: Seq<u64>) -> int
    decreases s.len(),
{
    if s.len() == 0 {
        0
    } else {
        sum_of(s.drop_last()) + s.last()
    }
}

/// Mean of `s`, rounded down; `0` for no values.
pub open spec fn mean_of(s: Seq<u64>) -> int {
    if s.len() == 0 {
        0
    } else {
        sum_of(s) / (s.len() as int)
    }
}

pub open spec fn second_of(s: Seq<(String, u64)>) -> Seq<u64> {
    s.map_values(|p: (String, u64)| p.1)
}

/// Computes `share(part, total)`.
pub fn share_of(part: u64, total: u64) -> (r: u128)
    ensures
        r == share(part, total),
{
    if total == 0 {
        0
    } else {
        assert(part as int * 10000 <= u64::MAX as int * 10000) by (nonlinear_arith);
        (part as u128 * 10000) / (total as u128)
    }
}

fn keys_of(readings: &Vec<(String, u64)>) -> (r: Vec<u64>)
    ensures
        r@ == second_of(readings@),
{
    let mut r: Vec<u64> = Vec::new();
    for i in 0..readings.len()
        invariant
            r@ == second_of(readings@).take(i as int),
    {
        r.push(readings[i].1);
        assert(r@ =~= second_of(readings@).take(i + 1));
    }
    r
}

impl RamUsage {
    /// Memory figures from the used and total bytes and each process's
    /// resident bytes; the processes listed are the `TOP_PROCESS_CAP` largest.
    pub fn from_readings(used: u64, total: u64, processes: &Vec<(String, u64)>) -> (r: RamUsage)
        ensures
            r.used == used,
            r.total == total,
            r.percentage == share(used, total),
            exists|idx: Seq<usize>|
                {
                    &&& is_top_selection(second_of(processes@), TOP_PROCESS_CAP as nat, idx)
                    &&& r.top_processes@.len() == idx.len()
                    &&& forall|k: int|
                        0 <= k < idx.len() ==> {
                            let p = #[trigger] processes@[idx[k] as int];
                            &&& r.top_processes@[k].name@ == p.0@
                            &&& r.top_processes@[k].memory == p.1
                            &&& r.top_processes@[k].percentage == share(p.1, total)
                        }
                },
    {
        let keys = keys_of(processes);
        let idx = top_indices(&keys, TOP_PROCESS_CAP);
        let mut top: Vec<ProcessMemory> = Vec::new();
        for k in 0..idx.len()
            invariant
                keys@ == second_of(processes@),
                is_top_selection(keys@, TOP_PROCESS_CAP as nat, idx@),
                top@.len() == k,
                forall|m: int|
                    0 <= m < k ==> {
                        let p = #[trigger] processes@[idx@[m] as int];
                        &&& top@[m].name@ == p.0@
                        &&& top@[m].memory == p.1
                        &&& top@[m].percentage == share(p.1, total)
                    },
        {
            let p = &processes[idx[k]];
            top.push(
                ProcessMemory {
                    name: p.0.clone(),
                    memory: p.1,
                    percentage: share_of(p.1, total),
                },
            );
        }
        RamUsage { used, total, percentage: share_of(used, total), top_processes: top }
    }
}

impl CpuUsage {
    /// CPU figures from each core's load and each process's load (all in
    /// hundredths of a percent); the processes listed are the
    /// `TOP_PROCESS_CAP` busiest.
    pub fn from_readings(core_loads: &Vec<u64>, processes: &Vec<(String, u64)>) -> (r: CpuUsage)
        ensures
            r.overall_usage == mean_of(core_loads@),
            r.cores@.len() == core_loads@.len(),
            forall|i: int|
                0 <= i < core_loads@.len() ==> r.cores@[i].core_id == i && r.cores@[i].usage
                    == core_loads@[i],
            exists|idx: Seq<usize>|
                {
                    &&& is_top_selection(second_of(processes@), TOP_PROCESS_CAP as nat, idx)
                    &&& r.top_processes@.len() == idx.len()
                    &&& forall|k: int|
                        0 <= k < idx.len() ==> {
                            let p = #[trigger] processes@[idx[k] as int];
                            &&& r.top_processes@[k].name@ == p.0@
                            &&& r.top_processes@[k].cpu_usage == p.1
                        }
                },
    {
        let mut cores: Vec<CpuCore> = Vec::new();
        let mut sum: u128 = 0;
        let n = core_loads.len();
        let mut i: usize = 0;
        while i < n
            invariant
                n == core_loads@.len(),
                i <= n,
                cores@.len() == i,
                sum == sum_of(core_loads@.take(i as int)),
                sum <= i * (u64::MAX as int),
                forall|m: int|
                    0 <= m < i ==> (#[trigger] cores@[m]).core_id == m && cores@[m].usage
                        == core_loads@[m],
            decreases n - i,
        {
            assert(core_loads@.take(i + 1).drop_last() =~= core_loads@.take(i as int));
            assert((i + 1) * (u64::MAX as int) == i * (u64::MAX as int) + u64::MAX)
                by (nonlinear_arith);
            assert(i * (u64::MAX as int) <= usize::MAX as int * (u64::MAX as int))
                by (nonlinear_arith)
                requires
                    i <= usize::MAX,
            ;
            sum = sum + core_loads[i] as u128;
            cores.push(CpuCore { core_id: i, usage: core_loads[i] });
            i = i + 1;
        }
        assert(core_loads@.take(n as int) =~= core_loads@);
        proof {
            if n > 0 {
                assert((sum as int) / (n as int) <= u64::MAX) by (nonlinear_arith)
                    requires
                        sum <= n * (u64::MAX as int),
                        n > 0,
                ;
            }
        }
        let overall = if n == 0 {
            0
        } else {
            (sum / (n as u128)) as u64
        };
        let keys = keys_of(processes);
        let idx = top_indices(&keys, TOP_PROCESS_CAP);
        let mut top: Vec<ProcessLoad> = Vec::new();
        for k in 0..idx.len()
            invariant
                keys@ == second_of(processes@),
                is_top_selection(keys@, TOP_PROCESS_CAP as nat, idx@),
                top@.len() == k,
                forall|m: int|
                    0 <= m < k ==> {
                        let p = #[trigger] processes@[idx@[m] as int];
                        &&& top@[m].name@ == p.0@
                        &&& top@[m].cpu_usage == p.1
                    },
        {
            let p = &processes[idx[k]];
            top.push(ProcessLoad { name: p.0.clone(), cpu_usage: p.1 });
        }
        CpuUsage { overall_usage: overall, cores, top_processes: top }
    }
}

} // verus!
