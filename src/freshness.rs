use vstd::prelude::*;

verus! {

/// Modification times of a source image and of its optimized copy, in
/// nanoseconds relative to a fixed epoch.
#[derive(Debug, Clone, Copy, PartialEq, Eq)]
pub struct FileTimes {
    pub source: i128,
    /// `None` where no optimized copy exists yet.
    pub optimized: Option<i128>,
}

/// A source needs recompression unless checks are on and its optimized copy is
/// strictly newer.
pub open spec fn stale(skip_fresh_checks: bool, t: FileTimes) -> bool {
    match t.optimized {
        Some(out) => skip_fresh_checks || t.source >= out,
        None => true,
    }
}

/// Whether any of the sources needs recompression.
pub open spec fn any_stale(skip_fresh_checks: bool, ts: Seq<FileTimes>) -> bool {
    exists|k: int| 0 <= k < ts.len() && stale(skip_fresh_checks, #[trigger] ts[k])
}

/// Decides whether one source must be recompressed.
pub fn is_stale(skip_fresh_checks: bool, t: &FileTimes) -> (r: bool)
    ensures
        r == stale(skip_fresh_checks, *t),
{
    match t.optimized {
        Some(out) => skip_fresh_checks || t.source >= out,
        None => true,
    }
}

/// What one run does: the positions of the sources to recompress, in order,
/// and whether the atlas is packed again.
#[derive(Debug, Clone)]
pub struct RunPlan {
    pub recompress: Vec<usize>,
    pub packing_needed: bool,
}

/// Plans a run from the modification times of all sources.
pub fn plan_run(skip_fresh_checks: bool, times: &Vec<FileTimes>) -> (r: RunPlan)
    ensures
        r.recompress@.len() <= times@.len(),
        forall|j: int| 0 <= j < r.recompress@.len() ==> (#[trigger] r.recompress@[j]) < times@.len()
            && stale(skip_fresh_checks, times@[r.recompress@[j] as int]),
        forall|j: int, l: int| 0 <= j < l < r.recompress@.len()
            ==> r.recompress@[j] < r.recompress@[l],
        forall|k: int| 0 <= k < times@.len() && stale(skip_fresh_checks, #[trigger] times@[k])
            ==> r.recompress@.contains(k as usize),
        r.packing_needed == any_stale(skip_fresh_checks, times@),
        r.packing_needed == (r.recompress@.len() > 0),
{
    let mut recompress: Vec<usize> = Vec::new();
    let mut i: usize = 0;
    while i < times.len()
        invariant
            i <= times@.len(),
            recompress@.len() <= i,
            forall|j: int| 0 <= j < recompress@.len() ==> (#[trigger] recompress@[j]) < i
                && stale(skip_fresh_checks, times@[recompress@[j] as int]),
            forall|j: int, l: int| 0 <= j < l < recompress@.len()
                ==> recompress@[j] < recompress@[l],
            forall|k: int| 0 <= k < i && stale(skip_fresh_checks, #[trigger] times@[k])
                ==> recompress@.contains(k as usize),
        decreases times@.len() - i,
    {
        let ghost before = recompress@;
        let now_stale = is_stale(skip_fresh_checks, &times[i]);
        if now_stale {
            recompress.push(i);
        }
        proof {
            assert forall|k: int| 0 <= k < i + 1 && stale(skip_fresh_checks, #[trigger] times@[k])
                implies recompress@.contains(k as usize) by {
                if k < i {
                    let j = choose|j: int| 0 <= j < before.len() && before[j] == k as usize;
                    assert(recompress@[j] == k as usize);
                } else {
                    assert(recompress@[recompress@.len() - 1] == i);
                }
            }
        }
        i = i + 1;
    }
    let packing_needed = recompress.len() > 0;
    proof {
        if packing_needed {
            let k = recompress@[0] as int;
            assert(stale(skip_fresh_checks, times@[k]));
        } else {
            assert forall|k: int| 0 <= k < times@.len() implies !stale(skip_fresh_checks, #[trigger] times@[k]) by {
                if stale(skip_fresh_checks, times@[k]) {
                    assert(recompress@.contains(k as usize));
                }
            }
        }
    }
    RunPlan { recompress, packing_needed }
}

/// A second run over sources that did not change since the first, whose
/// optimized copies were therefore all written after their sources, with
/// freshness checks on, recompresses nothing and does not pack again.
pub proof fn lemma_unchanged_sources_need_no_work(times: Seq<FileTimes>)
    requires
        forall|k: int| 0 <= k < times.len() ==> match (#[trigger] times[k]).optimized {
            Some(out) => times[k].source < out,
            None => false,
        },
    ensures
        forall|k: int| 0 <= k < times.len() ==> !stale(false, #[trigger] times[k]),
        !any_stale(false, times),
{
    assert forall|k: int| 0 <= k < times.len() implies !stale(false, #[trigger] times[k]) by {
        match times[k].optimized {
            Some(out) => {},
            None => {},
        }
    }
}

} // verus!
