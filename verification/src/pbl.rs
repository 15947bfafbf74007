//! Bookkeeping of mixing-height diagnosis over a grid (every cell either
//! already had a height, received a diagnosed one, or could not be
//! diagnosed), and the choice of the usable levels of a profile column.

use vstd::prelude::*;

verus! {

/// What happened to one grid cell.
#[derive(Debug, Clone, Copy, PartialEq, Eq, Structural)]
pub enum CellDiagnosis {
    /// The cell already carried a usable height.
    Provided,
    /// A height was diagnosed for the cell.
    Diagnosed,
    /// Diagnosis failed; the fallback applies downstream.
    Failed,
}

/// Counts of the cells of a grid by what happened to them.
#[derive(Debug, Clone, Copy, PartialEq, Eq, Structural)]
pub struct MixingHeightDiagnosisOutcome {
    pub diagnosed: usize,
    pub provided: usize,
    pub failed: usize,
}

impl MixingHeightDiagnosisOutcome {
    /// No cell counted yet.
    pub fn empty() -> (r: Self)
        ensures
            r.diagnosed == 0 && r.provided == 0 && r.failed == 0,
    {
        MixingHeightDiagnosisOutcome { diagnosed: 0, provided: 0, failed: 0 }
    }

    /// Every one of `nx * ny` cells counted as provided (saturating), the
    /// outcome when no usable column exists and the grid is left as it is.
    pub fn all_provided(nx: usize, ny: usize) -> (r: Self)
        ensures
            r.diagnosed == 0 && r.failed == 0,
            r.provided == if nx * ny > usize::MAX {
                usize::MAX as int
            } else {
                nx * ny
            },
    {
        let provided = match nx.checked_mul(ny) {
            Some(p) => p,
            None => usize::MAX,
        };
        MixingHeightDiagnosisOutcome { diagnosed: 0, provided, failed: 0 }
    }

    /// Number of cells counted.
    pub open spec fn total(&self) -> int {
        self.diagnosed + self.provided + self.failed
    }

    /// Counts one more cell.
    pub fn record(&mut self, cell: CellDiagnosis)
        requires
            old(self).total() < usize::MAX,
        ensures
            final(self).total() == old(self).total() + 1,
            final(self).diagnosed == old(self).diagnosed + if cell == CellDiagnosis::Diagnosed {
                1int
            } else {
                0int
            },
            final(self).provided == old(self).provided + if cell == CellDiagnosis::Provided {
                1int
            } else {
                0int
            },
            final(self).failed == old(self).failed + if cell == CellDiagnosis::Failed {
                1int
            } else {
                0int
            },
    {
        match cell {
            CellDiagnosis::Provided => self.provided = self.provided + 1,
            CellDiagnosis::Diagnosed => self.diagnosed = self.diagnosed + 1,
            CellDiagnosis::Failed => self.failed = self.failed + 1,
        }
    }
}

/// Index of the first `true` in `s` at or after `k`, or the length.
pub open spec fn first_true_from(s: Seq<bool>, k: int) -> int
    decreases s.len() - k,
{
    if k < 0 || k >= s.len() {
        s.len() as int
    } else if s[k] {
        k
    } else {
        first_true_from(s, k + 1)
    }
}

/// End of the run of levels from `k` on that are positive and higher than
/// the level below them.
pub open spec fn rising_run_end(positive: Seq<bool>, rises: Seq<bool>, k: int) -> int
    decreases positive.len() - k,
{
    if k < 0 || k >= positive.len() {
        positive.len() as int
    } else if positive[k] && rises[k] {
        rising_run_end(positive, rises, k + 1)
    } else {
        k
    }
}

/// The usable levels `[start, end)` of a column whose level `k` has a
/// positive height when `positive[k]` and lies above level `k - 1` when
/// `rises[k]`: leading non-positive levels are skipped, and the usable run
/// ends at the first later level that is not positive or not higher.
pub open spec fn usable_levels(positive: Seq<bool>, rises: Seq<bool>) -> (int, int) {
    let start = first_true_from(positive, 0);
    if start >= positive.len() {
        (start, start)
    } else {
        (start, rising_run_end(positive, rises, start + 1))
    }
}

proof fn lemma_first_true_from(s: Seq<bool>, k: int)
    requires
        0 <= k <= s.len(),
    ensures
        k <= first_true_from(s, k) <= s.len(),
        forall|j: int| k <= j < first_true_from(s, k) ==> !s[j],
        first_true_from(s, k) < s.len() ==> s[first_true_from(s, k)],
    decreases s.len() - k,
{
    if k < s.len() && !s[k] {
        lemma_first_true_from(s, k + 1);
    }
}

proof fn lemma_rising_run_end(positive: Seq<bool>, rises: Seq<bool>, k: int)
    requires
        positive.len() == rises.len(),
        0 <= k <= positive.len(),
    ensures
        k <= rising_run_end(positive, rises, k) <= positive.len(),
        forall|j: int| k <= j < rising_run_end(positive, rises, k) ==> positive[j] && rises[j],
        rising_run_end(positive, rises, k) < positive.len() ==> !(positive[rising_run_end(
            positive,
            rises,
            k,
        )] && rises[rising_run_end(positive, rises, k)]),
    decreases positive.len() - k,
{
    if k < positive.len() && positive[k] && rises[k] {
        lemma_rising_run_end(positive, rises, k + 1);
    }
}

/// The usable levels of a column, as `(start, end)`: see [`usable_levels`].
pub fn usable_level_range(positive: &Vec<bool>, rises: &Vec<bool>) -> (r: (usize, usize))
    requires
        positive.len() == rises.len(),
    ensures
        r.0 as int == usable_levels(positive@, rises@).0,
        r.1 as int == usable_levels(positive@, rises@).1,
        r.0 <= r.1 <= positive.len(),
        forall|k: int| r.0 <= k < r.1 ==> positive@[k],
        forall|k: int| r.0 < k < r.1 ==> rises@[k],
{
    let n = positive.len();
    let mut start: usize = 0;
    proof {
        lemma_first_true_from(positive@, 0);
    }
    while start < n && !positive[start]
        invariant
            start <= n,
            n == positive.len(),
            first_true_from(positive@, 0) == first_true_from(positive@, start as int),
        decreases n - start,
    {
        start = start + 1;
    }
    proof {
        lemma_first_true_from(positive@, start as int);
    }
    if start >= n {
        return (start, start);
    }
    let mut end: usize = start + 1;
    proof {
        lemma_rising_run_end(positive@, rises@, end as int);
    }
    while end < n && positive[end] && rises[end]
        invariant
            start < end <= n,
            n == positive.len(),
            n == rises.len(),
            rising_run_end(positive@, rises@, start as int + 1) == rising_run_end(
                positive@,
                rises@,
                end as int,
            ),
        decreases n - end,
    {
        end = end + 1;
    }
    proof {
        lemma_rising_run_end(positive@, rises@, start as int + 1);
    }
    (start, end)
}

} // verus!
