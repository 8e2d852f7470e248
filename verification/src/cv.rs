//! Purged K-fold cross-validation over a bar series.
//!
//! Standard K-fold CV leaks information when trades overlap across fold
//! boundaries. Purged CV leaves a gap of `purge_bars` between the
//! out-of-sample fold and the in-sample bars on either side of it.

use vstd::prelude::*;
use std::ops::Range;

verus! {

/// Purged K-fold cross-validation splits over `n_bars` bars.
pub struct PurgedCv {
    n_bars: usize,
    n_folds: usize,
    purge_bars: usize,
}

impl PurgedCv {
    /// Number of bars covered by the splits.
    pub closed spec fn bars(&self) -> nat {
        self.n_bars as nat
    }

    /// Number of folds.
    pub closed spec fn folds(&self) -> nat {
        self.n_folds as nat
    }

    /// Width of the purge gap, in bars.
    pub closed spec fn purge(&self) -> nat {
        self.purge_bars as nat
    }

    /// Bars per fold (the last fold also takes the remainder).
    pub open spec fn fold_size(&self) -> nat
        recommends
            self.folds() > 0,
    {
        self.bars() / self.folds()
    }

    /// First bar of the out-of-sample range of `fold`.
    pub open spec fn oos_start(&self, fold: nat) -> nat {
        fold * self.fold_size()
    }

    /// One past the last bar of the out-of-sample range of `fold`.
    pub open spec fn oos_end(&self, fold: nat) -> nat {
        if fold + 1 == self.folds() {
            self.bars()
        } else {
            (fold + 1) * self.fold_size()
        }
    }

    /// Whether bar `i` is in-sample for `fold`: more than `purge` bars before
    /// the start of the out-of-sample range, or at least `purge` bars past its
    /// end and still inside the data.
    pub open spec fn in_sample(&self, fold: nat, i: int) -> bool {
        ||| 0 <= i && i + self.purge() < self.oos_start(fold)
        ||| self.oos_end(fold) + self.purge() <= i < self.bars()
    }

    /// Create purged CV splits.
    ///
    /// - `n_bars`: total number of bars in the dataset
    /// - `n_folds`: number of CV folds
    /// - `purge_bars`: number of bars to exclude between train/test
    pub fn new(n_bars: usize, n_folds: usize, purge_bars: usize) -> (r: Self)
        ensures
            r.bars() == n_bars,
            r.folds() == n_folds,
            r.purge() == purge_bars,
    {
        Self { n_bars, n_folds, purge_bars }
    }

    /// Number of folds.
    pub fn n_folds(&self) -> (r: usize)
        ensures
            r == self.folds(),
    {
        self.n_folds
    }

    /// The out-of-sample (test) range of bar indices for fold `fold_idx`.
    /// Every fold gets `n_bars / n_folds` bars; the last one also takes the
    /// remainder, so the folds tile `0..n_bars`.
    pub fn oos_range(&self, fold_idx: usize) -> (r: Range<usize>)
        requires
            self.folds() > 0,
            fold_idx * self.fold_size() <= usize::MAX,
            fold_idx + 1 != self.folds() ==> fold_idx < usize::MAX && (fold_idx + 1) * self.fold_size() <= usize::MAX,
        ensures
            r.start <= r.end,
            r.start == self.oos_start(fold_idx as nat),
            r.end == self.oos_end(fold_idx as nat),
    {
        let fold_size = self.n_bars / self.n_folds;
        let start = fold_idx * fold_size;
        let end = if fold_idx == self.n_folds - 1 {
            proof {
                lemma_last_fold_fits(self.n_bars as nat, self.n_folds as nat, fold_idx as nat);
            }
            self.n_bars
        } else {
            proof {
                lemma_fold_start_le_end(fold_idx as nat, fold_size as nat);
            }
            (fold_idx + 1) * fold_size
        };
        start..end
    }

    /// The in-sample (train) ranges of bar indices for fold `fold_idx`: every
    /// bar outside the out-of-sample range and outside the purge gap around
    /// it, as at most two ascending, non-empty ranges.
    pub fn is_ranges(&self, fold_idx: usize) -> (r: Vec<Range<usize>>)
        requires
            self.folds() > 0,
            fold_idx * self.fold_size() <= usize::MAX,
            fold_idx + 1 != self.folds() ==> fold_idx < usize::MAX && (fold_idx + 1) * self.fold_size() <= usize::MAX,
            self.oos_end(fold_idx as nat) + self.purge() <= usize::MAX,
        ensures
            r@.len() <= 2,
            forall|k: int| 0 <= k < r@.len() ==> r@[k].start < r@[k].end,
            forall|k: int| 0 <= k < r@.len() - 1 ==> r@[k].end < r@[k + 1].start,
            forall|i: int|
                self.in_sample(fold_idx as nat, i) <==> exists|k: int|
                    0 <= k < r@.len() && (#[trigger] r@[k]).start <= i < r@[k].end,
    {
        let oos = self.oos_range(fold_idx);
        let mut ranges: Vec<Range<usize>> = Vec::new();
        let has_before = oos.start > self.purge_bars;
        if has_before {
            ranges.push(0..(oos.start - self.purge_bars));
        }
        let after_start = if oos.end + self.purge_bars < self.n_bars {
            oos.end + self.purge_bars
        } else {
            self.n_bars
        };
        if after_start < self.n_bars {
            ranges.push(after_start..self.n_bars);
        }
        proof {
            let f = fold_idx as nat;
            if has_before {
                lemma_started_fold_nonempty(self.bars(), self.folds(), f);
            }
            assert forall|i: int|
                self.in_sample(f, i) <==> exists|k: int|
                    0 <= k < ranges@.len() && (#[trigger] ranges@[k]).start <= i < ranges@[k].end by {
                if 0 <= i && i + self.purge() < self.oos_start(f) {
                    assert(ranges@[0].start <= i < ranges@[0].end);
                } else if self.oos_end(f) + self.purge() <= i < self.bars() {
                    let k = ranges@.len() - 1;
                    assert(ranges@[k].start <= i < ranges@[k].end);
                }
            }
        }
        ranges
    }
}

/// A fold that starts past bar 0 is non-empty.
proof fn lemma_started_fold_nonempty(bars: nat, folds: nat, fold: nat)
    requires
        folds > 0,
        fold * (bars / folds) > 0,
    ensures
        fold + 1 == folds ==> fold * (bars / folds) < bars,
        fold + 1 != folds ==> fold * (bars / folds) < (fold + 1) * (bars / folds),
{
    let fs = bars / folds;
    assert(fs > 0) by (nonlinear_arith)
        requires
            fold * fs > 0,
    ;
    assert(fold * fs < (fold + 1) * fs) by (nonlinear_arith)
        requires
            fs > 0,
    ;
    if fold + 1 == folds {
        assert(folds * fs <= bars) by (nonlinear_arith)
            requires
                folds > 0,
                fs == bars / folds,
        ;
        assert((fold + 1) * fs == folds * fs);
    }
}

proof fn lemma_fold_start_le_end(fold: nat, size: nat)
    ensures
        fold * size <= (fold + 1) * size,
{
    assert(fold * size <= (fold + 1) * size) by (nonlinear_arith);
}

proof fn lemma_last_fold_fits(bars: nat, folds: nat, fold: nat)
    requires
        folds > 0,
        fold + 1 == folds,
    ensures
        fold * (bars / folds) <= bars,
{
    assert(fold * (bars / folds) <= folds * (bars / folds)) by (nonlinear_arith)
        requires
            fold + 1 == folds,
    ;
    assert(folds * (bars / folds) <= bars) by (nonlinear_arith)
        requires
            folds > 0,
    ;
}


/// The out-of-sample folds tile the bars: fold 0 starts at bar 0, each fold
/// ends where the next begins, the last ends at the last bar, and no fold
/// runs backwards. So every bar is out-of-sample in exactly one fold.
pub proof fn lemma_folds_tile(cv: PurgedCv, fold: nat)
    requires
        cv.folds() > 0,
        fold < cv.folds(),
    ensures
        cv.oos_start(0) == 0,
        cv.oos_start(fold) <= cv.oos_end(fold),
        fold + 1 < cv.folds() ==> cv.oos_end(fold) == cv.oos_start(fold + 1),
        fold + 1 == cv.folds() ==> cv.oos_end(fold) == cv.bars(),
{
    lemma_fold_start_le_end(fold, cv.fold_size());
    if fold + 1 == cv.folds() {
        lemma_last_fold_fits(cv.bars(), cv.folds(), fold);
    }
}

/// No in-sample bar lies within the purge gap of the out-of-sample range,
/// nor inside it.
pub proof fn lemma_in_sample_is_purged(cv: PurgedCv, fold: nat, i: int)
    requires
        cv.folds() > 0,
        cv.in_sample(fold, i),
    ensures
        i + cv.purge() < cv.oos_start(fold) || i >= cv.oos_end(fold) + cv.purge(),
{
}

} // verus!
