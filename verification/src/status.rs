//! Progress reporting for one flash operation.
//!
//! A flash operation emits a stream of [`DownloadFlashingStatus`] values.
//! Fractions are exact rationals (a pair of integers), so that the
//! monotonicity and boundedness of progress can be stated and proved.

use vstd::prelude::*;

verus! {

/// An exact progress fraction `num / den`, kept in `[0, 1]`:
/// well-formed fractions satisfy `0 < den` and `num <= den`.
#[derive(Debug, Clone, Copy, PartialEq, Eq, Structural)]
pub struct Fraction {
    pub num: u64,
    pub den: u64,
}

impl Fraction {
    /// Well-formed: a value in `[0, 1]` with a positive denominator.
    pub open spec fn wf(self) -> bool {
        0 < self.den && self.num <= self.den
    }

    /// `self <= other` as rationals, by cross multiplication.
    pub open spec fn le(self, other: Fraction) -> bool {
        self.num * other.den <= other.num * self.den
    }

    /// The fraction reported after `done` of `total` units: `done / total`,
    /// clamped to `1` when `done` overruns `total`, and `1 / 1` when the
    /// total is zero (an empty payload counts as complete).
    pub open spec fn spec_of(done: u64, total: u64) -> Fraction {
        let d = if total == 0 { 1u64 } else { total };
        let n = if done > d { d } else { done };
        Fraction { num: n, den: d }
    }

    /// Build the progress fraction for `done` out of `total` units.
    pub fn of(done: u64, total: u64) -> (r: Fraction)
        ensures
            r == Fraction::spec_of(done, total),
            r.wf(),
    {
        let d: u64 = if total == 0 { 1 } else { total };
        let n: u64 = if done > d { d } else { done };
        Fraction { num: n, den: d }
    }

    /// With a fixed total, reporting more completed units never decreases
    /// the fraction.
    pub proof fn lemma_of_monotone(done1: u64, done2: u64, total: u64)
        requires
            done1 <= done2,
        ensures
            Fraction::spec_of(done1, total).le(Fraction::spec_of(done2, total)),
    {
        let a = Fraction::spec_of(done1, total);
        let b = Fraction::spec_of(done2, total);
        assert(a.num <= b.num && a.den == b.den);
        assert(a.num * b.den <= b.num * a.den) by (nonlinear_arith)
            requires
                a.num <= b.num,
                a.den == b.den,
        {}
    }

    /// `le` is transitive on well-formed fractions.
    pub proof fn lemma_le_trans(a: Fraction, b: Fraction, c: Fraction)
        requires
            a.wf(),
            b.wf(),
            c.wf(),
            a.le(b),
            b.le(c),
        ensures
            a.le(c),
    {
        assert(a.num * c.den <= c.num * a.den) by (nonlinear_arith)
            requires
                0 < a.den,
                0 < b.den,
                0 < c.den,
                a.num * b.den <= b.num * a.den,
                b.num * c.den <= c.num * b.den,
        {}
    }
}

/// A progress snapshot of one flash operation, in the order the phases
/// may occur: preparation, the optional download, the write pass, the
/// optional verification pass, and the single successful terminal.
#[derive(Debug, Clone, Copy, PartialEq, Eq, Structural)]
pub enum DownloadFlashingStatus {
    Preparing,
    DownloadingProgress(Fraction),
    FlashingProgress(Fraction),
    Verifying,
    VerifyingProgress(Fraction),
    Finished,
}

/// The position of a status in the fixed phase order.
pub open spec fn rank(s: DownloadFlashingStatus) -> int {
    match s {
        DownloadFlashingStatus::Preparing => 0,
        DownloadFlashingStatus::DownloadingProgress(_) => 1,
        DownloadFlashingStatus::FlashingProgress(_) => 2,
        DownloadFlashingStatus::Verifying => 3,
        DownloadFlashingStatus::VerifyingProgress(_) => 4,
        DownloadFlashingStatus::Finished => 5,
    }
}

/// Every fraction carried by the status is in `[0, 1]`.
pub open spec fn status_wf(s: DownloadFlashingStatus) -> bool {
    match s {
        DownloadFlashingStatus::DownloadingProgress(f) => f.wf(),
        DownloadFlashingStatus::FlashingProgress(f) => f.wf(),
        DownloadFlashingStatus::VerifyingProgress(f) => f.wf(),
        _ => true,
    }
}

/// `b` may directly follow `a` in the progress stream: phases never move
/// backwards, a fraction within one phase never decreases, and nothing
/// follows the terminal `Finished`.
pub open spec fn ok_step(a: DownloadFlashingStatus, b: DownloadFlashingStatus) -> bool {
    &&& rank(a) <= rank(b)
    &&& !(a is Finished)
    &&& a matches DownloadFlashingStatus::DownloadingProgress(fa)
        ==> b matches DownloadFlashingStatus::DownloadingProgress(fb) ==> fa.le(fb)
    &&& a matches DownloadFlashingStatus::FlashingProgress(fa)
        ==> b matches DownloadFlashingStatus::FlashingProgress(fb) ==> fa.le(fb)
    &&& a matches DownloadFlashingStatus::VerifyingProgress(fa)
        ==> b matches DownloadFlashingStatus::VerifyingProgress(fb) ==> fa.le(fb)
}

/// A progress stream as the consumer may rely on it: well-formed fractions,
/// and every adjacent pair a legal step.
pub open spec fn valid_log(log: Seq<DownloadFlashingStatus>) -> bool {
    &&& forall|i: int| 0 <= i < log.len() ==> status_wf(#[trigger] log[i])
    &&& forall|i: int| 0 <= i && i + 1 < log.len() ==> ok_step(#[trigger] log[i], log[i + 1])
}

/// Appending a well-formed status that legally follows the last entry
/// keeps the stream valid.
pub proof fn lemma_log_push(log: Seq<DownloadFlashingStatus>, s: DownloadFlashingStatus)
    requires
        valid_log(log),
        status_wf(s),
        log.len() > 0 ==> ok_step(log.last(), s),
    ensures
        valid_log(log.push(s)),
{
    let l2 = log.push(s);
    assert forall|i: int| 0 <= i < l2.len() implies status_wf(#[trigger] l2[i]) by {
        if i < log.len() {
            assert(l2[i] == log[i]);
        } else {
            assert(l2[i] == s);
        }
    }
    assert forall|i: int| 0 <= i && i + 1 < l2.len() implies ok_step(#[trigger] l2[i], l2[i + 1]) by {
        if i + 1 < log.len() {
            assert(l2[i] == log[i] && l2[i + 1] == log[i + 1]);
        } else {
            assert(i + 1 == log.len());
            assert(l2[i] == log[i] && l2[i + 1] == s);
            assert(log[i] == log.last());
        }
    }
}

/// In a valid stream the terminal `Finished` can only stand last, so at
/// most one terminal status is ever emitted.
pub proof fn lemma_terminal_last(log: Seq<DownloadFlashingStatus>)
    requires
        valid_log(log),
    ensures
        forall|i: int|
            0 <= i < log.len() && log[i] is Finished ==> i == log.len() - 1,
{
    assert forall|i: int|
        0 <= i < log.len() && log[i] is Finished implies i == log.len() - 1 by {
        if i + 1 < log.len() {
            assert(ok_step(log[i], log[i + 1]));
        }
    }
}

/// In a valid stream the phase rank never decreases, at any distance.
pub proof fn lemma_rank_monotone(log: Seq<DownloadFlashingStatus>, i: int, j: int)
    requires
        valid_log(log),
        0 <= i <= j < log.len(),
    ensures
        rank(log[i]) <= rank(log[j]),
    decreases j - i,
{
    if i < j {
        assert(ok_step(log[j - 1], log[j]));
        lemma_rank_monotone(log, i, j - 1);
    }
}

/// Progress within one phase is monotone at any distance: if positions
/// `i <= j` report progress of the same phase, the later fraction is at
/// least the earlier one.
pub proof fn lemma_progress_monotone(log: Seq<DownloadFlashingStatus>, i: int, j: int)
    requires
        valid_log(log),
        0 <= i <= j < log.len(),
        rank(log[i]) == rank(log[j]),
    ensures
        log[i] matches DownloadFlashingStatus::DownloadingProgress(fa)
            ==> log[j] matches DownloadFlashingStatus::DownloadingProgress(fb) ==> fa.le(fb),
        log[i] matches DownloadFlashingStatus::FlashingProgress(fa)
            ==> log[j] matches DownloadFlashingStatus::FlashingProgress(fb) ==> fa.le(fb),
        log[i] matches DownloadFlashingStatus::VerifyingProgress(fa)
            ==> log[j] matches DownloadFlashingStatus::VerifyingProgress(fb) ==> fa.le(fb),
    decreases j - i,
{
    if i < j {
        assert(ok_step(log[j - 1], log[j]));
        lemma_rank_monotone(log, i, j - 1);
        assert(rank(log[j - 1]) == rank(log[i]));
        lemma_progress_monotone(log, i, j - 1);
        if log[i] is DownloadingProgress && log[j] is DownloadingProgress {
            let fa = log[i]->DownloadingProgress_0;
            let fm = log[j - 1]->DownloadingProgress_0;
            let fb = log[j]->DownloadingProgress_0;
            Fraction::lemma_le_trans(fa, fm, fb);
        }
        if log[i] is FlashingProgress && log[j] is FlashingProgress {
            let fa = log[i]->FlashingProgress_0;
            let fm = log[j - 1]->FlashingProgress_0;
            let fb = log[j]->FlashingProgress_0;
            Fraction::lemma_le_trans(fa, fm, fb);
        }
        if log[i] is VerifyingProgress && log[j] is VerifyingProgress {
            let fa = log[i]->VerifyingProgress_0;
            let fm = log[j - 1]->VerifyingProgress_0;
            let fb = log[j]->VerifyingProgress_0;
            Fraction::lemma_le_trans(fa, fm, fb);
        }
    }
}

} // verus!
