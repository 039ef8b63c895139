//! Progress of indexing, in whole percent. The one who watches keeps the last
//! percentage it has seen and passes on only a higher one.

use vstd::prelude::*;

verus! {

/// How many percent `current` is of `total`, rounded down: never more than
/// 100, and 0 where there is no total.
pub open spec fn percent_of(current: nat, total: nat) -> nat {
    if total == 0 {
        0
    } else if current >= total {
        100
    } else {
        current * 100 / total
    }
}

/// How many percent `current` is of `total`.
pub fn percentage(current: usize, total: usize) -> (percent: usize)
    ensures
        percent == percent_of(current as nat, total as nat),
        percent <= 100,
{
    if total == 0 {
        0
    } else if current >= total {
        100
    } else {
        let scaled: u128 = current as u128 * 100;
        let percent: u128 = scaled / (total as u128);
        assert(percent < 100) by (nonlinear_arith)
            requires
                percent == scaled / (total as u128),
                scaled == current * 100,
                current < total,
        ;
        percent as usize
    }
}

/// More work done never shows as less progress, and progress stays within 0
/// and 100.
pub proof fn lemma_percent_grows(earlier: nat, later: nat, total: nat)
    requires
        earlier <= later,
    ensures
        percent_of(earlier, total) <= percent_of(later, total),
        percent_of(later, total) <= 100,
{
    if total > 0 {
        assert(earlier * 100 / total <= later * 100 / total) by (nonlinear_arith)
            requires
                earlier <= later,
                total > 0,
        ;
        assert(later < total ==> later * 100 / total < 100) by (nonlinear_arith)
            requires
                total > 0,
        ;
        assert(earlier < total ==> earlier * 100 / total < 100) by (nonlinear_arith)
            requires
                total > 0,
        ;
    }
}

/// What a watcher that has last seen `last` passes on of `percent`: the
/// percentage itself if it is higher, nothing if it is not.
pub open spec fn report_of(last: nat, percent: nat) -> Option<usize> {
    if percent > last {
        Some(percent as usize)
    } else {
        None
    }
}

/// What a watcher that has last seen `last` has last seen after `percent`.
pub open spec fn last_after(last: nat, percent: nat) -> nat {
    if percent > last {
        percent
    } else {
        last
    }
}

/// What a watcher that has last seen `last` passes on of a run of
/// percentages: each one that is higher than all before it.
pub open spec fn passed_on(last: nat, percents: Seq<nat>) -> Seq<nat>
    decreases percents.len(),
{
    if percents.len() == 0 {
        Seq::empty()
    } else {
        let rest = passed_on(last_after(last, percents[0]), percents.drop_first());
        if report_of(last, percents[0]) is Some {
            seq![percents[0]] + rest
        } else {
            rest
        }
    }
}

/// What is passed on rises strictly, starts above what was last seen, and
/// holds no percentage twice.
pub proof fn lemma_passed_on_rises(last: nat, percents: Seq<nat>)
    ensures
        forall|i: int|
            0 <= i < passed_on(last, percents).len() ==> last < #[trigger] passed_on(
                last,
                percents,
            )[i],
        forall|i: int, j: int|
            0 <= i < j < passed_on(last, percents).len() ==> #[trigger] passed_on(
                last,
                percents,
            )[i] < #[trigger] passed_on(last, percents)[j],
    decreases percents.len(),
{
    let all = passed_on(last, percents);
    if percents.len() == 0 {
        assert(all.len() == 0);
    } else {
        let rest = percents.drop_first();
        if percents[0] > last {
            lemma_passed_on_rises(percents[0], rest);
            let tail = passed_on(percents[0], rest);
            assert(all == seq![percents[0]] + tail);
            assert(all.len() == tail.len() + 1);
            assert(all[0] == percents[0]);
            assert forall|i: int| 0 <= i < all.len() implies last < #[trigger] all[i] by {
                if i > 0 {
                    assert(all[i] == tail[i - 1]);
                }
            }
            assert forall|i: int, j: int| 0 <= i < j < all.len() implies #[trigger] all[i]
                < #[trigger] all[j] by {
                assert(all[j] == tail[j - 1]);
                if i > 0 {
                    assert(all[i] == tail[i - 1]);
                }
            }
        } else {
            lemma_passed_on_rises(last, rest);
            assert(all == passed_on(last, rest));
        }
    }
}

/// A watcher of progress. It starts out having seen 0 percent.
#[derive(Debug)]
pub struct ProgressObserver {
    last: usize,
}

impl ProgressObserver {
    /// The last percentage that was passed on.
    pub closed spec fn spec_last(self) -> nat {
        self.last as nat
    }

    /// A watcher that has seen 0 percent.
    pub fn new() -> (observer: ProgressObserver)
        ensures
            observer.spec_last() == 0,
    {
        ProgressObserver { last: 0 }
    }

    /// The last percentage that was passed on.
    pub fn last(&self) -> (percent: usize)
        ensures
            percent == self.spec_last(),
    {
        self.last
    }

    /// Takes a percentage. A higher one than the last is kept and passed on;
    /// any other is dropped.
    pub fn observe(&mut self, percent: usize) -> (report: Option<usize>)
        ensures
            report == report_of(old(self).spec_last(), percent as nat),
            final(self).spec_last() == last_after(old(self).spec_last(), percent as nat),
    {
        if percent <= self.last {
            None
        } else {
            self.last = percent;
            Some(percent)
        }
    }

    /// Takes a position in the work and its total, and passes on the
    /// percentage if it is higher than the last.
    pub fn update(&mut self, current: usize, total: usize) -> (report: Option<usize>)
        ensures
            report == report_of(old(self).spec_last(), percent_of(current as nat, total as nat)),
            final(self).spec_last() == last_after(
                old(self).spec_last(),
                percent_of(current as nat, total as nat),
            ),
    {
        let percent = percentage(current, total);
        self.observe(percent)
    }
}

} // verus!
