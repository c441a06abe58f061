//! Bookkeeping for one batch of thumbnail generation.
//!
//! Workers finish files in any order. Their reports are funnelled to a single
//! collector, which owns a [`Batch`]: it files each report under the position
//! of its image, counts how many images are done, and hands out the complete
//! list of results only when every image has reported.

use vstd::prelude::*;
use crate::thumbnails::{ThumbnailResult, ThumbnailResultView};

verus! {

broadcast use {
    vstd::seq_lib::group_seq_properties,
    vstd::seq::group_seq_axioms,
};

/// One progress report: `completed` of `total` images are done.
#[derive(Clone, Copy, Debug, PartialEq, Eq, Structural)]
pub struct Progress {
    pub completed: usize,
    pub total: usize,
}

/// The reports received so far, one slot per image of the batch.
pub type Slots = Seq<Option<ThumbnailResultView>>;

/// Number of images that have reported.
pub open spec fn filled(slots: Slots) -> nat
    decreases slots.len(),
{
    if slots.len() == 0 {
        0
    } else {
        filled(slots.drop_last()) + if slots.last() is Some {
            1nat
        } else {
            0nat
        }
    }
}

/// Whether a report for position `index` is still awaited.
pub open spec fn awaited(slots: Slots, index: int) -> bool {
    0 <= index < slots.len() && slots[index] is None
}

/// The slots after a report for position `index` came in. A report for a
/// position outside the batch, or for an image that has reported before, is
/// dropped.
pub open spec fn slots_after(slots: Slots, index: int, result: ThumbnailResultView) -> Slots {
    if awaited(slots, index) {
        slots.update(index, Some(result))
    } else {
        slots
    }
}

/// The slots after a series of reports came in, one after the other.
pub open spec fn slots_after_all(slots: Slots, reports: Seq<(int, ThumbnailResultView)>) -> Slots
    decreases reports.len(),
{
    if reports.len() == 0 {
        slots
    } else {
        slots_after(slots_after_all(slots, reports.drop_last()), reports.last().0, reports.last().1)
    }
}

/// The progress reports sent out while a series of reports came in: one for
/// each report that was not dropped, carrying the count of images done then.
pub open spec fn ticks(slots: Slots, reports: Seq<(int, ThumbnailResultView)>) -> Seq<nat>
    decreases reports.len(),
{
    if reports.len() == 0 {
        Seq::empty()
    } else {
        let earlier = slots_after_all(slots, reports.drop_last());
        if awaited(earlier, reports.last().0) {
            ticks(slots, reports.drop_last()).push(filled(earlier) + 1)
        } else {
            ticks(slots, reports.drop_last())
        }
    }
}

/// The count of images done never exceeds the size of the batch, and equals
/// it exactly when every image has reported.
pub proof fn lemma_filled_bounds(slots: Slots)
    ensures
        filled(slots) <= slots.len(),
        filled(slots) == slots.len() <==> forall|i: int|
            0 <= i < slots.len() ==> (#[trigger] slots[i]) is Some,
    decreases slots.len(),
{
    if slots.len() > 0 {
        let shorter = slots.drop_last();
        lemma_filled_bounds(shorter);
        if filled(slots) == slots.len() {
            assert forall|i: int| 0 <= i < slots.len() implies (#[trigger] slots[i]) is Some by {
                if i < shorter.len() {
                    assert(shorter[i] == slots[i]);
                }
            }
        }
        if forall|i: int| 0 <= i < slots.len() ==> (#[trigger] slots[i]) is Some {
            assert forall|i: int| 0 <= i < shorter.len() implies (#[trigger] shorter[i]) is Some by {
                assert(shorter[i] == slots[i]);
            }
            assert(slots.last() == slots[slots.len() - 1]);
        }
    }
}

/// Filing an awaited report raises the count of images done by exactly one.
pub proof fn lemma_filled_step(slots: Slots, index: int, result: ThumbnailResultView)
    requires
        awaited(slots, index),
    ensures
        filled(slots.update(index, Some(result))) == filled(slots) + 1,
    decreases slots.len(),
{
    let after = slots.update(index, Some(result));
    if index == slots.len() - 1 {
        assert(after.drop_last() =~= slots.drop_last());
    } else {
        lemma_filled_step(slots.drop_last(), index, result);
        assert(after.drop_last() =~= slots.drop_last().update(index, Some(result)));
    }
}

/// However the reports of a batch arrive, the progress reports count up one
/// by one from the number of images done before, never pass the size of the
/// batch, and so announce "all done" at most once: with the last of them,
/// when every image has reported.
pub proof fn lemma_progress_counts_up(slots: Slots, reports: Seq<(int, ThumbnailResultView)>)
    ensures
        slots_after_all(slots, reports).len() == slots.len(),
        filled(slots_after_all(slots, reports)) == filled(slots) + ticks(slots, reports).len(),
        forall|k: int|
            0 <= k < ticks(slots, reports).len() ==> #[trigger] ticks(slots, reports)[k] == filled(
                slots,
            ) + k + 1,
        forall|k: int|
            0 <= k < ticks(slots, reports).len() ==> (#[trigger] ticks(slots, reports)[k]
                == slots.len() <==> k == ticks(slots, reports).len() - 1 && forall|i: int|
                0 <= i < slots.len() ==> (#[trigger] slots_after_all(slots, reports)[i]) is Some),
    decreases reports.len(),
{
    let after = slots_after_all(slots, reports);
    if reports.len() > 0 {
        let earlier = slots_after_all(slots, reports.drop_last());
        lemma_progress_counts_up(slots, reports.drop_last());
        if awaited(earlier, reports.last().0) {
            lemma_filled_step(earlier, reports.last().0, reports.last().1);
        }
    }
    lemma_filled_bounds(after);
    assert forall|k: int| 0 <= k < ticks(slots, reports).len() implies (#[trigger] ticks(
        slots,
        reports,
    )[k] == slots.len() <==> k == ticks(slots, reports).len() - 1 && forall|i: int|
        0 <= i < slots.len() ==> (#[trigger] after[i]) is Some) by {
        assert(ticks(slots, reports)[k] == filled(slots) + k + 1);
    }
}

/// What became of a batch, in numbers.
#[derive(Clone, Copy, Debug, PartialEq, Eq, Structural)]
pub struct BatchSummary {
    pub total: usize,
    pub succeeded: usize,
    pub failed: usize,
}

/// Number of results that report a failure.
pub open spec fn failures(results: Seq<ThumbnailResultView>) -> nat
    decreases results.len(),
{
    if results.len() == 0 {
        0
    } else {
        failures(results.drop_last()) + if results.last().success {
            0nat
        } else {
            1nat
        }
    }
}

/// Counts the successes and failures of a batch: one failed file is told
/// apart from a failed batch.
pub fn summarize(results: &Vec<ThumbnailResult>) -> (summary: BatchSummary)
    ensures
        summary.total == results.len(),
        summary.failed == failures(results.deep_view()),
        summary.succeeded + summary.failed == summary.total,
{
    let ghost all = results.deep_view();
    let mut failed: usize = 0;
    let mut i: usize = 0;
    while i < results.len()
        invariant
            i <= results.len(),
            all == results.deep_view(),
            failed == failures(all.take(i as int)),
            failed <= i,
        decreases results.len() - i,
    {
        proof {
            assert(all.take(i + 1).drop_last() =~= all.take(i as int));
            assert(all.take(i + 1).last() == results[i as int]@);
        }
        if !results[i].success {
            failed += 1;
        }
        i += 1;
    }
    assert(all.take(results.len() as int) =~= all);
    BatchSummary { total: results.len(), succeeded: results.len() - failed, failed }
}

/// The collector's record of one batch.
#[derive(Debug)]
pub struct Batch {
    slots: Vec<Option<ThumbnailResult>>,
    completed: usize,
}

/// Mathematical form of a slot.
pub open spec fn slot_view(slot: Option<ThumbnailResult>) -> Option<ThumbnailResultView> {
    match slot {
        Some(r) => Some(r@),
        None => None,
    }
}

impl View for Batch {
    type V = Slots;

    closed spec fn view(&self) -> Slots {
        self.slots@.map_values(|s: Option<ThumbnailResult>| slot_view(s))
    }
}

impl Batch {
    /// The count kept by the collector agrees with the slots.
    pub closed spec fn well_formed(&self) -> bool {
        self.completed == filled(self@)
    }

    /// The record of a batch of `total` images, none of which has reported.
    pub fn new(total: usize) -> (batch: Self)
        ensures
            batch.well_formed(),
            batch@.len() == total,
            forall|i: int| 0 <= i < total ==> (#[trigger] batch@[i]) is None,
            filled(batch@) == 0,
    {
        let mut slots: Vec<Option<ThumbnailResult>> = Vec::new();
        let mut i: usize = 0;
        while i < total
            invariant
                i <= total,
                slots.len() == i,
                forall|j: int| 0 <= j < i ==> (#[trigger] slots@[j]) is None,
                filled(slots@.map_values(|s: Option<ThumbnailResult>| slot_view(s))) == 0,
            decreases total - i,
        {
            let ghost before = slots@.map_values(|s: Option<ThumbnailResult>| slot_view(s));
            slots.push(None);
            proof {
                let after = slots@.map_values(|s: Option<ThumbnailResult>| slot_view(s));
                assert(after.drop_last() =~= before);
            }
            i += 1;
        }
        Batch { slots, completed: 0 }
    }

    /// Number of images in the batch.
    pub fn total(&self) -> (total: usize)
        ensures
            total == self@.len(),
    {
        self.slots.len()
    }

    /// Number of images that have reported.
    pub fn completed(&self) -> (completed: usize)
        requires
            self.well_formed(),
        ensures
            completed == filled(self@),
    {
        self.completed
    }

    /// Whether every image has reported.
    pub fn is_complete(&self) -> (done: bool)
        requires
            self.well_formed(),
        ensures
            done == (forall|i: int| 0 <= i < self@.len() ==> (#[trigger] self@[i]) is Some),
    {
        proof {
            lemma_filled_bounds(self@);
        }
        self.completed == self.slots.len()
    }

    /// Files the report for the image at position `index` and returns the
    /// progress to announce. A report that is not awaited, because the
    /// position is outside the batch or the image has reported before, is
    /// dropped and announces nothing.
    pub fn record(&mut self, index: usize, result: ThumbnailResult) -> (progress: Option<Progress>)
        requires
            old(self).well_formed(),
        ensures
            final(self).well_formed(),
            final(self)@ == slots_after(old(self)@, index as int, result@),
            progress == (if awaited(old(self)@, index as int) {
                Some(
                    Progress {
                        completed: (filled(old(self)@) + 1) as usize,
                        total: old(self)@.len() as usize,
                    },
                )
            } else {
                None
            }),
            progress matches Some(p) ==> p.completed == filled(final(self)@) && p.completed
                <= p.total,
    {
        let ghost before = self@;
        if index < self.slots.len() && self.slots[index].is_none() {
            proof {
                lemma_filled_step(before, index as int, result@);
                lemma_filled_bounds(before.update(index as int, Some(result@)));
            }
            self.slots.set(index, Some(result));
            self.completed = self.completed + 1;
            assert(self@ =~= before.update(index as int, Some(result@)));
            Some(Progress { completed: self.completed, total: self.slots.len() })
        } else {
            None
        }
    }

    /// The results of the batch in the order of its images, once every image
    /// has reported; `None` before that.
    pub fn results(&self) -> (results: Option<Vec<ThumbnailResult>>)
        requires
            self.well_formed(),
        ensures
            results is Some <==> (forall|i: int|
                0 <= i < self@.len() ==> (#[trigger] self@[i]) is Some),
            results matches Some(list) ==> {
                &&& list.len() == self@.len()
                &&& forall|i: int|
                    0 <= i < list.len() ==> Some(#[trigger] list.deep_view()[i]) == self@[i]
            },
    {
        if !self.is_complete() {
            return None;
        }
        let mut list: Vec<ThumbnailResult> = Vec::new();
        let mut i: usize = 0;
        while i < self.slots.len()
            invariant
                i <= self.slots.len(),
                list.len() == i,
                forall|j: int| 0 <= j < self@.len() ==> (#[trigger] self@[j]) is Some,
                forall|j: int| 0 <= j < i ==> Some(#[trigger] list.deep_view()[j]) == self@[j],
            decreases self.slots.len() - i,
        {
            let ghost so_far = list.deep_view();
            assert(self@[i as int] == slot_view(self.slots@[i as int]));
            match &self.slots[i] {
                Some(r) => {
                    list.push(r.clone());
                    assert(list.deep_view() =~= so_far.push(r@));
                },
                None => {
                    assert(self@[i as int] is Some);
                },
            }
            i += 1;
        }
        Some(list)
    }
}

} // verus!
