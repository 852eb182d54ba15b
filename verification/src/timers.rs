//! The list of timers and its three edits. Each edit builds a new list from
//! the published one, so that a reader never sees a list that is half
//! changed, and each edit keeps to one timer for each target.

use vstd::prelude::*;
use crate::schema::{timer_views, QueryType, Timer, TimerView};

verus! {

impl TimerView {
    /// Whether two timers are for the same target.
    pub open spec fn same_target(self, other: TimerView) -> bool {
        self.host == other.host && self.display_name == other.display_name
    }
}

/// The list with a timer for the target of `timer`: where the target has a
/// timer, `timer` takes its place; where it has none, `timer` is added at
/// the end.
pub open spec fn timers_with_inserted(timers: Seq<TimerView>, timer: TimerView) -> Seq<TimerView> {
    if has_target(timers, timer) {
        timers_with_updated(timers, timer)
    } else {
        timers.push(timer)
    }
}

/// The list without the timers for the target of `timer`; the others keep
/// their order.
pub open spec fn timers_with_deleted(timers: Seq<TimerView>, timer: TimerView) -> Seq<TimerView> {
    timers.filter(|other: TimerView| !other.same_target(timer))
}

/// The list with `timer` in the place of every timer for its target; the
/// others stay where they are.
pub open spec fn timers_with_updated(timers: Seq<TimerView>, timer: TimerView) -> Seq<TimerView> {
    timers.map_values(
        |other: TimerView|
            if other.same_target(timer) {
                timer
            } else {
                other
            },
    )
}

/// The statement that carries an insertion to the store: an update where
/// the target has a timer, which is replaced; an insertion where it has
/// none.
pub open spec fn statement_for_insert(timers: Seq<TimerView>, timer: TimerView) -> QueryType {
    if has_target(timers, timer) {
        QueryType::UPDATE
    } else {
        QueryType::INSERT
    }
}

/// No target has two timers.
pub open spec fn unique_targets(timers: Seq<TimerView>) -> bool {
    forall|i: int, j: int|
        0 <= i < j < timers.len() ==> !(#[trigger] timers[i]).same_target(#[trigger] timers[j])
}

/// Whether the list holds a timer for the target of `timer`.
pub open spec fn has_target(timers: Seq<TimerView>, timer: TimerView) -> bool {
    exists|i: int| 0 <= i < timers.len() && (#[trigger] timers[i]).same_target(timer)
}

/// A copy of `timers`.
pub fn copy_of_timers(timers: &Vec<Timer>) -> (list: Vec<Timer>)
    ensures
        list@ == timers@,
{
    let mut list: Vec<Timer> = Vec::new();
    let mut i: usize = 0;
    while i < timers.len()
        invariant
            i <= timers@.len(),
            list@ == timers@.take(i as int),
        decreases timers@.len() - i,
    {
        list.push(timers[i].clone());
        assert(list@ =~= timers@.take(i + 1));
        i += 1;
    }
    assert(timers@.take(timers@.len() as int) =~= timers@);
    list
}

/// Whether `timers` holds a timer for the target of `timer`.
pub fn has_timer_for(timers: &Vec<Timer>, timer: &Timer) -> (found: bool)
    ensures
        found == has_target(timer_views(timers@), timer@),
{
    let ghost views = timer_views(timers@);
    let mut i: usize = 0;
    while i < timers.len()
        invariant
            i <= timers@.len(),
            views == timer_views(timers@),
            forall|j: int| 0 <= j < i ==> !(#[trigger] views[j]).same_target(timer@),
        decreases timers@.len() - i,
    {
        if timers[i].is_for(timer.host, &timer.display_name) {
            assert(views[i as int].same_target(timer@));
            return true;
        }
        i += 1;
    }
    false
}

/// A copy of `timers` with a timer for the target of `timer`: `timer` in
/// the place of the target's timer, or at the end where the target had
/// none.
pub fn with_timer_inserted(timers: &Vec<Timer>, timer: &Timer) -> (list: Vec<Timer>)
    ensures
        timer_views(list@) == timers_with_inserted(timer_views(timers@), timer@),
{
    if has_timer_for(timers, timer) {
        with_timer_updated(timers, timer)
    } else {
        let mut list = copy_of_timers(timers);
        list.push(timer.clone());
        assert(timer_views(list@) =~= timer_views(timers@).push(timer@));
        list
    }
}

/// A copy of `timers` without the timers for the target of `timer`.
pub fn with_timer_deleted(timers: &Vec<Timer>, timer: &Timer) -> (list: Vec<Timer>)
    ensures
        timer_views(list@) == timers_with_deleted(timer_views(timers@), timer@),
{
    let ghost keep = |other: TimerView| !other.same_target(timer@);
    let ghost views = timer_views(timers@);
    let mut list: Vec<Timer> = Vec::new();
    let mut i: usize = 0;
    assert(views.take(0) =~= Seq::<TimerView>::empty());
    assert(timer_views(list@) =~= views.take(0).filter(keep)) by {
        reveal(Seq::filter);
    }
    while i < timers.len()
        invariant
            i <= timers@.len(),
            views == timer_views(timers@),
            keep == |other: TimerView| !other.same_target(timer@),
            timer_views(list@) == views.take(i as int).filter(keep),
        decreases timers@.len() - i,
    {
        let ghost before = timer_views(list@);
        proof {
            views.take(i as int).lemma_filter_push(views[i as int], keep);
            assert(views.take(i + 1) =~= views.take(i as int).push(views[i as int]));
        }
        if !timers[i].is_for(timer.host, &timer.display_name) {
            list.push(timers[i].clone());
            assert(timer_views(list@) =~= before.push(views[i as int]));
        }
        i += 1;
    }
    assert(views.take(timers@.len() as int) =~= views);
    list
}

/// A copy of `timers` with `timer` in the place of every timer for its
/// target.
pub fn with_timer_updated(timers: &Vec<Timer>, timer: &Timer) -> (list: Vec<Timer>)
    ensures
        timer_views(list@) == timers_with_updated(timer_views(timers@), timer@),
{
    let ghost views = timer_views(timers@);
    let mut list: Vec<Timer> = Vec::new();
    let mut i: usize = 0;
    while i < timers.len()
        invariant
            i <= timers@.len(),
            views == timer_views(timers@),
            timer_views(list@) == timers_with_updated(views, timer@).take(i as int),
        decreases timers@.len() - i,
    {
        let ghost before = timer_views(list@);
        if timers[i].is_for(timer.host, &timer.display_name) {
            list.push(timer.clone());
        } else {
            list.push(timers[i].clone());
        }
        assert(timer_views(list@) =~= before.push(timers_with_updated(views, timer@)[i as int]));
        assert(timer_views(list@) =~= timers_with_updated(views, timer@).take(i + 1));
        i += 1;
    }
    assert(timers_with_updated(views, timer@).take(timers@.len() as int) =~= timers_with_updated(
        views,
        timer@,
    ));
    list
}

/// One edit of the list of timers.
pub enum TimerEdit {
    Insert(TimerView),
    Update(TimerView),
    Delete(TimerView),
}

/// The list after one edit.
pub open spec fn timers_after_edit(timers: Seq<TimerView>, edit: TimerEdit) -> Seq<TimerView> {
    match edit {
        TimerEdit::Insert(timer) => timers_with_inserted(timers, timer),
        TimerEdit::Update(timer) => timers_with_updated(timers, timer),
        TimerEdit::Delete(timer) => timers_with_deleted(timers, timer),
    }
}

/// The list after a sequence of edits, one after the other.
pub open spec fn timers_after_edits(timers: Seq<TimerView>, edits: Seq<TimerEdit>) -> Seq<TimerView>
    decreases edits.len(),
{
    if edits.len() == 0 {
        timers
    } else {
        timers_after_edit(timers_after_edits(timers, edits.drop_last()), edits.last())
    }
}

/// What is left after a deletion: timers of the list, none of them for the
/// deleted target, and no target twice if none was there twice before.
proof fn lemma_deleted(timers: Seq<TimerView>, timer: TimerView)
    ensures
        forall|i: int|
            0 <= i < timers_with_deleted(timers, timer).len() ==> {
                &&& !(#[trigger] timers_with_deleted(timers, timer)[i]).same_target(timer)
                &&& timers.contains(timers_with_deleted(timers, timer)[i])
            },
        unique_targets(timers) ==> unique_targets(timers_with_deleted(timers, timer)),
    decreases timers.len(),
{
    reveal(Seq::filter);
    let keep = |other: TimerView| !other.same_target(timer);
    if timers.len() > 0 {
        let front = timers.drop_last();
        let last = timers.last();
        lemma_deleted(front, timer);
        let kept = timers_with_deleted(front, timer);
        let all = timers_with_deleted(timers, timer);
        assert(all == if keep(last) {
            kept.push(last)
        } else {
            kept
        });
        assert forall|i: int| 0 <= i < all.len() implies {
            &&& !(#[trigger] all[i]).same_target(timer)
            &&& timers.contains(all[i])
        } by {
            if i < kept.len() {
                assert(front.contains(kept[i]));
                let j = choose|j: int| 0 <= j < front.len() && front[j] == kept[i];
                assert(timers[j] == kept[i]);
            } else {
                assert(timers[timers.len() - 1] == last);
            }
        }
        if unique_targets(timers) {
            assert forall|a: int, b: int| 0 <= a < b < front.len() implies !(#[trigger] front[a])
                .same_target(#[trigger] front[b]) by {
                assert(!timers[a].same_target(timers[b]));
            }
            assert forall|a: int, b: int| 0 <= a < b < all.len() implies !(#[trigger] all[a])
                .same_target(#[trigger] all[b]) by {
                if b < kept.len() {
                    assert(!kept[a].same_target(kept[b]));
                } else {
                    assert(front.contains(kept[a]));
                    let j = choose|j: int| 0 <= j < front.len() && front[j] == kept[a];
                    assert(!timers[j].same_target(timers[timers.len() - 1]));
                }
            }
        }
    }
}

/// After a deletion the target of the timer has no timer, whatever the list
/// held.
pub proof fn lemma_deleted_has_no_target(timers: Seq<TimerView>, timer: TimerView)
    ensures
        !has_target(timers_with_deleted(timers, timer), timer),
{
    lemma_deleted(timers, timer);
}

/// Each edit keeps to one timer per target. A deletion leaves no timer for
/// its target, and no target twice. An update leaves no target twice. An
/// insertion leaves a timer for its target, and no target twice.
pub proof fn lemma_edit_keeps_targets_unique(timers: Seq<TimerView>, timer: TimerView)
    requires
        unique_targets(timers),
    ensures
        unique_targets(timers_with_deleted(timers, timer)),
        !has_target(timers_with_deleted(timers, timer), timer),
        unique_targets(timers_with_updated(timers, timer)),
        unique_targets(timers_with_inserted(timers, timer)),
        has_target(timers_with_inserted(timers, timer), timer),
{
    lemma_deleted(timers, timer);
    lemma_inserted_has_target(timers, timer);
    let updated = timers_with_updated(timers, timer);
    assert forall|a: int, b: int| 0 <= a < b < updated.len() implies !(#[trigger] updated[a])
        .same_target(#[trigger] updated[b]) by {
        assert(!timers[a].same_target(timers[b]));
    }
    if !has_target(timers, timer) {
        let inserted = timers_with_inserted(timers, timer);
        assert forall|a: int, b: int| 0 <= a < b < inserted.len() implies !(#[trigger] inserted[a])
            .same_target(#[trigger] inserted[b]) by {
            if b < timers.len() {
                assert(!timers[a].same_target(timers[b]));
            } else {
                assert(!timers[a].same_target(timer));
            }
        }
    }
}

/// After an insertion the target of the timer has a timer, whatever the
/// list held.
pub proof fn lemma_inserted_has_target(timers: Seq<TimerView>, timer: TimerView)
    ensures
        has_target(timers_with_inserted(timers, timer), timer),
{
    let inserted = timers_with_inserted(timers, timer);
    if has_target(timers, timer) {
        let i = choose|i: int| 0 <= i < timers.len() && (#[trigger] timers[i]).same_target(timer);
        assert(inserted[i].same_target(timer));
    } else {
        assert(inserted[timers.len() as int].same_target(timer));
    }
}

/// After any sequence of insertions, updates and deletions, every target
/// has at most one timer, if it was so before.
pub proof fn lemma_edits_keep_targets_unique(timers: Seq<TimerView>, edits: Seq<TimerEdit>)
    requires
        unique_targets(timers),
    ensures
        unique_targets(timers_after_edits(timers, edits)),
    decreases edits.len(),
{
    if edits.len() > 0 {
        lemma_edits_keep_targets_unique(timers, edits.drop_last());
        let before = timers_after_edits(timers, edits.drop_last());
        match edits.last() {
            TimerEdit::Insert(timer) => lemma_edit_keeps_targets_unique(before, timer),
            TimerEdit::Update(timer) => lemma_edit_keeps_targets_unique(before, timer),
            TimerEdit::Delete(timer) => lemma_edit_keeps_targets_unique(before, timer),
        }
    }
}

} // verus!
