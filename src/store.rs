use vstd::prelude::*;
use crate::model::{canonical_name, week_is_empty, week_wf, weekday_name, DayModel, TaskModel, Week, DAYS_IN_WEEK};
use crate::commands::{cleared, with_tasks};

verus! {

impl Week {
    /// Whether this week has the seven canonical days, in order.
    pub fn is_well_formed(&self) -> (r: bool)
        ensures
            r == week_wf(self@),
    {
        if self.days.len() != DAYS_IN_WEEK {
            return false;
        }
        let mut i: usize = 0;
        while i < DAYS_IN_WEEK
            invariant
                i <= DAYS_IN_WEEK,
                self@.len() == DAYS_IN_WEEK,
                forall|j: int| 0 <= j < i ==> #[trigger] self@[j].name == canonical_name(j),
            decreases DAYS_IN_WEEK - i,
        {
            assert(self@[i as int] == self.days@[i as int]@);
            let expected = weekday_name(i);
            if !(self.days[i].name == expected) {
                assert(self@[i as int].name != canonical_name(i as int));
                return false;
            }
            i = i + 1;
        }
        true
    }

    /// The week to work on, given what was read back from the stored document:
    /// `None` when it was missing or did not parse. A parsed week is kept when it
    /// has the seven canonical days in order; anything else gives a fresh week.
    pub fn from_document(parsed: Option<Week>) -> (w: Week)
        ensures
            week_wf(w@),
            (parsed matches Some(p) && week_wf(p@)) ==> w@ == parsed->0@,
            !(parsed matches Some(p) && week_wf(p@)) ==> week_is_empty(w@),
    {
        match parsed {
            Some(p) => {
                if p.is_well_formed() {
                    p
                } else {
                    Week::new()
                }
            },
            None => Week::new(),
        }
    }
}

/// Every command keeps the seven canonical days: replacing one day's tasks
/// leaves the week well formed.
pub proof fn lemma_tasks_change_keeps_days(w: Seq<DayModel>, i: int, ts: Seq<TaskModel>)
    requires
        week_wf(w),
        0 <= i < w.len(),
    ensures
        week_wf(with_tasks(w, i, ts)),
{
    let r = with_tasks(w, i, ts);
    assert forall|j: int| 0 <= j < DAYS_IN_WEEK implies #[trigger] r[j].name == canonical_name(j) by {
        if j != i {
            assert(r[j] == w[j]);
        }
    }
}

/// Clearing empties every day and keeps the seven canonical days.
pub proof fn lemma_clear_is_total(w: Seq<DayModel>)
    requires
        week_wf(w),
    ensures
        week_wf(cleared(w)),
        week_is_empty(cleared(w)),
{
    let r = cleared(w);
    assert forall|j: int| 0 <= j < DAYS_IN_WEEK implies #[trigger] r[j].name == canonical_name(j) by {
        assert(r[j].name == w[j].name);
    }
}

} // verus!
