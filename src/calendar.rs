use vstd::prelude::*;
use crate::model::{canonical_name, week_wf, weekday_name, Day, DayModel, TaskModel, Week, DAYS_IN_WEEK};
use crate::lookup::{day_position, lemma_canonical_lookup};

verus! {

/// Relies on chrono's `Local::now`, `Datelike::weekday` and
/// `Weekday::num_days_from_monday`: the weekday of the local calendar date
/// now, counted from Monday as 0. It depends on the clock: only the range is
/// known. chrono panics here only on the machine's own state (a clock set
/// before 1970, time zone data it cannot use), which no argument can exclude.
#[verifier::external_body]
fn local_weekday() -> (r: usize)
    ensures
        r < DAYS_IN_WEEK,
{
    chrono::Datelike::weekday(&chrono::Local::now()).num_days_from_monday() as usize
}

/// The weekday `offset` days after weekday `today`, wrapping from Sunday to Monday.
pub open spec fn weekday_after_spec(today: int, offset: int) -> int {
    (today + offset) % (DAYS_IN_WEEK as int)
}

/// The weekday `offset` days after weekday `today` (Monday is 0).
pub fn weekday_after(today: usize, offset: usize) -> (r: usize)
    requires
        today < DAYS_IN_WEEK,
    ensures
        r == weekday_after_spec(today as int, offset as int),
        r < DAYS_IN_WEEK,
{
    let r = (today + offset % DAYS_IN_WEEK) % DAYS_IN_WEEK;
    assert(r == weekday_after_spec(today as int, offset as int)) by (nonlinear_arith)
        requires
            today < 7,
            r == (today + offset % 7) % 7,
    ;
    r
}

/// Today's weekday on the local clock, Monday as 0.
pub fn today_index() -> (r: usize)
    ensures
        r < DAYS_IN_WEEK,
{
    local_weekday()
}

/// The canonical name of the weekday `offset` days after the local date now:
/// 0 gives today, 1 tomorrow. The clock decides which weekday today is.
pub fn resolve_weekday(offset: usize) -> (r: String)
    ensures
        exists|t: int| 0 <= t < DAYS_IN_WEEK && r@ == canonical_name(#[trigger] weekday_after_spec(t, offset as int)),
{
    let t = local_weekday();
    weekday_name(weekday_after(t, offset))
}

/// The tasks of the day that weekday `k` names, or none when the week holds no
/// such day.
pub open spec fn tasks_on(w: Seq<DayModel>, k: int) -> Seq<TaskModel> {
    match day_position(w, canonical_name(k)) {
        Some(i) => w[i].tasks,
        None => Seq::empty(),
    }
}

impl Week {
    /// The day that weekday `k` (Monday is 0) names, looked up by its canonical
    /// name as any day is.
    pub fn day_on(&self, k: usize) -> (r: Option<&Day>)
        requires
            k < DAYS_IN_WEEK,
        ensures
            r matches Some(d) ==> day_position(self@, canonical_name(k as int)) matches Some(i)
                && d@ == self@[i],
            r is None ==> day_position(self@, canonical_name(k as int)) is None,
            week_wf(self@) ==> (r matches Some(d) && d@ == self@[k as int]),
    {
        proof {
            if week_wf(self@) {
                lemma_canonical_lookup(self@, k as int);
            }
        }
        let name = weekday_name(k);
        self.find_day(name.as_str())
    }
}

/// On a well-formed week the day for weekday `k` is the day at position `k`,
/// and the day after it is the one at the next position, Sunday wrapping to
/// Monday.
pub proof fn lemma_weekday_projection(w: Seq<DayModel>, k: int)
    requires
        week_wf(w),
        0 <= k < DAYS_IN_WEEK,
    ensures
        tasks_on(w, k) == w[k].tasks,
        tasks_on(w, weekday_after_spec(k, 1)) == w[(k + 1) % 7].tasks,
        k == 6 ==> tasks_on(w, weekday_after_spec(k, 1)) == w[0].tasks,
{
    lemma_canonical_lookup(w, k);
    lemma_canonical_lookup(w, weekday_after_spec(k, 1));
}

} // verus!
