use vstd::prelude::*;
use crate::model::{DayModel, Task, TaskModel, Week};
use crate::lookup::day_position;
use crate::model::week_wf;
use crate::store::{lemma_clear_is_total, lemma_tasks_change_keeps_days};

verus! {

/// Why a command was refused. A refused command leaves the week unchanged.
#[derive(Debug, PartialEq, Eq, Structural, Clone, Copy)]
pub enum CommandError {
    /// The day name is none of the seven weekdays, in any case.
    InvalidDay,
    /// The task number is 0 or past the last task of that day.
    InvalidIndex,
}

/// `w` with the tasks of the day at `i` replaced by `ts`.
pub open spec fn with_tasks(w: Seq<DayModel>, i: int, ts: Seq<TaskModel>) -> Seq<DayModel> {
    w.update(i, DayModel { name: w[i].name, tasks: ts })
}

/// A 1-based task number that names one of `n` tasks.
pub open spec fn index_in_range(n: int, index: int) -> bool {
    1 <= index <= n
}

/// The task a new description starts as.
pub open spec fn fresh_task(text: Seq<char>) -> TaskModel {
    TaskModel { description: text, done: false }
}

/// The error an index command returns on `w`, if any.
pub open spec fn index_error(w: Seq<DayModel>, name: Seq<char>, index: int) -> Option<CommandError> {
    if day_position(w, name) is None {
        Some(CommandError::InvalidDay)
    } else if !index_in_range(w[day_position(w, name)->0].tasks.len() as int, index) {
        Some(CommandError::InvalidIndex)
    } else {
        None
    }
}

/// `w` with task number `index` of the day at `i` changed to `t`.
pub open spec fn with_task(w: Seq<DayModel>, i: int, index: int, t: TaskModel) -> Seq<DayModel> {
    with_tasks(w, i, w[i].tasks.update(index - 1, t))
}

/// The day position an index command works on.
pub open spec fn target(w: Seq<DayModel>, name: Seq<char>) -> int {
    day_position(w, name)->0
}

/// `w` after task number `index` of the day `name` is marked finished.
pub open spec fn marked_done(w: Seq<DayModel>, name: Seq<char>, index: int) -> Seq<DayModel> {
    let i = target(w, name);
    with_task(w, i, index, TaskModel { description: w[i].tasks[index - 1].description, done: true })
}

/// `w` after task number `index` of the day `name` gets the description `text`.
pub open spec fn renamed(w: Seq<DayModel>, name: Seq<char>, index: int, text: Seq<char>) -> Seq<
    DayModel,
> {
    let i = target(w, name);
    with_task(w, i, index, TaskModel { description: text, done: w[i].tasks[index - 1].done })
}

/// `w` after task number `index` of the day `name` is removed; later tasks move up.
pub open spec fn removed(w: Seq<DayModel>, name: Seq<char>, index: int) -> Seq<DayModel> {
    let i = target(w, name);
    with_tasks(w, i, w[i].tasks.remove(index - 1))
}

/// `w` with every day's tasks gone.
pub open spec fn cleared(w: Seq<DayModel>) -> Seq<DayModel> {
    w.map_values(|d: DayModel| DayModel { name: d.name, tasks: Seq::empty() })
}

impl Week {
    /// Checks the day and the 1-based task number of an index command.
    /// Returns the day's position.
    fn locate_task(&self, day: &str, index: usize) -> (r: Result<usize, CommandError>)
        ensures
            index_error(self@, day@, index as int) matches Some(e) ==> r == Err::<usize, CommandError>(e),
            index_error(self@, day@, index as int) is None ==> r == Ok::<usize, CommandError>(
                target(self@, day@) as usize,
            ),
            r matches Ok(i) ==> i < self@.len() && i == target(self@, day@) && index_error(
                self@,
                day@,
                index as int,
            ) is None,
    {
        match self.find_day_index(day) {
            None => Err(CommandError::InvalidDay),
            Some(i) => {
                assert(self@[i as int] == self.days@[i as int]@);
                if index == 0 || index > self.days[i].tasks.len() {
                    Err(CommandError::InvalidIndex)
                } else {
                    Ok(i)
                }
            },
        }
    }

    /// Marks task number `index` (1-based) of the day named `day` as finished.
    pub fn mark_done(&mut self, day: &str, index: usize) -> (r: Result<(), CommandError>)
        ensures
            index_error(old(self)@, day@, index as int) matches Some(e) ==> r == Err::<(), CommandError>(e)
                && final(self)@ == old(self)@,
            index_error(old(self)@, day@, index as int) is None ==> r is Ok && final(self)@
                == marked_done(old(self)@, day@, index as int),
            week_wf(old(self)@) ==> week_wf(final(self)@),
    {
        let i = match self.locate_task(day, index) {
            Err(e) => return Err(e),
            Ok(i) => i,
        };
        let ghost before = self@;
        assert(before[i as int] == self.days@[i as int]@);
        self.days[i].tasks[index - 1].done = true;
        assert(self.days@[i as int]@.tasks =~= marked_done(before, day@, index as int)[i as int].tasks);
        assert(self@ =~= marked_done(before, day@, index as int));
        proof {
            if week_wf(before) {
                lemma_tasks_change_keeps_days(before, i as int, marked_done(before, day@, index as int)[i as int].tasks);
                assert(marked_done(before, day@, index as int) =~= with_tasks(before, i as int, marked_done(before, day@, index as int)[i as int].tasks));
            }
        }
        Ok(())
    }

    /// Gives task number `index` (1-based) of the day named `day` the description
    /// `text`; whether it is finished stays as it was.
    pub fn update(&mut self, day: &str, index: usize, text: String) -> (r: Result<(), CommandError>)
        ensures
            index_error(old(self)@, day@, index as int) matches Some(e) ==> r == Err::<(), CommandError>(e)
                && final(self)@ == old(self)@,
            index_error(old(self)@, day@, index as int) is None ==> r is Ok && final(self)@
                == renamed(old(self)@, day@, index as int, text@),
            week_wf(old(self)@) ==> week_wf(final(self)@),
    {
        let i = match self.locate_task(day, index) {
            Err(e) => return Err(e),
            Ok(i) => i,
        };
        let ghost before = self@;
        let ghost t = text@;
        assert(before[i as int] == self.days@[i as int]@);
        self.days[i].tasks[index - 1].description = text;
        assert(self.days@[i as int]@.tasks =~= renamed(before, day@, index as int, t)[i as int].tasks);
        assert(self@ =~= renamed(before, day@, index as int, t));
        proof {
            if week_wf(before) {
                lemma_tasks_change_keeps_days(before, i as int, renamed(before, day@, index as int, t)[i as int].tasks);
                assert(renamed(before, day@, index as int, t) =~= with_tasks(before, i as int, renamed(before, day@, index as int, t)[i as int].tasks));
            }
        }
        Ok(())
    }

    /// Removes task number `index` (1-based) of the day named `day`; the tasks
    /// after it move up by one. Returns the removed task's description.
    pub fn delete(&mut self, day: &str, index: usize) -> (r: Result<String, CommandError>)
        ensures
            index_error(old(self)@, day@, index as int) matches Some(e) ==> r == Err::<String, CommandError>(e)
                && final(self)@ == old(self)@,
            index_error(old(self)@, day@, index as int) is None ==> (r matches Ok(s) && s@
                == old(self)@[target(old(self)@, day@)].tasks[index - 1].description) && final(self)@
                == removed(old(self)@, day@, index as int),
            week_wf(old(self)@) ==> week_wf(final(self)@),
    {
        let i = match self.locate_task(day, index) {
            Err(e) => return Err(e),
            Ok(i) => i,
        };
        let ghost before = self@;
        assert(before[i as int] == self.days@[i as int]@);
        let task = self.days[i].tasks.remove(index - 1);
        assert(self.days@[i as int]@.tasks =~= removed(before, day@, index as int)[i as int].tasks);
        assert(self@ =~= removed(before, day@, index as int));
        proof {
            if week_wf(before) {
                lemma_tasks_change_keeps_days(before, i as int, removed(before, day@, index as int)[i as int].tasks);
            }
        }
        Ok(task.description)
    }

    /// Empties every day's task list.
    pub fn clear(&mut self)
        ensures
            final(self)@ == cleared(old(self)@),
            week_wf(old(self)@) ==> week_wf(final(self)@),
    {
        let ghost before = self@;
        let mut i: usize = 0;
        while i < self.days.len()
            invariant
                i <= self.days@.len(),
                self@.len() == before.len(),
                forall|j: int| 0 <= j < i ==> #[trigger] self@[j] == cleared(before)[j],
                forall|j: int| i <= j < self@.len() ==> #[trigger] self@[j] == before[j],
            decreases self.days@.len() - i,
        {
            let ghost prev = self.days@;
            let ghost prev_view = self@;
            assert(self@[i as int] == before[i as int]);
            assert(cleared(before)[i as int] == DayModel { name: before[i as int].name, tasks: Seq::empty() });
            self.days[i].tasks.clear();
            assert(self.days@[i as int]@.tasks =~= Seq::<TaskModel>::empty());
            assert(forall|j: int| 0 <= j < self@.len() && j != i ==> self.days@[j] == prev[j]);
            assert(forall|j: int| 0 <= j < self@.len() && j != i ==> #[trigger] self@[j] == prev_view[j]);
            assert(self@[i as int] == cleared(before)[i as int]);
            i = i + 1;
        }
        assert(self@ =~= cleared(before));
        proof {
            if week_wf(before) {
                lemma_clear_is_total(before);
            }
        }
    }

    /// Appends a new, unfinished task to the day named `day` (any case).
    /// Returns the position of that day.
    pub fn add(&mut self, day: &str, text: String) -> (r: Result<usize, CommandError>)
        ensures
            day_position(old(self)@, day@) is None ==> r == Err::<usize, CommandError>(
                CommandError::InvalidDay,
            ) && final(self)@ == old(self)@,
            day_position(old(self)@, day@) matches Some(i) ==> r == Ok::<usize, CommandError>(
                i as usize,
            ) && final(self)@ == with_tasks(
                old(self)@,
                i,
                old(self)@[i].tasks.push(fresh_task(text@)),
            ),
            week_wf(old(self)@) ==> week_wf(final(self)@),
    {
        match self.find_day_index(day) {
            None => Err(CommandError::InvalidDay),
            Some(i) => {
                let ghost before = self@;
                let ghost t = fresh_task(text@);
                self.days[i].tasks.push(Task { description: text, done: false });
                assert(self.days@[i as int]@.tasks =~= before[i as int].tasks.push(t));
                assert(self@ =~= with_tasks(before, i as int, before[i as int].tasks.push(t)));
                proof {
                    if week_wf(before) {
                        lemma_tasks_change_keeps_days(before, i as int, before[i as int].tasks.push(t));
                    }
                }
                Ok(i)
            },
        }
    }
}

} // verus!
