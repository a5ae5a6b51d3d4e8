use vstd::prelude::*;
use vstd::string::*;

verus! {

/// One thing to do: a description and whether it is finished.
pub struct Task {
    pub description: String,
    pub done: bool,
}

/// A weekday and the tasks filed under it, in the order they were added.
pub struct Day {
    pub name: String,
    pub tasks: Vec<Task>,
}

/// The seven days, Monday first.
pub struct Week {
    pub days: Vec<Day>,
}

/// What a task is, as a mathematical value.
pub struct TaskModel {
    pub description: Seq<char>,
    pub done: bool,
}

/// What a day is, as a mathematical value.
pub struct DayModel {
    pub name: Seq<char>,
    pub tasks: Seq<TaskModel>,
}

impl View for Task {
    type V = TaskModel;

    open spec fn view(&self) -> TaskModel {
        TaskModel { description: self.description@, done: self.done }
    }
}

impl View for Day {
    type V = DayModel;

    open spec fn view(&self) -> DayModel {
        DayModel { name: self.name@, tasks: self.tasks@.map_values(|t: Task| t@) }
    }
}

impl View for Week {
    type V = Seq<DayModel>;

    open spec fn view(&self) -> Seq<DayModel> {
        self.days@.map_values(|d: Day| d@)
    }
}

/// Number of days in a week.
pub const DAYS_IN_WEEK: usize = 7;

/// The canonical name of the weekday at position `i` (Monday is 0).
pub open spec fn canonical_name(i: int) -> Seq<char> {
    if i == 0 {
        seq!['M', 'o', 'n', 'd', 'a', 'y']
    } else if i == 1 {
        seq!['T', 'u', 'e', 's', 'd', 'a', 'y']
    } else if i == 2 {
        seq!['W', 'e', 'd', 'n', 'e', 's', 'd', 'a', 'y']
    } else if i == 3 {
        seq!['T', 'h', 'u', 'r', 's', 'd', 'a', 'y']
    } else if i == 4 {
        seq!['F', 'r', 'i', 'd', 'a', 'y']
    } else if i == 5 {
        seq!['S', 'a', 't', 'u', 'r', 'd', 'a', 'y']
    } else {
        seq!['S', 'u', 'n', 'd', 'a', 'y']
    }
}

/// Seven days, carrying the canonical names in order.
pub open spec fn week_wf(w: Seq<DayModel>) -> bool {
    &&& w.len() == DAYS_IN_WEEK
    &&& forall|i: int| 0 <= i < DAYS_IN_WEEK ==> #[trigger] w[i].name == canonical_name(i)
}

/// A week in which no day holds a task.
pub open spec fn week_is_empty(w: Seq<DayModel>) -> bool {
    forall|i: int| 0 <= i < w.len() ==> #[trigger] w[i].tasks.len() == 0
}

/// The canonical name of the weekday at position `i` (Monday is 0).
pub fn weekday_name(i: usize) -> (r: String)
    requires
        i < DAYS_IN_WEEK,
    ensures
        r@ == canonical_name(i as int),
{
    let s = if i == 0 {
        "Monday"
    } else if i == 1 {
        "Tuesday"
    } else if i == 2 {
        "Wednesday"
    } else if i == 3 {
        "Thursday"
    } else if i == 4 {
        "Friday"
    } else if i == 5 {
        "Saturday"
    } else {
        "Sunday"
    };
    proof {
        reveal_strlit("Monday");
        reveal_strlit("Tuesday");
        reveal_strlit("Wednesday");
        reveal_strlit("Thursday");
        reveal_strlit("Friday");
        reveal_strlit("Saturday");
        reveal_strlit("Sunday");
    }
    let r = String::from_str(s);
    assert(r@ =~= canonical_name(i as int));
    r
}

impl Week {
    /// A fresh week: the seven canonical days, each without tasks.
    pub fn new() -> (w: Week)
        ensures
            week_wf(w@),
            week_is_empty(w@),
    {
        let mut days: Vec<Day> = Vec::new();
        let mut i: usize = 0;
        while i < DAYS_IN_WEEK
            invariant
                i <= DAYS_IN_WEEK,
                days@.len() == i,
                forall|j: int| 0 <= j < i ==> #[trigger] days@[j]@.name == canonical_name(j),
                forall|j: int| 0 <= j < i ==> #[trigger] days@[j].tasks@.len() == 0,
            decreases DAYS_IN_WEEK - i,
        {
            days.push(Day { name: weekday_name(i), tasks: Vec::new() });
            i = i + 1;
        }
        let w = Week { days };
        assert(forall|j: int| 0 <= j < w@.len() ==> #[trigger] w@[j] == w.days@[j]@);
        w
    }
}

} // verus!
