use vstd::prelude::*;
use vstd::string::*;
use crate::model::{DayModel, Task, TaskModel, Week, DAYS_IN_WEEK};
use crate::calendar::{tasks_on, weekday_after, weekday_after_spec};
use crate::lookup::{day_position, lemma_match_in_bounds};
use crate::model::canonical_name;

verus! {

/// The status mark of a task: a check mark when done, a round button when not.
pub open spec fn glyph(done: bool) -> Seq<char> {
    if done {
        seq!['\u{2705}']
    } else {
        seq!['\u{1F518}']
    }
}

/// How a task reads in a cell: its description, a space, its status mark.
pub open spec fn cell_text(t: TaskModel) -> Seq<char> {
    t.description + seq![' '] + glyph(t.done)
}

/// `n` copies of `c`.
pub open spec fn run(c: char, n: nat) -> Seq<char> {
    Seq::new(n, |i: int| c)
}

/// `s` followed by spaces up to `width` characters; longer text is kept whole.
pub open spec fn pad(s: Seq<char>, width: nat) -> Seq<char> {
    if s.len() < width {
        s + run(' ', (width - s.len()) as nat)
    } else {
        s
    }
}

/// The pieces of `parts` joined in order.
pub open spec fn concat(parts: Seq<Seq<char>>) -> Seq<char>
    decreases parts.len(),
{
    if parts.len() == 0 {
        Seq::empty()
    } else {
        concat(parts.drop_last()) + parts.last()
    }
}

/// The larger of `base` and every task's description length plus two.
pub open spec fn widest(base: nat, ts: Seq<TaskModel>) -> nat
    decreases ts.len(),
{
    if ts.len() == 0 {
        base
    } else {
        let w = widest(base, ts.drop_last());
        let d = ts.last().description.len() + 2;
        if d > w {
            d
        } else {
            w
        }
    }
}

/// A column of the table: its header and its tasks.
pub type ColumnModel = (Seq<char>, Seq<TaskModel>);

/// The width of a column: its header, or its widest task with room for the mark.
pub open spec fn col_width(c: ColumnModel) -> nat {
    widest(c.0.len(), c.1)
}

/// The most tasks any column holds.
pub open spec fn tallest(cols: Seq<ColumnModel>) -> nat
    decreases cols.len(),
{
    if cols.len() == 0 {
        0
    } else {
        let t = tallest(cols.drop_last());
        if cols.last().1.len() > t {
            cols.last().1.len()
        } else {
            t
        }
    }
}

/// The header cells: each header padded to its column's width plus two.
pub open spec fn header_cells(cols: Seq<ColumnModel>) -> Seq<Seq<char>> {
    Seq::new(cols.len(), |j: int| pad(cols[j].0, col_width(cols[j]) + 2))
}

/// The header row.
pub open spec fn header_line(cols: Seq<ColumnModel>) -> Seq<char> {
    concat(header_cells(cols))
}

/// The separator cells: dashes across each column's width plus two.
pub open spec fn separator_cells(cols: Seq<ColumnModel>) -> Seq<Seq<char>> {
    Seq::new(cols.len(), |j: int| run('-', col_width(cols[j]) + 2))
}

/// The separator row.
pub open spec fn separator_line(cols: Seq<ColumnModel>) -> Seq<char> {
    concat(separator_cells(cols))
}

/// The cell of column `c` in data row `r`: the task there, or blanks.
pub open spec fn cell(c: ColumnModel, r: int) -> Seq<char> {
    if 0 <= r < c.1.len() {
        pad(cell_text(c.1[r]), col_width(c) + 2)
    } else {
        run(' ', col_width(c) + 2)
    }
}

/// The cells of data row `r`.
pub open spec fn row_cells(cols: Seq<ColumnModel>, r: int) -> Seq<Seq<char>> {
    Seq::new(cols.len(), |j: int| cell(cols[j], r))
}

/// Data row `r` of the table.
pub open spec fn row_line(cols: Seq<ColumnModel>, r: int) -> Seq<char> {
    concat(row_cells(cols, r))
}

/// Header, separator, then one row per task position.
pub open spec fn table_lines(cols: Seq<ColumnModel>) -> Seq<Seq<char>> {
    seq![header_line(cols), separator_line(cols)] + Seq::new(tallest(cols), |r: int| row_line(cols, r))
}

/// The nine columns of the week table: the seven days, then the days that
/// weekday `today` and the one after it name.
pub open spec fn week_columns(w: Seq<DayModel>, today: int) -> Seq<ColumnModel> {
    w.map_values(|d: DayModel| (d.name, d.tasks)) + seq![
        (seq!['T', 'o', 'd', 'a', 'y'], tasks_on(w, today)),
        (seq!['T', 'o', 'm', 'o', 'r', 'r', 'o', 'w'], tasks_on(w, weekday_after_spec(today, 1))),
    ]
}

/// Every day name and task description is short enough that widths and
/// padding fit in a machine word.
pub open spec fn week_fits(w: Seq<DayModel>) -> bool {
    forall|i: int| 0 <= i < w.len() ==> {
        &&& #[trigger] w[i].name.len() + 4 <= usize::MAX
        &&& forall|k: int| 0 <= k < w[i].tasks.len() ==> #[trigger] w[i].tasks[k].description.len() + 4 <= usize::MAX
    }
}

/// What a list of tasks is, as a sequence of values.
pub open spec fn tasks_model(v: Seq<Task>) -> Seq<TaskModel> {
    v.map_values(|t: Task| t@)
}

/// The column that a header and a task list make.
pub open spec fn column_of(header: String, tasks: &Vec<Task>) -> ColumnModel {
    (header@, tasks_model(tasks@))
}

/// The columns that parallel lists of headers and task lists make.
pub open spec fn columns_of(headers: Seq<String>, lists: Seq<&Vec<Task>>) -> Seq<ColumnModel> {
    Seq::new(headers.len(), |j: int| column_of(headers[j], lists[j]))
}

/// A column whose header and descriptions are short enough that its width and
/// padding fit in a machine word.
pub open spec fn col_fits(c: ColumnModel) -> bool {
    &&& c.0.len() + 4 <= usize::MAX
    &&& forall|k: int| 0 <= k < c.1.len() ==> #[trigger] c.1[k].description.len() + 4 <= usize::MAX
}

proof fn lemma_concat_step(p: Seq<Seq<char>>, j: int)
    requires
        0 <= j < p.len(),
    ensures
        concat(p.take(j + 1)) == concat(p.take(j)) + p[j],
{
    assert(p.take(j + 1).drop_last() =~= p.take(j));
}

/// Appends `n` copies of the one character in `unit`.
fn append_run(line: &mut String, unit: &str, n: usize)
    requires
        unit@.len() == 1,
    ensures
        final(line)@ == old(line)@ + run(unit@[0], n as nat),
{
    let ghost start = line@;
    let mut k: usize = 0;
    while k < n
        invariant
            k <= n,
            unit@.len() == 1,
            line@ == start + run(unit@[0], k as nat),
        decreases n - k,
    {
        line.append(unit);
        assert(run(unit@[0], (k + 1) as nat) =~= run(unit@[0], k as nat) + unit@);
        assert(start + run(unit@[0], (k + 1) as nat) =~= start + run(unit@[0], k as nat) + unit@);
        k = k + 1;
    }
}

/// Appends `s` padded with spaces to `width` characters.
fn append_padded(line: &mut String, s: &str, width: usize)
    ensures
        final(line)@ == old(line)@ + pad(s@, width as nat),
{
    let n = s.unicode_len();
    line.append(s);
    if n < width {
        proof {
            reveal_strlit(" ");
        }
        append_run(line, " ", width - n);
        assert(old(line)@ + s@ + run(' ', (width - n) as nat) =~= old(line)@ + pad(s@, width as nat));
    } else {
        assert(old(line)@ + s@ =~= old(line)@ + pad(s@, width as nat));
    }
}

/// A task as it reads in a cell: description, a space, its status mark.
fn task_cell(t: &Task) -> (s: String)
    ensures
        s@ == cell_text(t@),
{
    proof {
        reveal_strlit(" ");
        reveal_strlit("\u{2705}");
        reveal_strlit("\u{1F518}");
    }
    let mut s = t.description.clone();
    s.append(" ");
    if t.done {
        s.append("\u{2705}");
    } else {
        s.append("\u{1F518}");
    }
    assert(s@ =~= cell_text(t@));
    s
}

/// The width of the column a header and a task list make.
fn column_width(header: &String, tasks: &Vec<Task>) -> (r: usize)
    requires
        col_fits(column_of(*header, tasks)),
    ensures
        r == col_width(column_of(*header, tasks)),
        r + 2 <= usize::MAX,
{
    let ghost ts = tasks_model(tasks@);
    let mut w = header.as_str().unicode_len();
    let mut k: usize = 0;
    while k < tasks.len()
        invariant
            k <= tasks@.len(),
            ts == tasks_model(tasks@),
            col_fits(column_of(*header, tasks)),
            w == widest(header@.len(), ts.take(k as int)),
            w + 2 <= usize::MAX,
        decreases tasks@.len() - k,
    {
        assert(ts[k as int] == tasks@[k as int]@);
        assert(column_of(*header, tasks).1[k as int].description.len() + 4 <= usize::MAX);
        let d = tasks[k].description.as_str().unicode_len() + 2;
        assert(ts.take(k + 1).drop_last() =~= ts.take(k as int));
        if d > w {
            w = d;
        }
        k = k + 1;
    }
    assert(ts.take(k as int) =~= ts);
    w
}

/// The table of the given columns, one string per line.
fn render_columns(headers: &Vec<String>, lists: &Vec<&Vec<Task>>) -> (r: Vec<String>)
    requires
        headers@.len() == lists@.len(),
        forall|j: int| 0 <= j < headers@.len() ==> col_fits(#[trigger] columns_of(headers@, lists@)[j]),
    ensures
        r@.len() == table_lines(columns_of(headers@, lists@)).len(),
        forall|k: int| 0 <= k < r@.len() ==> #[trigger] r@[k]@ == table_lines(columns_of(headers@, lists@))[k],
{
    let ghost cols = columns_of(headers@, lists@);
    let n = headers.len();
    let mut widths: Vec<usize> = Vec::new();
    let mut rows: usize = 0;
    let mut j: usize = 0;
    while j < n
        invariant
            j <= n,
            n == headers@.len(),
            n == lists@.len(),
            cols == columns_of(headers@, lists@),
            forall|i: int| 0 <= i < n ==> col_fits(#[trigger] cols[i]),
            widths@.len() == j,
            forall|i: int| 0 <= i < j ==> #[trigger] widths@[i] == col_width(cols[i]) && widths@[i] + 2 <= usize::MAX,
            rows == tallest(cols.take(j as int)),
        decreases n - j,
    {
        assert(cols[j as int] == column_of(headers@[j as int], lists@[j as int]));
        let w = column_width(&headers[j], lists[j]);
        widths.push(w);
        assert(cols.take(j + 1).drop_last() =~= cols.take(j as int));
        if lists[j].len() > rows {
            rows = lists[j].len();
        }
        j = j + 1;
    }
    assert(cols.take(n as int) =~= cols);
    let mut lines: Vec<String> = Vec::new();
    let mut header = String::new();
    let mut sep = String::new();
    let ghost hp = header_cells(cols);
    let ghost sp = separator_cells(cols);
    j = 0;
    while j < n
        invariant
            j <= n,
            n == headers@.len(),
            cols == columns_of(headers@, lists@),
            hp == header_cells(cols),
            sp == separator_cells(cols),
            widths@.len() == n,
            forall|i: int| 0 <= i < n ==> #[trigger] widths@[i] == col_width(cols[i]) && widths@[i] + 2 <= usize::MAX,
            header@ == concat(hp.take(j as int)),
            sep@ == concat(sp.take(j as int)),
        decreases n - j,
    {
        proof {
            reveal_strlit("-");
            lemma_concat_step(hp, j as int);
            lemma_concat_step(sp, j as int);
        }
        assert(cols[j as int].0 == headers@[j as int]@);
        append_padded(&mut header, headers[j].as_str(), widths[j] + 2);
        append_run(&mut sep, "-", widths[j] + 2);
        j = j + 1;
    }
    assert(hp.take(n as int) =~= hp);
    assert(sp.take(n as int) =~= sp);
    lines.push(header);
    lines.push(sep);
    let mut r: usize = 0;
    while r < rows
        invariant
            r <= rows,
            rows == tallest(cols),
            n == headers@.len(),
            n == lists@.len(),
            cols == columns_of(headers@, lists@),
            widths@.len() == n,
            forall|i: int| 0 <= i < n ==> #[trigger] widths@[i] == col_width(cols[i]) && widths@[i] + 2 <= usize::MAX,
            lines@.len() == r + 2,
            forall|k: int| 0 <= k < r + 2 ==> #[trigger] lines@[k]@ == table_lines(cols)[k],
        decreases rows - r,
    {
        let ghost rp = row_cells(cols, r as int);
        let mut line = String::new();
        j = 0;
        while j < n
            invariant
                j <= n,
                n == headers@.len(),
                n == lists@.len(),
                cols == columns_of(headers@, lists@),
                rp == row_cells(cols, r as int),
                widths@.len() == n,
                forall|i: int| 0 <= i < n ==> #[trigger] widths@[i] == col_width(cols[i]) && widths@[i] + 2 <= usize::MAX,
                line@ == concat(rp.take(j as int)),
            decreases n - j,
        {
            proof {
                reveal_strlit(" ");
                lemma_concat_step(rp, j as int);
            }
            assert(cols[j as int] == column_of(headers@[j as int], lists@[j as int]));
            if r < lists[j].len() {
                assert(cols[j as int].1[r as int] == lists@[j as int]@[r as int]@);
                let text = task_cell(&lists[j][r]);
                append_padded(&mut line, text.as_str(), widths[j] + 2);
            } else {
                append_run(&mut line, " ", widths[j] + 2);
            }
            j = j + 1;
        }
        assert(rp.take(n as int) =~= rp);
        lines.push(line);
        r = r + 1;
    }
    lines
}

proof fn lemma_tasks_on_fits(w: Seq<DayModel>, k: int)
    requires
        week_fits(w),
    ensures
        forall|m: int| 0 <= m < tasks_on(w, k).len() ==> #[trigger] tasks_on(w, k)[m].description.len() + 4 <= usize::MAX,
{
    lemma_match_in_bounds(w, crate::lookup::fold_case(canonical_name(k)), 0);
    if let Some(i) = day_position(w, canonical_name(k)) {
        assert forall|m: int| 0 <= m < tasks_on(w, k).len() implies #[trigger] tasks_on(w, k)[m].description.len() + 4 <= usize::MAX by {
            assert(w[i].name.len() + 4 <= usize::MAX);
            assert(w[i].tasks[m].description.len() + 4 <= usize::MAX);
        }
    }
}

/// The decimal digit for `d` < 10.
pub open spec fn digit(d: nat) -> char {
    ((d + 48) as u32) as char
}

/// `n` written in decimal, without leading zeros.
pub open spec fn decimal(n: nat) -> Seq<char>
    decreases n,
{
    if n < 10 {
        seq![digit(n)]
    } else {
        decimal(n / 10) + seq![digit(n % 10)]
    }
}

/// Line `i` (0-based) of a day's list: its 1-based number, a colon, the task.
pub open spec fn list_line(i: int, t: TaskModel) -> Seq<char> {
    decimal((i + 1) as nat) + seq![':', ' '] + cell_text(t)
}

/// Appends the decimal digit for `d`.
fn append_digit(s: &mut String, d: usize)
    requires
        d < 10,
    ensures
        final(s)@ == old(s)@ + seq![digit(d as nat)],
{
    let lit = if d == 0 {
        "0"
    } else if d == 1 {
        "1"
    } else if d == 2 {
        "2"
    } else if d == 3 {
        "3"
    } else if d == 4 {
        "4"
    } else if d == 5 {
        "5"
    } else if d == 6 {
        "6"
    } else if d == 7 {
        "7"
    } else if d == 8 {
        "8"
    } else {
        "9"
    };
    proof {
        reveal_strlit("0");
        reveal_strlit("1");
        reveal_strlit("2");
        reveal_strlit("3");
        reveal_strlit("4");
        reveal_strlit("5");
        reveal_strlit("6");
        reveal_strlit("7");
        reveal_strlit("8");
        reveal_strlit("9");
    }
    assert(lit@ =~= seq![digit(d as nat)]);
    s.append(lit);
}

/// Appends `n` in decimal.
fn append_decimal(s: &mut String, n: usize)
    ensures
        final(s)@ == old(s)@ + decimal(n as nat),
    decreases n,
{
    if n < 10 {
        append_digit(s, n);
    } else {
        append_decimal(s, n / 10);
        append_digit(s, n % 10);
        assert(old(s)@ + decimal((n / 10) as nat) + seq![digit((n % 10) as nat)] =~= old(s)@ + decimal(n as nat));
    }
}

/// A day's tasks as a numbered list, one string per task:
/// `"<n>: <description> <mark>"`, numbered from 1.
pub fn render_day_list(tasks: &Vec<Task>) -> (r: Vec<String>)
    requires
        tasks@.len() < usize::MAX,
    ensures
        r@.len() == tasks@.len(),
        forall|i: int| 0 <= i < r@.len() ==> #[trigger] r@[i]@ == list_line(i, tasks@[i]@),
{
    let mut lines: Vec<String> = Vec::new();
    let mut i: usize = 0;
    while i < tasks.len()
        invariant
            i <= tasks@.len(),
            tasks@.len() < usize::MAX,
            lines@.len() == i,
            forall|k: int| 0 <= k < i ==> #[trigger] lines@[k]@ == list_line(k, tasks@[k]@),
        decreases tasks@.len() - i,
    {
        proof {
            reveal_strlit(": ");
        }
        let mut line = String::new();
        append_decimal(&mut line, i + 1);
        line.append(": ");
        let text = task_cell(&tasks[i]);
        line.append(text.as_str());
        assert(line@ =~= list_line(i as int, tasks@[i as int]@));
        lines.push(line);
        i = i + 1;
    }
    lines
}

impl Week {
    /// Whether every day name and task description is short enough for
    /// `render_table`.
    pub fn fits_in_table(&self) -> (r: bool)
        ensures
            r == week_fits(self@),
    {
        let mut i: usize = 0;
        while i < self.days.len()
            invariant
                i <= self.days@.len(),
                forall|j: int| 0 <= j < i ==> {
                    &&& #[trigger] self@[j].name.len() + 4 <= usize::MAX
                    &&& forall|k: int| 0 <= k < self@[j].tasks.len() ==> #[trigger] self@[j].tasks[k].description.len() + 4 <= usize::MAX
                },
            decreases self.days@.len() - i,
        {
            assert(self@[i as int] == self.days@[i as int]@);
            if self.days[i].name.as_str().unicode_len() > usize::MAX - 4 {
                assert(!(self@[i as int].name.len() + 4 <= usize::MAX));
                return false;
            }
            let tasks = &self.days[i].tasks;
            let mut k: usize = 0;
            while k < tasks.len()
                invariant
                    k <= tasks@.len(),
                    i < self.days@.len(),
                    tasks == &self.days@[i as int].tasks,
                    self@[i as int] == self.days@[i as int]@,
                    forall|m: int| 0 <= m < k ==> #[trigger] self@[i as int].tasks[m].description.len() + 4 <= usize::MAX,
                decreases tasks@.len() - k,
            {
                assert(self@[i as int].tasks[k as int] == tasks@[k as int]@);
                if tasks[k].description.as_str().unicode_len() > usize::MAX - 4 {
                    proof {
                        if week_fits(self@) {
                            assert(self@[i as int].name.len() + 4 <= usize::MAX);
                            assert(self@[i as int].tasks[k as int].description.len() + 4 <= usize::MAX);
                        }
                    }
                    return false;
                }
                k = k + 1;
            }
            i = i + 1;
        }
        true
    }

    /// The week as a table, one string per line: the seven days, then the
    /// days that weekday `today` (Monday is 0) and the one after it name.
    pub fn render_table(&self, today: usize) -> (r: Vec<String>)
        requires
            today < DAYS_IN_WEEK,
            week_fits(self@),
        ensures
            r@.len() == table_lines(week_columns(self@, today as int)).len(),
            forall|k: int| 0 <= k < r@.len() ==> #[trigger] r@[k]@ == table_lines(
                week_columns(self@, today as int),
            )[k],
    {
        let ghost want = week_columns(self@, today as int);
        let empty: Vec<Task> = Vec::new();
        let mut headers: Vec<String> = Vec::new();
        let mut lists: Vec<&Vec<Task>> = Vec::new();
        let mut i: usize = 0;
        while i < self.days.len()
            invariant
                i <= self.days@.len(),
                want == week_columns(self@, today as int),
                headers@.len() == i,
                lists@.len() == i,
                forall|j: int| 0 <= j < i ==> #[trigger] column_of(headers@[j], lists@[j]) == want[j],
            decreases self.days@.len() - i,
        {
            assert(self@[i as int] == self.days@[i as int]@);
            headers.push(self.days[i].name.clone());
            lists.push(&self.days[i].tasks);
            assert(column_of(headers@[i as int], lists@[i as int]) == want[i as int]);
            i = i + 1;
        }
        let today_tasks: &Vec<Task> = match self.day_on(today) {
            Some(d) => &d.tasks,
            None => &empty,
        };
        let next = weekday_after(today, 1);
        let tomorrow_tasks: &Vec<Task> = match self.day_on(next) {
            Some(d) => &d.tasks,
            None => &empty,
        };
        proof {
            reveal_strlit("Today");
            reveal_strlit("Tomorrow");
        }
        headers.push(String::from_str("Today"));
        lists.push(today_tasks);
        headers.push(String::from_str("Tomorrow"));
        lists.push(tomorrow_tasks);
        let ghost cols = columns_of(headers@, lists@);
        assert(cols[i as int] == want[i as int]);
        assert(cols[i + 1] == want[i + 1]);
        assert forall|j: int| 0 <= j < cols.len() implies #[trigger] cols[j] == want[j] by {
            if j < i {
                assert(cols[j] == column_of(headers@[j], lists@[j]));
            }
        }
        assert(cols =~= want);
        proof {
            lemma_tasks_on_fits(self@, today as int);
            lemma_tasks_on_fits(self@, next as int);
        }
        assert forall|j: int| 0 <= j < headers@.len() implies col_fits(#[trigger] cols[j]) by {
            if j < i {
                assert(want[j] == (self@[j].name, self@[j].tasks));
                assert(self@[j].name.len() + 4 <= usize::MAX);
            }
        }
        render_columns(&headers, &lists)
    }
}

} // verus!
