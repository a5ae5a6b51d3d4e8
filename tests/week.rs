use weekly_tasks::calendar::{resolve_weekday, today_index, weekday_after};
use weekly_tasks::commands::CommandError;
use weekly_tasks::model::{weekday_name, Day, Task, Week};
use weekly_tasks::render::render_day_list;

const NAMES: [&str; 7] = ["Monday", "Tuesday", "Wednesday", "Thursday", "Friday", "Saturday", "Sunday"];

fn descriptions(week: &Week, day: usize) -> Vec<String> {
    week.days[day].tasks.iter().map(|t| t.description.clone()).collect()
}

fn snapshot(week: &Week) -> Vec<(String, Vec<(String, bool)>)> {
    week.days
        .iter()
        .map(|d| (d.name.clone(), d.tasks.iter().map(|t| (t.description.clone(), t.done)).collect()))
        .collect()
}

fn week_with(day: usize, items: &[&str]) -> Week {
    let mut w = Week::new();
    for item in items {
        assert_eq!(w.add(NAMES[day], item.to_string()), Ok(day));
    }
    w
}

#[test]
fn fresh_week_has_seven_canonical_empty_days() {
    let w = Week::new();
    assert_eq!(w.days.len(), 7);
    for (i, d) in w.days.iter().enumerate() {
        assert_eq!(d.name, NAMES[i]);
        assert!(d.tasks.is_empty());
    }
    assert!(w.is_well_formed());
}

#[test]
fn weekday_names_are_canonical() {
    for i in 0..7 {
        assert_eq!(weekday_name(i), NAMES[i]);
    }
}

#[test]
fn add_appends_unfinished_task() {
    let mut w = Week::new();
    assert_eq!(w.add("Wednesday", "buy milk".to_string()), Ok(2));
    assert_eq!(w.add("wednesday", "call mum".to_string()), Ok(2));
    assert_eq!(descriptions(&w, 2), vec!["buy milk", "call mum"]);
    assert!(!w.days[2].tasks[0].done);
    assert!(w.days[0].tasks.is_empty());
}

#[test]
fn add_ignores_case_of_day_name() {
    let mut w = Week::new();
    assert_eq!(w.add("MONDAY", "x".to_string()), Ok(0));
    assert_eq!(w.add("Monday", "x".to_string()), Ok(0));
    assert_eq!(w.add("mOnDaY", "y".to_string()), Ok(0));
    assert_eq!(descriptions(&w, 0), vec!["x", "x", "y"]);
}

#[test]
fn add_to_unknown_day_is_refused() {
    let mut w = Week::new();
    let before = snapshot(&w);
    assert_eq!(w.add("Funday", "x".to_string()), Err(CommandError::InvalidDay));
    assert_eq!(w.add("", "x".to_string()), Err(CommandError::InvalidDay));
    assert_eq!(w.add("Mon", "x".to_string()), Err(CommandError::InvalidDay));
    assert_eq!(snapshot(&w), before);
}

#[test]
fn find_day_folds_case() {
    let w = Week::new();
    assert_eq!(w.find_day_index("FRIDAY"), Some(4));
    assert_eq!(w.find_day_index("sunday"), Some(6));
    assert_eq!(w.find_day_index("Sunday "), None);
    assert_eq!(w.find_day_index("Mönday"), None);
    assert_eq!(w.find_day("tHURSDAY").map(|d| d.name.clone()), Some("Thursday".to_string()));
    assert!(w.find_day("someday").is_none());
}

#[test]
fn mark_done_sets_flag() {
    let mut w = week_with(1, &["a", "b"]);
    assert_eq!(w.mark_done("tuesday", 2), Ok(()));
    assert!(!w.days[1].tasks[0].done);
    assert!(w.days[1].tasks[1].done);
    assert_eq!(descriptions(&w, 1), vec!["a", "b"]);
}

#[test]
fn index_out_of_range_leaves_week_unchanged() {
    let mut w = week_with(3, &["a", "b", "c"]);
    let before = snapshot(&w);
    assert_eq!(w.mark_done("Thursday", 0), Err(CommandError::InvalidIndex));
    assert_eq!(w.mark_done("Thursday", 4), Err(CommandError::InvalidIndex));
    assert_eq!(w.update("Thursday", 0, "z".to_string()), Err(CommandError::InvalidIndex));
    assert_eq!(w.update("Thursday", 4, "z".to_string()), Err(CommandError::InvalidIndex));
    assert_eq!(w.delete("Thursday", 0), Err(CommandError::InvalidIndex));
    assert_eq!(w.delete("Thursday", 4), Err(CommandError::InvalidIndex));
    assert_eq!(w.delete("Friday", 1), Err(CommandError::InvalidIndex));
    assert_eq!(w.mark_done("Noday", 1), Err(CommandError::InvalidDay));
    assert_eq!(w.update("Noday", 1, "z".to_string()), Err(CommandError::InvalidDay));
    assert_eq!(w.delete("Noday", 1), Err(CommandError::InvalidDay));
    assert_eq!(snapshot(&w), before);
}

#[test]
fn update_replaces_text_and_keeps_flag() {
    let mut w = week_with(5, &["a", "b"]);
    assert_eq!(w.mark_done("Saturday", 1), Ok(()));
    assert_eq!(w.update("SATURDAY", 1, "alpha".to_string()), Ok(()));
    assert_eq!(w.update("saturday", 2, "beta".to_string()), Ok(()));
    assert_eq!(descriptions(&w, 5), vec!["alpha", "beta"]);
    assert!(w.days[5].tasks[0].done);
    assert!(!w.days[5].tasks[1].done);
}

#[test]
fn delete_shifts_later_tasks_down() {
    let mut w = week_with(0, &["A", "B", "C"]);
    assert_eq!(w.delete("Monday", 2), Ok("B".to_string()));
    assert_eq!(descriptions(&w, 0), vec!["A", "C"]);
    assert_eq!(w.mark_done("Monday", 2), Ok(()));
    assert!(w.days[0].tasks[1].done);
    assert_eq!(w.days[0].tasks[1].description, "C");
    assert_eq!(w.delete("Monday", 2), Ok("C".to_string()));
    assert_eq!(descriptions(&w, 0), vec!["A"]);
}

#[test]
fn clear_empties_every_day_and_survives_reload() {
    let mut w = Week::new();
    for name in NAMES.iter() {
        assert!(w.add(name, format!("task on {}", name)).is_ok());
    }
    w.clear();
    assert!(w.is_well_formed());
    for (i, d) in w.days.iter().enumerate() {
        assert_eq!(d.name, NAMES[i]);
        assert!(d.tasks.is_empty());
    }
    let reloaded = Week::from_document(Some(w));
    assert!(reloaded.days.iter().all(|d| d.tasks.is_empty()));
    assert_eq!(reloaded.days.len(), 7);
}

#[test]
fn from_document_keeps_a_well_formed_week() {
    let mut w = week_with(4, &["pay rent"]);
    assert_eq!(w.mark_done("friday", 1), Ok(()));
    let before = snapshot(&w);
    let loaded = Week::from_document(Some(w));
    assert_eq!(snapshot(&loaded), before);
}

#[test]
fn from_document_without_document_gives_fresh_week() {
    let w = Week::from_document(None);
    assert_eq!(snapshot(&w), snapshot(&Week::new()));
}

#[test]
fn from_document_with_malformed_week_gives_fresh_week() {
    let mut short = Week::new();
    short.days.pop();
    assert!(!short.is_well_formed());
    assert_eq!(snapshot(&Week::from_document(Some(short))), snapshot(&Week::new()));

    let mut renamed = week_with(0, &["keep?"]);
    renamed.days[0].name = "monday".to_string();
    assert!(!renamed.is_well_formed());
    assert_eq!(snapshot(&Week::from_document(Some(renamed))), snapshot(&Week::new()));

    let mut swapped = Week::new();
    swapped.days.swap(0, 1);
    assert_eq!(snapshot(&Week::from_document(Some(swapped))), snapshot(&Week::new()));

    let mut extra = Week::new();
    extra.days.push(Day { name: "Monday".to_string(), tasks: Vec::new() });
    assert_eq!(snapshot(&Week::from_document(Some(extra))), snapshot(&Week::new()));
}

#[test]
fn weekday_after_wraps_sunday_to_monday() {
    assert_eq!(weekday_after(6, 1), 0);
    assert_eq!(weekday_after(0, 1), 1);
    assert_eq!(weekday_after(2, 0), 2);
    assert_eq!(weekday_after(3, 15), 4);
    assert_eq!(weekday_after(5, usize::MAX), (5 + usize::MAX % 7) % 7);
}

#[test]
fn today_and_tomorrow_are_consecutive_weekdays() {
    let t = today_index();
    assert!(t < 7);
    let today = resolve_weekday(0);
    let tomorrow = resolve_weekday(1);
    let ti = NAMES.iter().position(|n| *n == today).unwrap();
    let mi = NAMES.iter().position(|n| *n == tomorrow).unwrap();
    // both resolutions read the clock; they agree unless midnight falls between
    assert!(mi == (ti + 1) % 7 || mi == (ti + 2) % 7);
}

#[test]
fn day_on_finds_the_day_of_a_weekday() {
    let w = week_with(6, &["rest"]);
    let d = w.day_on(6).unwrap();
    assert_eq!(d.name, "Sunday");
    assert_eq!(d.tasks[0].description, "rest");
    assert_eq!(w.day_on(weekday_after(6, 1)).unwrap().name, "Monday");
    let mut missing = Week::new();
    missing.days.remove(3);
    assert!(missing.day_on(3).is_none());
}

#[test]
fn day_list_numbers_tasks_from_one() {
    let tasks = vec![
        Task { description: "read".to_string(), done: false },
        Task { description: "write".to_string(), done: true },
    ];
    assert_eq!(render_day_list(&tasks), vec!["1: read \u{1F518}", "2: write \u{2705}"]);
    assert!(render_day_list(&Vec::new()).is_empty());
}

#[test]
fn day_list_numbers_past_nine() {
    let tasks: Vec<Task> = (0..12).map(|i| Task { description: format!("t{}", i), done: i % 2 == 0 }).collect();
    let lines = render_day_list(&tasks);
    assert_eq!(lines.len(), 12);
    assert_eq!(lines[9], "10: t9 \u{1F518}");
    assert_eq!(lines[11], "12: t11 \u{1F518}");
    assert_eq!(lines[10], "11: t10 \u{2705}");
}

fn pad(s: &str, width: usize) -> String {
    format!("{:<width$}", s, width = width)
}

#[test]
fn table_of_empty_week_has_header_and_separator_only() {
    let w = Week::new();
    assert!(w.fits_in_table());
    let lines = w.render_table(0);
    assert_eq!(lines.len(), 2);
    assert_eq!(
        lines[0],
        "Monday  Tuesday  Wednesday  Thursday  Friday  Saturday  Sunday  Today  Tomorrow  "
    );
    assert_eq!(lines[1], "-".repeat(8 + 9 + 11 + 10 + 8 + 10 + 8 + 7 + 10));
}

#[test]
fn table_widens_columns_for_long_tasks() {
    let mut w = Week::new();
    assert!(w.add("Monday", "write report".to_string()).is_ok());
    assert!(w.add("Monday", "x".to_string()).is_ok());
    assert_eq!(w.mark_done("Monday", 2), Ok(()));
    assert!(w.add("Sunday", "brunch".to_string()).is_ok());
    // today is Sunday: tomorrow is Monday
    let lines = w.render_table(6);
    assert_eq!(lines.len(), 4);
    let widths = [14, 7, 9, 8, 6, 8, 8, 8, 14];
    let headers = ["Monday", "Tuesday", "Wednesday", "Thursday", "Friday", "Saturday", "Sunday", "Today", "Tomorrow"];
    let header: String = headers.iter().zip(widths.iter()).map(|(h, w)| pad(h, w + 2)).collect();
    assert_eq!(lines[0], header);
    let sep: String = widths.iter().map(|w| "-".repeat(w + 2)).collect();
    assert_eq!(lines[1], sep);
    let mut row0 = String::new();
    row0.push_str(&pad("write report \u{1F518}", 16));
    for w in &widths[1..6] {
        row0.push_str(&" ".repeat(w + 2));
    }
    row0.push_str(&pad("brunch \u{1F518}", 10));
    row0.push_str(&pad("brunch \u{1F518}", 10));
    row0.push_str(&pad("write report \u{1F518}", 16));
    assert_eq!(lines[2], row0);
    let mut row1 = String::new();
    row1.push_str(&pad("x \u{2705}", 16));
    for w in &widths[1..8] {
        row1.push_str(&" ".repeat(w + 2));
    }
    row1.push_str(&pad("x \u{2705}", 16));
    assert_eq!(lines[3], row1);
}

#[test]
fn table_projection_of_missing_day_is_empty() {
    let mut w = week_with(2, &["a long task name"]);
    w.days[2].name = "Midweek".to_string();
    let lines = w.render_table(2);
    assert_eq!(lines.len(), 3);
    assert!(lines[0].starts_with("Monday  Tuesday  Midweek"));
    assert!(lines[0].ends_with("Today  Tomorrow  "));
}
