use todo_app::todo_db::TodoDb;
use todo_app::todo_record::{TodoRecord, EARLIEST_SECS, LATEST_SECS};
use todo_app::todos::TodoAppState;

fn record(id: i32, title: &str, completed: bool, created_at: i64) -> TodoRecord {
    TodoRecord { id, title: title.to_string(), completed, created_at }
}

#[test]
fn line_has_fixed_columns() {
    let r = record(7, "Buy milk", false, 0);
    assert_eq!(
        r.render_line("2024-01-02 03:04:05"),
        "[007][ ] Buy milk                       - 2024-01-02 03:04:05"
    );
    let r = record(1234, "Done", true, 0);
    assert_eq!(r.render_line("t"), "[1234][X] Done                           - t");
}

#[test]
fn line_cuts_long_title() {
    let r = record(-5, "abcdefghijklmnopqrstuvwxyz0123456789", false, 0);
    assert_eq!(r.render_line("t"), "[0-5][ ] abcdefghijklmnopqrstuvwxyz0123 - t");
}

#[test]
fn rendering_twice_gives_same_text() {
    let r = record(3, "Same", true, 1_700_000_000);
    assert_eq!(r.render_line("w"), r.render_line("w"));
    assert_eq!(r.render(), r.render());
}

#[test]
fn render_writes_a_date() {
    let r = record(12, "Date", false, 1_700_000_000);
    let line = r.render().unwrap();
    assert!(line.starts_with("[012][ ] Date                           - "));
    assert_eq!(line.chars().count(), 9 + 30 + 3 + 19);
    let when = &line[42..];
    assert_eq!(when.as_bytes()[4], b'-');
    assert_eq!(when.as_bytes()[10], b' ');
    assert_eq!(when.as_bytes()[13], b':');
}

#[test]
fn render_outside_date_range_gives_none() {
    let r = record(1, "Far", false, i64::MAX);
    assert_eq!(r.render(), None);
}

#[test]
fn show_todos_lists_every_record() {
    let mut db = TodoDb::new("todos.csv");
    db.add(record(1, "a", false, 0));
    db.add(record(2, "b", true, 60));
    let lines = TodoAppState::show_todos(&db).unwrap();
    assert_eq!(lines.len(), 3);
    assert_eq!(lines[0], "Todo Records:");
    assert!(lines[1].starts_with("[001][ ] a "));
    assert!(lines[2].starts_with("[002][X] b "));
}

#[test]
fn render_at_date_range_bounds() {
    assert!(record(1, "first", false, EARLIEST_SECS).render().is_some());
    assert!(record(1, "last", false, LATEST_SECS).render().is_some());
    assert_eq!(record(1, "before", false, EARLIEST_SECS - 1).render(), None);
    assert_eq!(record(1, "after", false, LATEST_SECS + 1).render(), None);
}

#[test]
fn show_todos_fails_on_time_outside_range() {
    let mut db = TodoDb::new("todos.csv");
    db.add(record(1, "a", false, 0));
    db.add(record(2, "b", false, i64::MIN));
    assert_eq!(TodoAppState::show_todos(&db), None);
}
