use todo_app::todo_db::{LoadError, TodoDb};
use todo_app::todo_record::TodoRecord;
use todo_app::todos::{AppScreen, IdError, TodoAppState};

fn record(id: i32, title: &str, completed: bool, created_at: i64) -> TodoRecord {
    TodoRecord { id, title: title.to_string(), completed, created_at }
}

fn store_with(records: Vec<TodoRecord>) -> TodoDb {
    let mut db = TodoDb::new("todos.csv");
    for r in records {
        db.add(r);
    }
    db
}

#[test]
fn scenario_add_complete_delete_reload() {
    let mut app = TodoAppState::init(None).unwrap();
    assert_eq!(app.screen, AppScreen::Home);
    assert_eq!(app.run_add_todo_screen("Buy milk"), Some(1));
    assert_eq!(app.db.records.len(), 1);
    assert_eq!(app.db.records[0].id, 1);
    assert_eq!(app.db.records[0].title, "Buy milk");
    assert!(!app.db.records[0].completed);
    assert_eq!(app.run_add_todo_screen("Pay bills"), Some(2));
    assert_eq!(app.db.records[1].id, 2);
    let second_before = (app.db.records[1].id, app.db.records[1].title.clone(), app.db.records[1].completed);
    assert_eq!(app.run_complete_todo_screen("1"), Ok(Some(0)));
    assert!(app.db.records[0].completed);
    assert_eq!(
        (app.db.records[1].id, app.db.records[1].title.clone(), app.db.records[1].completed),
        second_before
    );
    assert_eq!(app.run_delete_todo_screen("2"), Ok(true));
    assert_eq!(app.db.records.len(), 1);
    assert_eq!(app.db.records[0].id, 1);
    let bytes = app.save();
    let again = TodoAppState::init(Some(&bytes)).unwrap();
    assert_eq!(again.db.records.len(), 1);
    assert_eq!(again.db.records[0].id, 1);
    assert_eq!(again.db.records[0].title, "Buy milk");
    assert!(again.db.records[0].completed);
    assert_eq!(again.db.records[0].created_at, app.db.records[0].created_at);
}

#[test]
fn load_without_file_gives_empty_store() {
    let db = TodoDb::load("no_such_file.csv", None).unwrap();
    assert!(db.records.is_empty());
    assert_eq!(db.path, "no_such_file.csv");
}

#[test]
fn save_then_load_keeps_records() {
    let db = store_with(vec![
        record(1, "plain", false, 0),
        record(7, "with, comma", true, -86400),
        record(-3, "with \"quotes\"\nand a newline", false, i64::MAX),
        record(i32::MAX, "", true, i64::MIN),
    ]);
    let bytes = db.save();
    let back = TodoDb::load("todos.csv", Some(&bytes)).unwrap();
    assert_eq!(back.records.len(), 4);
    for (a, b) in db.records.iter().zip(back.records.iter()) {
        assert_eq!(a.id, b.id);
        assert_eq!(a.title, b.title);
        assert_eq!(a.completed, b.completed);
        assert_eq!(a.created_at, b.created_at);
    }
}

#[test]
fn save_writes_header_and_rows() {
    let db = store_with(vec![record(1, "Buy milk", false, 100), record(2, "a,b", true, -5)]);
    let bytes = db.save();
    assert_eq!(
        String::from_utf8(bytes).unwrap(),
        "id,title,completed,created_at\n1,Buy milk,false,100\n2,\"a,b\",true,-5\n"
    );
}

#[test]
fn save_of_empty_store_is_header_only() {
    let db = TodoDb::new("todos.csv");
    let bytes = db.save();
    assert_eq!(String::from_utf8(bytes.clone()).unwrap(), "id,title,completed,created_at\n");
    let back = TodoDb::load("todos.csv", Some(&bytes)).unwrap();
    assert!(back.records.is_empty());
}

#[test]
fn load_of_empty_file_is_empty_store() {
    let back = TodoDb::load("todos.csv", Some(b"")).unwrap();
    assert!(back.records.is_empty());
}

#[test]
fn load_reads_given_rows() {
    let text = b"id,title,completed,created_at\n4,\"x, y\",true,+12\n9,z,false,-1\n";
    let db = TodoDb::load("f.csv", Some(text)).unwrap();
    assert_eq!(db.records.len(), 2);
    assert_eq!(db.records[0].id, 4);
    assert_eq!(db.records[0].title, "x, y");
    assert!(db.records[0].completed);
    assert_eq!(db.records[0].created_at, 12);
    assert_eq!(db.records[1].id, 9);
    assert_eq!(db.records[1].created_at, -1);
}

#[test]
fn load_refuses_wrong_header() {
    let text = b"id,name,completed,created_at\n1,a,false,0\n";
    assert_eq!(TodoDb::load("f.csv", Some(text)).err(), Some(LoadError::BadHeader));
}

#[test]
fn load_refuses_bad_row() {
    let text = b"id,title,completed,created_at\n1,a,false,0\n2,b,maybe,0\n";
    assert_eq!(TodoDb::load("f.csv", Some(text)).err(), Some(LoadError::BadRow(1)));
    let text = b"id,title,completed,created_at\n2147483648,b,true,0\n";
    assert_eq!(TodoDb::load("f.csv", Some(text)).err(), Some(LoadError::BadRow(0)));
}

#[test]
fn load_refuses_unreadable_bytes() {
    let text = b"id,title,completed,created_at\n1,a,false\n";
    assert_eq!(TodoDb::load("f.csv", Some(text)).err(), Some(LoadError::Unreadable));
    let text = b"\xff\xfe,title\n";
    assert_eq!(TodoDb::load("f.csv", Some(text)).err(), Some(LoadError::Unreadable));
}

#[test]
fn add_takes_one_above_largest_id() {
    let mut app = TodoAppState::init(None).unwrap();
    app.db.add(record(5, "a", false, 0));
    app.db.add(record(3, "b", false, 0));
    assert_eq!(app.add_at("c", 42), Some(6));
    assert_eq!(app.db.records[2].id, 6);
    assert_eq!(app.db.records[2].created_at, 42);
    assert!(!app.db.records[2].completed);
}

#[test]
fn add_to_empty_store_takes_one() {
    let mut app = TodoAppState::init(None).unwrap();
    assert_eq!(app.add_at("", 0), Some(1));
    assert_eq!(app.db.records[0].title, "");
}

#[test]
fn add_ids_stay_distinct() {
    let mut app = TodoAppState::init(None).unwrap();
    for i in 0..5 {
        app.add_at("t", i);
    }
    app.run_delete_todo_screen("5").unwrap();
    app.add_at("u", 9);
    let ids: Vec<i32> = app.db.records.iter().map(|r| r.id).collect();
    assert_eq!(ids, vec![1, 2, 3, 4, 5]);
}

#[test]
fn add_when_ids_used_up_adds_nothing() {
    let mut app = TodoAppState::init(None).unwrap();
    app.db.add(record(i32::MAX, "last", false, 0));
    assert_eq!(app.add_at("more", 0), None);
    assert_eq!(app.db.records.len(), 1);
}

#[test]
fn delete_present_and_absent() {
    let mut db = store_with(vec![record(1, "a", false, 0), record(2, "b", false, 0), record(3, "c", false, 0)]);
    assert!(db.remove_by_id(2));
    assert_eq!(db.records.len(), 2);
    assert_eq!(db.find_by_id(2), None);
    assert_eq!(db.records[1].id, 3);
    assert!(!db.remove_by_id(2));
    assert_eq!(db.records.len(), 2);
}

#[test]
fn complete_present_and_absent() {
    let mut db = store_with(vec![record(1, "a", false, 10), record(2, "b", false, 20)]);
    assert_eq!(db.mark_completed(2), Some(1));
    assert!(db.records[1].completed);
    assert_eq!(db.records[1].title, "b");
    assert_eq!(db.records[1].created_at, 20);
    assert!(!db.records[0].completed);
    assert_eq!(db.mark_completed(8), None);
    assert!(!db.records[0].completed);
}

#[test]
fn edit_screen_renames() {
    let mut app = TodoAppState::init(None).unwrap();
    app.add_at("old", 1);
    app.screen = AppScreen::EditTodo;
    assert_eq!(app.run_edit_todo_screen("1", "new"), Ok(Some(0)));
    assert_eq!(app.db.records[0].title, "new");
    assert_eq!(app.screen, AppScreen::Home);
    assert_eq!(app.run_edit_todo_screen("4", "x"), Ok(None));
    assert_eq!(app.db.records[0].title, "new");
}

#[test]
fn screens_refuse_text_that_is_no_id() {
    let mut app = TodoAppState::init(None).unwrap();
    app.add_at("a", 1);
    assert_eq!(app.run_delete_todo_screen("one"), Err(IdError::NotANumber));
    assert_eq!(app.run_complete_todo_screen(""), Err(IdError::NotANumber));
    assert_eq!(app.run_edit_todo_screen("-", "b"), Err(IdError::NotANumber));
    assert_eq!(app.run_delete_todo_screen("99999999999"), Err(IdError::NotANumber));
    assert_eq!(app.db.records.len(), 1);
    assert_eq!(app.db.records[0].title, "a");
    assert_eq!(app.run_delete_todo_screen("+1"), Ok(true));
}

#[test]
fn home_screen_commands() {
    let mut app = TodoAppState::init(None).unwrap();
    assert!(app.run_home_screen("ADD"));
    assert_eq!(app.screen, AppScreen::AddTodo);
    app.screen = AppScreen::Home;
    assert!(!app.run_home_screen("list"));
    assert_eq!(app.screen, AppScreen::Home);
    assert!(app.run_home_screen("Quit"));
    assert_eq!(app.screen, AppScreen::Exit);
    assert!(app.run_home_screen("edit"));
    assert_eq!(app.screen, AppScreen::EditTodo);
    assert!(app.run_home_screen("Delete"));
    assert_eq!(app.screen, AppScreen::DeleteTodo);
    assert!(app.run_home_screen("COMPLETE"));
    assert_eq!(app.screen, AppScreen::CompleteTodo);
}
