//! The application: a store, the screen it is on, and what each screen
//! does with the lines the user types.
use vstd::prelude::*;
use crate::text::{chars_of, parse_i32, text_is, value_within};
use crate::todo_db::{
    TodoDb, LoadError, load_outcome, csv_bytes_of, header_row, rows_of, max_id_of,
    ids_distinct, has_id, first_with_id, lemma_add_keeps_ids_distinct,
};
use crate::todo_record::{TodoItem, TodoRecord, shows_line, in_date_range};

verus! {

/// The screens of the application.
#[derive(PartialEq, Eq, Structural, Clone, Copy, Debug)]
pub enum AppScreen {
    Home,
    AddTodo,
    EditTodo,
    DeleteTodo,
    CompleteTodo,
    Exit,
}

/// Why an identifier typed by the user was not taken.
#[derive(PartialEq, Eq, Structural, Clone, Copy, Debug)]
pub enum IdError {
    /// The text is not a decimal number that fits an identifier.
    NotANumber,
}

/// The application state: the store and the current screen.
pub struct TodoAppState {
    pub db: TodoDb,
    pub screen: AppScreen,
}

/// `str::to_lowercase` of a text.
pub uninterp spec fn lower_of(s: Seq<char>) -> Seq<char>;

/// Relies on `str::to_lowercase`: the lower-case form of `s`, which depends
/// on its characters alone.
#[verifier::external_body]
fn lowercase(s: &str) -> (r: String)
    ensures
        r@ == lower_of(s@),
{
    s.to_lowercase()
}

/// Relies on chrono's `Local::now` and `DateTime::timestamp`: the current
/// time in seconds since the epoch. Nothing is known of its value.
#[verifier::external_body]
fn now_seconds() -> (r: i64) {
    chrono::Local::now().timestamp()
}

/// The screen that a command of the home screen leads to, the command
/// already in lower case.
pub open spec fn command_screen(s: Seq<char>) -> Option<AppScreen> {
    if s == "add"@ {
        Some(AppScreen::AddTodo)
    } else if s == "edit"@ {
        Some(AppScreen::EditTodo)
    } else if s == "delete"@ {
        Some(AppScreen::DeleteTodo)
    } else if s == "complete"@ {
        Some(AppScreen::CompleteTodo)
    } else if s == "quit"@ {
        Some(AppScreen::Exit)
    } else {
        None
    }
}

/// The screen that a lower-case command leads to; `None` for an unknown
/// command.
pub fn screen_for_command(lowered: &String) -> (r: Option<AppScreen>)
    ensures
        r == command_screen(lowered@),
{
    if text_is(lowered, "add") {
        Some(AppScreen::AddTodo)
    } else if text_is(lowered, "edit") {
        Some(AppScreen::EditTodo)
    } else if text_is(lowered, "delete") {
        Some(AppScreen::DeleteTodo)
    } else if text_is(lowered, "complete") {
        Some(AppScreen::CompleteTodo)
    } else if text_is(lowered, "quit") {
        Some(AppScreen::Exit)
    } else {
        None
    }
}

/// The identifier that the user's text `s` denotes.
pub open spec fn id_of_text(s: Seq<char>) -> Option<int> {
    value_within(s, i32::MIN as int, i32::MAX as int)
}

fn read_id(s: &str) -> (r: Result<i32, IdError>)
    ensures
        match r {
            Ok(id) => id_of_text(s@) == Some(id as int),
            Err(_) => id_of_text(s@) is None,
        },
{
    match parse_i32(&chars_of(s)) {
        Some(id) => Ok(id),
        None => Err(IdError::NotANumber),
    }
}

/// Whether adding a record titled `title` at time `created_at` to `before`
/// gives `after` and returns `r`: the new record takes the identifier one
/// above the largest, or 1 in an empty store, and is not completed. Where the
/// identifiers are used up nothing is added.
pub open spec fn added(
    before: Seq<TodoItem>,
    after: Seq<TodoItem>,
    title: Seq<char>,
    created_at: int,
    r: Option<i32>,
) -> bool {
    if max_id_of(before) < i32::MAX {
        r == Some((max_id_of(before) + 1) as i32) && after == before.push(
            TodoItem { id: max_id_of(before) + 1, title, completed: false, created_at },
        )
    } else {
        r is None && after == before
    }
}

/// The lines that show the store: a heading, then one line per record.
pub open spec fn shows(items: Seq<TodoItem>, lines: Seq<String>) -> bool {
    lines.len() == items.len() + 1 && lines[0]@ == "Todo Records:"@ && forall|i: int|
        0 <= i < items.len() ==> shows_line(items[i], #[trigger] lines[i + 1]@)
}

impl TodoAppState {
    /// The path the store is kept at.
    pub const FILE_PATH: &'static str = "todos.csv";

    /// The application on its home screen, with the store read from what
    /// the file holds (`None` where there is no file).
    pub fn init(contents: Option<&[u8]>) -> (r: Result<TodoAppState, LoadError>)
        ensures
            load_outcome(
                match contents {
                    Some(b) => Some(b@),
                    None => None,
                },
                match r {
                    Ok(app) => Ok(app.db.items()),
                    Err(e) => Err(e),
                },
            ),
            r matches Ok(app) ==> app.screen == AppScreen::Home && app.db.path@ == Self::FILE_PATH@,
    {
        match TodoDb::load(Self::FILE_PATH, contents) {
            Ok(db) => Ok(TodoAppState { db, screen: AppScreen::Home }),
            Err(e) => Err(e),
        }
    }

    /// The bytes to write to the store's file.
    pub fn save(&self) -> (r: Vec<u8>)
        ensures
            r@ == csv_bytes_of(seq![header_row()] + rows_of(self.db.items())),
    {
        self.db.save()
    }

    /// Adds an open record titled `title`, created at `created_at`, and
    /// returns its identifier.
    pub fn add_at(&mut self, title: &str, created_at: i64) -> (r: Option<i32>)
        ensures
            added(old(self).db.items(), final(self).db.items(), title@, created_at as int, r),
            ids_distinct(old(self).db.items()) ==> ids_distinct(final(self).db.items()),
            final(self).db.path == old(self).db.path,
            final(self).screen == old(self).screen,
    {
        let max_id = self.db.max_id();
        if max_id == i32::MAX {
            return None;
        }
        let id = max_id + 1;
        let record = TodoRecord { id, title: title.to_owned(), completed: false, created_at };
        proof {
            if ids_distinct(old(self).db.items()) {
                lemma_add_keeps_ids_distinct(old(self).db.items(), record@);
            }
        }
        self.db.add(record);
        Some(id)
    }

    /// Adds an open record titled `title`, created now, and returns its
    /// identifier.
    pub fn add(&mut self, title: &str) -> (r: Option<i32>)
        ensures
            exists|t: i64| added(old(self).db.items(), final(self).db.items(), title@, t as int, r),
            ids_distinct(old(self).db.items()) ==> ids_distinct(final(self).db.items()),
            final(self).db.path == old(self).db.path,
            final(self).screen == old(self).screen,
    {
        let now = now_seconds();
        self.add_at(title, now)
    }

    /// The lines that show the store; `None` exactly where a creation time
    /// cannot be written as a date.
    pub fn show_todos(db: &TodoDb) -> (r: Option<Vec<String>>)
        ensures
            r is Some <==> forall|i: int| 0 <= i < db.items().len() ==> in_date_range(#[trigger] db.items()[i].created_at),
            r matches Some(lines) ==> shows(db.items(), lines@),
    {
        let mut lines: Vec<String> = Vec::new();
        lines.push("Todo Records:".to_owned());
        let mut i: usize = 0;
        while i < db.records.len()
            invariant
                i <= db.records@.len(),
                lines@.len() == i + 1,
                lines@[0]@ == "Todo Records:"@,
                forall|k: int| 0 <= k < i ==> shows_line(db.items()[k], #[trigger] lines@[k + 1]@),
                forall|k: int| 0 <= k < i ==> in_date_range(#[trigger] db.items()[k].created_at),
            decreases db.records@.len() - i,
        {
            assert(db.items()[i as int] == db.records@[i as int]@);
            match db.records[i].render() {
                Some(line) => {
                    let ghost prev = lines@;
                    lines.push(line);
                    assert forall|k: int| 0 <= k < i + 1 implies shows_line(db.items()[k], #[trigger] lines@[k
                        + 1]@) by {
                        if k < i {
                            assert(lines@[k + 1] == prev[k + 1]);
                        }
                    }
                },
                None => {
                    assert(!in_date_range(db.items()[i as int].created_at));
                    return None;
                },
            }
            i = i + 1;
        }
        Some(lines)
    }

    /// The home screen, given the command the user typed: a known command
    /// (in any case) moves to its screen and gives `true`; another leaves
    /// the screen as it is and gives `false`.
    pub fn run_home_screen(&mut self, command: &str) -> (r: bool)
        ensures
            r == command_screen(lower_of(command@)) is Some,
            r ==> final(self).screen == command_screen(lower_of(command@))->0,
            !r ==> final(self).screen == old(self).screen,
            final(self).db == old(self).db,
    {
        let lowered = lowercase(command);
        match screen_for_command(&lowered) {
            Some(screen) => {
                self.screen = screen;
                true
            },
            None => false,
        }
    }

    /// The add screen, given the title the user typed: adds the record and
    /// goes home.
    pub fn run_add_todo_screen(&mut self, title: &str) -> (r: Option<i32>)
        ensures
            exists|t: i64| added(old(self).db.items(), final(self).db.items(), title@, t as int, r),
            final(self).db.path == old(self).db.path,
            final(self).screen == AppScreen::Home,
    {
        let r = self.add(title);
        let ghost mid = self.db.items();
        assert(exists|t: i64| added(old(self).db.items(), mid, title@, t as int, r));
        self.screen = AppScreen::Home;
        assert(self.db.items() == mid);
        r
    }

    /// The edit screen, given the identifier and the new title the user
    /// typed: renames the first record with that identifier, if any, returns
    /// its position, and goes home. Text that is no identifier changes
    /// nothing.
    pub fn run_edit_todo_screen(&mut self, id_text: &str, title: &str) -> (r: Result<Option<usize>, IdError>)
        ensures
            final(self).screen == AppScreen::Home,
            final(self).db.path == old(self).db.path,
            match r {
                Err(_) => id_of_text(id_text@) is None && final(self).db.items() == old(self).db.items(),
                Ok(Some(i)) => id_of_text(id_text@) matches Some(id) && first_with_id(old(self).db.items(), id, i as int)
                    && final(self).db.items() == old(self).db.items().update(
                    i as int,
                    TodoItem { title: title@, ..old(self).db.items()[i as int] },
                ),
                Ok(None) => id_of_text(id_text@) matches Some(id) && !has_id(old(self).db.items(), id)
                    && final(self).db.items() == old(self).db.items(),
            },
    {
        self.screen = AppScreen::Home;
        let id = match read_id(id_text) {
            Ok(id) => id,
            Err(e) => return Err(e),
        };
        Ok(self.db.set_title(id, title.to_owned()))
    }

    /// The delete screen, given the identifier the user typed: removes the
    /// first record with it, says whether there was one, and goes home. Text
    /// that is no identifier changes nothing.
    pub fn run_delete_todo_screen(&mut self, id_text: &str) -> (r: Result<bool, IdError>)
        ensures
            final(self).screen == AppScreen::Home,
            final(self).db.path == old(self).db.path,
            match r {
                Err(_) => id_of_text(id_text@) is None && final(self).db.items() == old(self).db.items(),
                Ok(true) => id_of_text(id_text@) matches Some(id) && exists|i: int|
                    first_with_id(old(self).db.items(), id, i) && final(self).db.items() == old(
                        self,
                    ).db.items().remove(i),
                Ok(false) => id_of_text(id_text@) matches Some(id) && !has_id(old(self).db.items(), id)
                    && final(self).db.items() == old(self).db.items(),
            },
    {
        self.screen = AppScreen::Home;
        let id = match read_id(id_text) {
            Ok(id) => id,
            Err(e) => return Err(e),
        };
        Ok(self.db.remove_by_id(id))
    }

    /// The complete screen, given the identifier the user typed: marks the
    /// first record with it completed, returns its position, and goes home.
    /// Text that is no identifier changes nothing.
    pub fn run_complete_todo_screen(&mut self, id_text: &str) -> (r: Result<Option<usize>, IdError>)
        ensures
            final(self).screen == AppScreen::Home,
            final(self).db.path == old(self).db.path,
            match r {
                Err(_) => id_of_text(id_text@) is None && final(self).db.items() == old(self).db.items(),
                Ok(Some(i)) => id_of_text(id_text@) matches Some(id) && first_with_id(old(self).db.items(), id, i as int)
                    && final(self).db.items() == old(self).db.items().update(
                    i as int,
                    TodoItem { completed: true, ..old(self).db.items()[i as int] },
                ),
                Ok(None) => id_of_text(id_text@) matches Some(id) && !has_id(old(self).db.items(), id)
                    && final(self).db.items() == old(self).db.items(),
            },
    {
        self.screen = AppScreen::Home;
        let id = match read_id(id_text) {
            Ok(id) => id,
            Err(e) => return Err(e),
        };
        Ok(self.db.mark_completed(id))
    }
}

} // verus!
