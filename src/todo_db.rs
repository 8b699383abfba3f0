//! The store: the records in order, the path they are kept at, and their
//! form in the csv file.
use vstd::prelude::*;
use crate::text::{
    int_text, push_decimal, string_of, parse_i32, parse_i64, chars_of, value_within, text_is,
    lemma_int_text_round_trip,
};
use crate::todo_record::{TodoItem, TodoRecord};

verus! {

#[verifier::external_type_specification]
#[verifier::external_body]
pub struct ExCsvError(csv::Error);

/// What the csv crate writes for `rows`, the first of them the header.
pub uninterp spec fn csv_bytes_of(rows: Seq<Seq<Seq<char>>>) -> Seq<u8>;

/// What the csv crate reads from `bytes`: the header and the rows after it,
/// or `None` where they are not well-formed csv.
pub uninterp spec fn csv_table_of(bytes: Seq<u8>) -> Option<(Seq<Seq<char>>, Seq<Seq<Seq<char>>>)>;

/// Relies on csv's `Writer::from_writer`, `Writer::write_record` and
/// `Writer::into_inner`: the csv text of `rows`, one record per row. Writing
/// into a `Vec` fails only where rows differ in length (`UnequalLengths`).
#[verifier::external_body]
fn write_csv(rows: &Vec<Vec<String>>) -> (r: Result<Vec<u8>, csv::Error>)
    ensures
        r matches Ok(b) ==> b@ == csv_bytes_of(rows.deep_view()),
        (forall|i: int| 0 <= i < rows.deep_view().len() ==> #[trigger] rows.deep_view()[i].len()
            == rows.deep_view()[0].len()) ==> r is Ok,
{
    let mut writer = csv::Writer::from_writer(Vec::new());
    for row in rows {
        writer.write_record(row)?;
    }
    writer.into_inner().map_err(|e| csv::Error::from(e.into_error()))
}

/// Relies on csv's `Reader::from_reader`, `Reader::headers` and
/// `Reader::records`: the header and the rows of the csv text `bytes`.
#[verifier::external_body]
fn read_csv(bytes: &[u8]) -> (r: Result<(Vec<String>, Vec<Vec<String>>), csv::Error>)
    ensures
        match r {
            Ok(t) => csv_table_of(bytes@) == Some((t.0.deep_view(), t.1.deep_view())),
            Err(_) => csv_table_of(bytes@) is None,
        },
{
    let mut reader = csv::Reader::from_reader(bytes);
    let header = reader.headers()?.iter().map(|f| f.to_string()).collect();
    let mut rows = Vec::new();
    for record in reader.records() {
        rows.push(record?.iter().map(|f| f.to_string()).collect());
    }
    Ok((header, rows))
}

/// Why a stored file could not be read back.
#[derive(PartialEq, Eq, Structural, Clone, Copy, Debug)]
pub enum LoadError {
    /// The bytes are not well-formed csv.
    Unreadable,
    /// The header does not name the four fields in order.
    BadHeader,
    /// The row at this position, counted from zero after the header, does
    /// not hold a record.
    BadRow(usize),
}

/// The header of the file: the names of the four fields, in order.
pub open spec fn header_row() -> Seq<Seq<char>> {
    seq!["id"@, "title"@, "completed"@, "created_at"@]
}

/// The text of a flag.
pub open spec fn bool_text(b: bool) -> Seq<char> {
    if b {
        "true"@
    } else {
        "false"@
    }
}

/// The flag that a text denotes.
pub open spec fn bool_of(s: Seq<char>) -> Option<bool> {
    if s == "true"@ {
        Some(true)
    } else if s == "false"@ {
        Some(false)
    } else {
        None
    }
}

/// The row that holds an item.
pub open spec fn row_of(r: TodoItem) -> Seq<Seq<char>> {
    seq![int_text(r.id), r.title, bool_text(r.completed), int_text(r.created_at)]
}

/// The rows that hold `items`, in order, after the header.
pub open spec fn rows_of(items: Seq<TodoItem>) -> Seq<Seq<Seq<char>>> {
    items.map_values(|r: TodoItem| row_of(r))
}

/// The item that a row holds: four fields, an `i32`, any text, `true` or
/// `false`, and an `i64`.
pub open spec fn item_of_row(row: Seq<Seq<char>>) -> Option<TodoItem> {
    if row.len() == 4 && value_within(row[0], i32::MIN as int, i32::MAX as int) is Some
        && bool_of(row[2]) is Some && value_within(row[3], i64::MIN as int, i64::MAX as int) is Some {
        Some(
            TodoItem {
                id: value_within(row[0], i32::MIN as int, i32::MAX as int)->0,
                title: row[1],
                completed: bool_of(row[2])->0,
                created_at: value_within(row[3], i64::MIN as int, i64::MAX as int)->0,
            },
        )
    } else {
        None
    }
}

/// Whether a header is acceptable: the four names in order, or nothing at
/// all in an empty file.
pub open spec fn header_fits(header: Seq<Seq<char>>, rows: Seq<Seq<Seq<char>>>) -> bool {
    header == header_row() || (header.len() == 0 && rows.len() == 0)
}

/// Whether reading the header and rows of a file gives `r`: the items of all
/// rows, or the first fault.
pub open spec fn decodes_to(
    header: Seq<Seq<char>>,
    rows: Seq<Seq<Seq<char>>>,
    r: Result<Seq<TodoItem>, LoadError>,
) -> bool {
    match r {
        Ok(items) => header_fits(header, rows) && items.len() == rows.len() && forall|i: int|
            0 <= i < rows.len() ==> item_of_row(#[trigger] rows[i]) == Some(items[i]),
        Err(LoadError::BadHeader) => !header_fits(header, rows),
        Err(LoadError::BadRow(i)) => header_fits(header, rows) && i < rows.len() && item_of_row(
            rows[i as int],
        ) is None && forall|j: int| 0 <= j < i ==> item_of_row(#[trigger] rows[j]) is Some,
        Err(LoadError::Unreadable) => false,
    }
}

/// Whether loading a store from `contents` (`None` where there is no file)
/// gives `r`: no file gives no items, bytes that are not csv are refused,
/// and otherwise their header and rows are read.
pub open spec fn load_outcome(contents: Option<Seq<u8>>, r: Result<Seq<TodoItem>, LoadError>) -> bool {
    match contents {
        None => r == Ok::<Seq<TodoItem>, LoadError>(Seq::empty()),
        Some(b) => match csv_table_of(b) {
            None => r == Err::<Seq<TodoItem>, LoadError>(LoadError::Unreadable),
            Some(t) => decodes_to(t.0, t.1, r),
        },
    }
}

/// The items of a sequence of records.
pub open spec fn items_of(records: Seq<TodoRecord>) -> Seq<TodoItem> {
    records.map_values(|r: TodoRecord| r@)
}

/// Whether some item of `items` has identifier `id`.
pub open spec fn has_id(items: Seq<TodoItem>, id: int) -> bool {
    exists|i: int| 0 <= i < items.len() && #[trigger] items[i].id == id
}

/// `i` is the first position in `items` of an item with identifier `id`.
pub open spec fn first_with_id(items: Seq<TodoItem>, id: int, i: int) -> bool {
    0 <= i < items.len() && items[i].id == id && forall|j: int| 0 <= j < i ==> #[trigger] items[j].id != id
}

/// No two items share an identifier.
pub open spec fn ids_distinct(items: Seq<TodoItem>) -> bool {
    forall|i: int, j: int| 0 <= i < items.len() && 0 <= j < items.len() && i != j ==> #[trigger] items[i].id
        != #[trigger] items[j].id
}

/// The largest identifier in `items`, or 0 where there is none.
pub open spec fn max_id_of(items: Seq<TodoItem>) -> int
    decreases items.len(),
{
    if items.len() == 0 {
        0
    } else if items.len() == 1 {
        items[0].id
    } else if items.last().id > max_id_of(items.drop_last()) {
        items.last().id
    } else {
        max_id_of(items.drop_last())
    }
}

/// No identifier in `items` is larger than their maximum.
pub proof fn lemma_max_id_bounds(items: Seq<TodoItem>)
    ensures
        forall|i: int| 0 <= i < items.len() ==> #[trigger] items[i].id <= max_id_of(items),
        items.len() > 0 ==> has_id(items, max_id_of(items)),
    decreases items.len(),
{
    if items.len() > 1 {
        lemma_max_id_bounds(items.drop_last());
        assert forall|i: int| 0 <= i < items.len() implies #[trigger] items[i].id <= max_id_of(items) by {
            if i < items.len() - 1 {
                assert(items[i] == items.drop_last()[i]);
            }
        }
        if items.last().id <= max_id_of(items.drop_last()) {
            let k = choose|k: int| 0 <= k < items.drop_last().len() && #[trigger] items.drop_last()[k].id
                == max_id_of(items.drop_last());
            assert(items[k] == items.drop_last()[k]);
        } else {
            assert(items[items.len() - 1].id == max_id_of(items));
        }
    } else if items.len() == 1 {
        assert(items[0].id == max_id_of(items));
    }
}

/// Adding an item whose identifier is one more than the largest keeps the
/// identifiers pairwise distinct.
pub proof fn lemma_add_keeps_ids_distinct(items: Seq<TodoItem>, item: TodoItem)
    requires
        ids_distinct(items),
        item.id == max_id_of(items) + 1,
    ensures
        ids_distinct(items.push(item)),
        !has_id(items, item.id),
{
    lemma_max_id_bounds(items);
    let s = items.push(item);
    assert forall|i: int, j: int| 0 <= i < s.len() && 0 <= j < s.len() && i != j implies #[trigger] s[i].id
        != #[trigger] s[j].id by {
        if i < items.len() && j < items.len() {
            assert(s[i] == items[i] && s[j] == items[j]);
        } else if i < items.len() {
            assert(s[i] == items[i]);
        } else {
            assert(s[j] == items[j]);
        }
    }
}

/// Removing the item with a present identifier, where identifiers are
/// distinct, leaves one item fewer and none with that identifier.
pub proof fn lemma_remove_present(items: Seq<TodoItem>, id: int, i: int)
    requires
        ids_distinct(items),
        first_with_id(items, id, i),
    ensures
        items.remove(i).len() == items.len() - 1,
        !has_id(items.remove(i), id),
{
    let s = items.remove(i);
    if has_id(s, id) {
        let k = choose|k: int| 0 <= k < s.len() && #[trigger] s[k].id == id;
        if k < i {
            assert(s[k] == items[k]);
        } else {
            assert(s[k] == items[k + 1]);
        }
    }
}

/// The rows that saving a store writes after its header read back as that
/// store's items, the header included: nothing is lost between the records
/// and their rows.
pub proof fn lemma_rows_round_trip(db: TodoDb)
    ensures
        decodes_to(header_row(), rows_of(db.items()), Ok(db.items())),
{
    let items = db.items();
    let rows = rows_of(items);
    assert forall|i: int| 0 <= i < rows.len() implies item_of_row(#[trigger] rows[i]) == Some(items[i]) by {
        let it = items[i];
        assert(it == db.records@[i]@);
        lemma_int_text_round_trip(it.id);
        lemma_int_text_round_trip(it.created_at);
        reveal_strlit("true");
        reveal_strlit("false");
        assert("true"@.len() == 4 && "false"@.len() == 5);
        assert(bool_of(bool_text(it.completed)) == Some(it.completed));
        assert(rows[i] == row_of(it));
    }
}

/// Bytes that the csv crate reads as the header and rows that saving `db`
/// writes can only load as `db`'s items, in order: the one outcome that
/// loading allows on them.
pub proof fn lemma_load_of_saved_rows(db: TodoDb, bytes: Seq<u8>, r: Result<Seq<TodoItem>, LoadError>)
    requires
        csv_table_of(bytes) == Some((header_row(), rows_of(db.items()))),
        load_outcome(Some(bytes), r),
    ensures
        r == Ok::<Seq<TodoItem>, LoadError>(db.items()),
{
    lemma_rows_round_trip(db);
    let items = db.items();
    let rows = rows_of(items);
    match r {
        Ok(got) => {
            assert forall|i: int| 0 <= i < items.len() implies got[i] == items[i] by {
                assert(item_of_row(rows[i]) == Some(got[i]));
                assert(item_of_row(rows[i]) == Some(items[i]));
            }
            assert(got =~= items);
        },
        Err(LoadError::BadRow(i)) => {
            assert(item_of_row(rows[i as int]) == Some(items[i as int]));
        },
        Err(_) => {},
    }
}

/// The store: records in insertion order, and the path they belong to.
pub struct TodoDb {
    pub records: Vec<TodoRecord>,
    pub path: String,
}

fn decimal_string(n: i64) -> (r: String)
    ensures
        r@ == int_text(n as int),
{
    let mut cs: Vec<char> = Vec::new();
    push_decimal(&mut cs, n);
    assert(cs@ =~= int_text(n as int));
    string_of(&cs)
}

fn header_strings() -> (r: Vec<String>)
    ensures
        r.deep_view() == header_row(),
{
    let r = vec!["id".to_owned(), "title".to_owned(), "completed".to_owned(), "created_at".to_owned()];
    assert(r.deep_view() =~= header_row());
    r
}

fn row_strings(rec: &TodoRecord) -> (r: Vec<String>)
    ensures
        r.deep_view() == row_of(rec@),
{
    let flag = if rec.completed {
        "true".to_owned()
    } else {
        "false".to_owned()
    };
    let r = vec![decimal_string(rec.id as i64), rec.title.clone(), flag, decimal_string(rec.created_at)];
    assert(r.deep_view() =~= row_of(rec@));
    r
}

fn flag_of(s: &String) -> (r: Option<bool>)
    ensures
        r == bool_of(s@),
{
    if text_is(s, "true") {
        Some(true)
    } else if text_is(s, "false") {
        Some(false)
    } else {
        None
    }
}

fn record_of_row(row: &Vec<String>) -> (r: Option<TodoRecord>)
    ensures
        match r {
            Some(rec) => item_of_row(row.deep_view()) == Some(rec@),
            None => item_of_row(row.deep_view()) is None,
        },
{
    if row.len() != 4 {
        return None;
    }
    let ghost v = row.deep_view();
    assert(v[0] == row@[0]@ && v[1] == row@[1]@ && v[2] == row@[2]@ && v[3] == row@[3]@);
    let id = parse_i32(&chars_of(row[0].as_str()));
    let completed = flag_of(&row[2]);
    let created_at = parse_i64(&chars_of(row[3].as_str()));
    match (id, completed, created_at) {
        (Some(id), Some(completed), Some(created_at)) => Some(
            TodoRecord { id, title: row[1].clone(), completed, created_at },
        ),
        _ => None,
    }
}

fn header_matches(header: &Vec<String>) -> (r: bool)
    ensures
        r == (header.deep_view() == header_row()),
{
    let ghost v = header.deep_view();
    if header.len() != 4 {
        assert(v.len() != header_row().len());
        return false;
    }
    assert(v[0] == header@[0]@ && v[1] == header@[1]@ && v[2] == header@[2]@ && v[3] == header@[3]@);
    let ok = text_is(&header[0], "id") && text_is(&header[1], "title") && text_is(&header[2], "completed")
        && text_is(&header[3], "created_at");
    if ok {
        assert(v =~= header_row());
    } else {
        assert(v != header_row()) by {
            if v == header_row() {
                assert(v[0] == header_row()[0]);
                assert(v[1] == header_row()[1]);
                assert(v[2] == header_row()[2]);
                assert(v[3] == header_row()[3]);
            }
        }
    }
    ok
}

/// Reads the records out of a file's header and rows: all of them, or the
/// first fault.
pub fn decode_rows(header: &Vec<String>, rows: &Vec<Vec<String>>) -> (r: Result<Vec<TodoRecord>, LoadError>)
    ensures
        match r {
            Ok(v) => decodes_to(header.deep_view(), rows.deep_view(), Ok(items_of(v@))),
            Err(e) => decodes_to(header.deep_view(), rows.deep_view(), Err(e)),
        },
{
    if !(header_matches(header) || (header.len() == 0 && rows.len() == 0)) {
        assert(!header_fits(header.deep_view(), rows.deep_view()));
        return Err(LoadError::BadHeader);
    }
    let ghost rv = rows.deep_view();
    let mut out: Vec<TodoRecord> = Vec::new();
    let mut i: usize = 0;
    while i < rows.len()
        invariant
            i <= rows@.len(),
            rv == rows.deep_view(),
            header_fits(header.deep_view(), rv),
            out@.len() == i,
            forall|j: int| 0 <= j < i ==> item_of_row(#[trigger] rv[j]) == Some(out@[j]@),
        decreases rows@.len() - i,
    {
        assert(rv[i as int] == rows@[i as int].deep_view());
        match record_of_row(&rows[i]) {
            Some(rec) => {
                out.push(rec);
            },
            None => {
                return Err(LoadError::BadRow(i));
            },
        }
        i = i + 1;
    }
    assert(items_of(out@).len() == rv.len());
    assert forall|j: int| 0 <= j < rv.len() implies item_of_row(#[trigger] rv[j]) == Some(items_of(out@)[j]) by {
        assert(items_of(out@)[j] == out@[j]@);
    }
    Ok(out)
}

impl TodoDb {
    /// The items of the store, in order.
    pub open spec fn items(&self) -> Seq<TodoItem> {
        items_of(self.records@)
    }

    /// An empty store bound to `path`.
    pub fn new(path: &str) -> (r: TodoDb)
        ensures
            r.items() == Seq::<TodoItem>::empty(),
            r.path@ == path@,
    {
        let r = TodoDb { records: Vec::new(), path: path.to_owned() };
        assert(r.items() =~= Seq::<TodoItem>::empty());
        r
    }

    /// The store bound to `path`, given what the file there holds: `None`
    /// where there is no such file, which gives an empty store.
    pub fn load(path: &str, contents: Option<&[u8]>) -> (r: Result<TodoDb, LoadError>)
        ensures
            load_outcome(
                match contents {
                    Some(b) => Some(b@),
                    None => None,
                },
                match r {
                    Ok(db) => Ok(db.items()),
                    Err(e) => Err(e),
                },
            ),
            r matches Ok(db) ==> db.path@ == path@,
    {
        match contents {
            None => Ok(TodoDb::new(path)),
            Some(b) => match read_csv(b) {
                Err(_) => Err(LoadError::Unreadable),
                Ok(table) => {
                    let (header, rows) = table;
                    match decode_rows(&header, &rows) {
                        Ok(records) => Ok(TodoDb { records, path: path.to_owned() }),
                        Err(e) => Err(e),
                    }
                },
            },
        }
    }

    /// The rows of the file that holds this store: the header, then one row
    /// per record in order.
    pub fn rows(&self) -> (r: Vec<Vec<String>>)
        ensures
            r.deep_view() == seq![header_row()] + rows_of(self.items()),
    {
        let mut r: Vec<Vec<String>> = Vec::new();
        r.push(header_strings());
        let mut i: usize = 0;
        while i < self.records.len()
            invariant
                i <= self.records@.len(),
                r.deep_view() == seq![header_row()] + rows_of(self.items().subrange(0, i as int)),
            decreases self.records@.len() - i,
        {
            let row = row_strings(&self.records[i]);
            let ghost before = r@;
            let ghost before_view = r.deep_view();
            let ghost row_view = row.deep_view();
            r.push(row);
            assert(self.items()[i as int] == self.records@[i as int]@);
            assert(rows_of(self.items().subrange(0, i + 1)) =~= rows_of(self.items().subrange(0, i as int)).push(
                row_of(self.items()[i as int]),
            ));
            assert(r.deep_view() =~= before_view.push(row_view)) by {
                assert forall|k: int| 0 <= k < r@.len() implies #[trigger] r.deep_view()[k] == before_view.push(
                    row_view,
                )[k] by {
                    if k < before.len() {
                        assert(r@[k] == before[k]);
                    }
                }
            }
            i = i + 1;
            assert(r.deep_view() =~= seq![header_row()] + rows_of(self.items().subrange(0, i as int)));
        }
        assert(self.items().subrange(0, i as int) =~= self.items());
        r
    }

    /// The bytes of the file that holds this store.
    pub fn save(&self) -> (r: Vec<u8>)
        ensures
            r@ == csv_bytes_of(seq![header_row()] + rows_of(self.items())),
    {
        let rows = self.rows();
        let ghost v = rows.deep_view();
        assert forall|i: int| 0 <= i < v.len() implies #[trigger] v[i].len() == v[0].len() by {
            assert(v[0] == header_row());
            if i > 0 {
                assert(v[i] == row_of(self.items()[i - 1]));
            }
        }
        match write_csv(&rows) {
            Ok(b) => b,
            Err(_) => {
                assert(false);
                Vec::new()
            },
        }
    }

    /// Appends a record at the end.
    pub fn add(&mut self, record: TodoRecord)
        ensures
            final(self).items() == old(self).items().push(record@),
            final(self).path == old(self).path,
    {
        let ghost rv = record@;
        self.records.push(record);
        assert(final(self).items() =~= old(self).items().push(rv));
    }

    /// The position of the first record with identifier `id`.
    pub fn find_by_id(&self, id: i32) -> (r: Option<usize>)
        ensures
            match r {
                Some(i) => first_with_id(self.items(), id as int, i as int),
                None => !has_id(self.items(), id as int),
            },
    {
        let mut i: usize = 0;
        while i < self.records.len()
            invariant
                i <= self.records@.len(),
                forall|j: int| 0 <= j < i ==> #[trigger] self.items()[j].id != id as int,
            decreases self.records@.len() - i,
        {
            assert(self.items()[i as int] == self.records@[i as int]@);
            if self.records[i].id == id {
                return Some(i);
            }
            i = i + 1;
        }
        None
    }

    /// The largest identifier in the store, or 0 where it is empty.
    pub fn max_id(&self) -> (r: i32)
        ensures
            r as int == max_id_of(self.items()),
    {
        let ghost items = self.items();
        if self.records.len() == 0 {
            return 0;
        }
        let mut m: i32 = self.records[0].id;
        let mut i: usize = 1;
        assert(items.subrange(0, 1).drop_last() =~= Seq::<TodoItem>::empty());
        while i < self.records.len()
            invariant
                1 <= i <= self.records@.len(),
                items == self.items(),
                m as int == max_id_of(items.subrange(0, i as int)),
            decreases self.records@.len() - i,
        {
            assert(items.subrange(0, i + 1).drop_last() =~= items.subrange(0, i as int));
            assert(items[i as int] == self.records@[i as int]@);
            if self.records[i].id > m {
                m = self.records[i].id;
            }
            i = i + 1;
        }
        assert(items.subrange(0, i as int) =~= items);
        m
    }

    /// Removes the first record with identifier `id`, and says whether there
    /// was one.
    pub fn remove_by_id(&mut self, id: i32) -> (r: bool)
        ensures
            r == has_id(old(self).items(), id as int),
            r ==> exists|i: int|
                first_with_id(old(self).items(), id as int, i) && final(self).items() == old(self).items().remove(i),
            !r ==> final(self).items() == old(self).items(),
            final(self).path == old(self).path,
    {
        match self.find_by_id(id) {
            Some(i) => {
                self.records.remove(i);
                assert(final(self).items() =~= old(self).items().remove(i as int));
                true
            },
            None => false,
        }
    }

    /// Gives the first record with identifier `id` the title `title`, and
    /// returns its position.
    pub fn set_title(&mut self, id: i32, title: String) -> (r: Option<usize>)
        ensures
            match r {
                Some(i) => first_with_id(old(self).items(), id as int, i as int) && final(self).items()
                    == old(self).items().update(i as int, TodoItem { title: title@, ..old(self).items()[i as int] }),
                None => !has_id(old(self).items(), id as int) && final(self).items() == old(self).items(),
            },
            final(self).path == old(self).path,
    {
        match self.find_by_id(id) {
            Some(i) => {
                let ghost tv = title@;
                let mut rec = self.records.remove(i);
                rec.title = title;
                self.records.insert(i, rec);
                assert(final(self).items() =~= old(self).items().update(
                    i as int,
                    TodoItem { title: tv, ..old(self).items()[i as int] },
                ));
                Some(i)
            },
            None => None,
        }
    }

    /// Marks the first record with identifier `id` completed, and returns
    /// its position.
    pub fn mark_completed(&mut self, id: i32) -> (r: Option<usize>)
        ensures
            match r {
                Some(i) => first_with_id(old(self).items(), id as int, i as int) && final(self).items()
                    == old(self).items().update(i as int, TodoItem { completed: true, ..old(self).items()[i as int] }),
                None => !has_id(old(self).items(), id as int) && final(self).items() == old(self).items(),
            },
            final(self).path == old(self).path,
    {
        match self.find_by_id(id) {
            Some(i) => {
                let mut rec = self.records.remove(i);
                rec.completed = true;
                self.records.insert(i, rec);
                assert(final(self).items() =~= old(self).items().update(
                    i as int,
                    TodoItem { completed: true, ..old(self).items()[i as int] },
                ));
                Some(i)
            },
            None => None,
        }
    }
}

} // verus!
