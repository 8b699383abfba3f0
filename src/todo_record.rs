//! One to-do item, and the line that shows it.
use vstd::prelude::*;
use crate::text::{int_text, push_decimal, string_of, chars_of};

verus! {

/// A to-do item as the contracts see it.
pub struct TodoItem {
    pub id: int,
    pub title: Seq<char>,
    pub completed: bool,
    pub created_at: int,
}

/// One to-do item: its identifier, title, completion flag and creation time
/// in seconds since the epoch.
pub struct TodoRecord {
    pub id: i32,
    pub title: String,
    pub completed: bool,
    pub created_at: i64,
}

impl View for TodoRecord {
    type V = TodoItem;

    open spec fn view(&self) -> TodoItem {
        TodoItem {
            id: self.id as int,
            title: self.title@,
            completed: self.completed,
            created_at: self.created_at as int,
        }
    }
}

/// Width of the identifier column, filled with zeros on the left.
pub const ID_WIDTH: usize = 3;

/// Width of the title column.
pub const TITLE_WIDTH: usize = 30;

/// The pattern of the creation time in a shown line.
pub const TIME_PATTERN: &'static str = "%Y-%m-%d %H:%M:%S";

/// `s`, with `c` put before it until it is `w` long.
pub open spec fn pad_left(s: Seq<char>, w: nat, c: char) -> Seq<char> {
    if s.len() >= w {
        s
    } else {
        Seq::new((w - s.len()) as nat, |_i: int| c) + s
    }
}

/// `s`, cut or filled with spaces on the right to be exactly `w` long.
pub open spec fn fit(s: Seq<char>, w: nat) -> Seq<char> {
    if s.len() >= w {
        s.subrange(0, w as int)
    } else {
        s + Seq::new((w - s.len()) as nat, |_i: int| ' ')
    }
}

/// `X` for a completed item, a space for an open one.
pub open spec fn flag_char(completed: bool) -> char {
    if completed {
        'X'
    } else {
        ' '
    }
}

/// The line that shows `r`, where `when` is the text of its creation time:
/// `[007][X] title padded to thirty - when`.
pub open spec fn line_text(r: TodoItem, when: Seq<char>) -> Seq<char> {
    seq!['['] + pad_left(int_text(r.id), ID_WIDTH as nat, '0') + seq![']', '[', flag_char(r.completed), ']', ' ']
        + fit(r.title, TITLE_WIDTH as nat) + seq![' ', '-', ' '] + when
}

/// Whether `line` shows `r`, with some text for its creation time.
pub open spec fn shows_line(r: TodoItem, line: Seq<char>) -> bool {
    exists|when: Seq<char>| line == #[trigger] line_text(r, when)
}

/// The earliest creation time, in seconds since the epoch, that can be
/// written as a date: 1 January 262144 BCE, 00:00:00 UTC.
pub const EARLIEST_SECS: i64 = -8334601228800;

/// The latest creation time, in seconds since the epoch, that can be written
/// as a date: 31 December 262142 CE, 23:59:59 UTC.
pub const LATEST_SECS: i64 = 8210266876799;

/// Whether a creation time can be written as a date.
pub open spec fn in_date_range(secs: int) -> bool {
    EARLIEST_SECS <= secs <= LATEST_SECS
}

/// Relies on chrono's `DateTime::from_timestamp`, `with_timezone(&Local)` and
/// `format`: the local time of `secs` seconds after the epoch in `pattern`.
/// `from_timestamp` gives `None` exactly outside `NaiveDateTime::MIN` to
/// `NaiveDateTime::MAX`, the bounds above. The text depends on the machine's
/// time zone, so nothing more is stated of it. Only `TIME_PATTERN` is
/// passed: chrono fails to write a pattern with an unknown directive.
#[verifier::external_body]
fn local_time_text(secs: i64, pattern: &str) -> (r: Option<String>)
    requires
        pattern@ == TIME_PATTERN@,
    ensures
        r is Some <==> in_date_range(secs as int),
{
    match chrono::DateTime::from_timestamp(secs, 0) {
        Some(t) => Some(t.with_timezone(&chrono::Local).format(pattern).to_string()),
        None => None,
    }
}

fn push_all(out: &mut Vec<char>, s: &Vec<char>)
    ensures
        final(out)@ == old(out)@ + s@,
{
    let mut i: usize = 0;
    while i < s.len()
        invariant
            i <= s@.len(),
            out@ == old(out)@ + s@.subrange(0, i as int),
        decreases s@.len() - i,
    {
        out.push(s[i]);
        i = i + 1;
        assert(s@.subrange(0, i as int) =~= s@.subrange(0, i - 1).push(s@[i - 1]));
    }
    assert(s@.subrange(0, s@.len() as int) =~= s@);
}

fn push_repeated(out: &mut Vec<char>, c: char, n: usize)
    ensures
        final(out)@ == old(out)@ + Seq::new(n as nat, |_i: int| c),
{
    let mut i: usize = 0;
    while i < n
        invariant
            i <= n,
            out@ == old(out)@ + Seq::new(i as nat, |_i: int| c),
        decreases n - i,
    {
        out.push(c);
        i = i + 1;
        assert(Seq::new(i as nat, |_i: int| c) =~= Seq::new((i - 1) as nat, |_i: int| c).push(c));
    }
}

fn push_padded_id(out: &mut Vec<char>, id: i32)
    ensures
        final(out)@ == old(out)@ + pad_left(int_text(id as int), ID_WIDTH as nat, '0'),
{
    let mut id_text: Vec<char> = Vec::new();
    push_decimal(&mut id_text, id as i64);
    assert(id_text@ =~= int_text(id as int));
    if id_text.len() < ID_WIDTH {
        push_repeated(out, '0', ID_WIDTH - id_text.len());
    }
    push_all(out, &id_text);
    assert(final(out)@ =~= old(out)@ + pad_left(int_text(id as int), ID_WIDTH as nat, '0'));
}

fn push_fitted(out: &mut Vec<char>, s: &str)
    ensures
        final(out)@ == old(out)@ + fit(s@, TITLE_WIDTH as nat),
{
    let title = chars_of(s);
    if title.len() >= TITLE_WIDTH {
        let mut i: usize = 0;
        while i < TITLE_WIDTH
            invariant
                i <= TITLE_WIDTH <= title@.len(),
                out@ == old(out)@ + title@.subrange(0, i as int),
            decreases TITLE_WIDTH - i,
        {
            out.push(title[i]);
            i = i + 1;
            assert(title@.subrange(0, i as int) =~= title@.subrange(0, i - 1).push(title@[i - 1]));
        }
    } else {
        push_all(out, &title);
        push_repeated(out, ' ', TITLE_WIDTH - title.len());
        assert(final(out)@ =~= old(out)@ + fit(s@, TITLE_WIDTH as nat));
    }
}

impl TodoRecord {
    /// The line that shows this record, given the text of its creation time.
    pub fn render_line(&self, when: &str) -> (r: String)
        ensures
            r@ == line_text(self@, when@),
    {
        let mut out: Vec<char> = Vec::new();
        out.push('[');
        push_padded_id(&mut out, self.id);
        out.push(']');
        out.push('[');
        out.push(if self.completed { 'X' } else { ' ' });
        out.push(']');
        out.push(' ');
        push_fitted(&mut out, self.title.as_str());
        out.push(' ');
        out.push('-');
        out.push(' ');
        let when_chars = chars_of(when);
        push_all(&mut out, &when_chars);
        assert(out@ =~= line_text(self@, when@));
        string_of(&out)
    }

    /// The line that shows this record, its creation time in local time;
    /// `None` exactly where that time cannot be written as a date.
    pub fn render(&self) -> (r: Option<String>)
        ensures
            r is Some <==> in_date_range(self.created_at as int),
            r matches Some(s) ==> shows_line(self@, s@),
    {
        match local_time_text(self.created_at, TIME_PATTERN) {
            Some(when) => Some(self.render_line(when.as_str())),
            None => None,
        }
    }
}

/// Showing a record depends on nothing but its fields and the text of its
/// creation time: two records that agree on both show the same line.
pub proof fn lemma_render_repeatable(a: TodoRecord, b: TodoRecord, when: Seq<char>)
    requires
        a@ == b@,
    ensures
        line_text(a@, when) == line_text(b@, when),
{
}

} // verus!
