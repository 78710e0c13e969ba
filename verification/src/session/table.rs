//! Tables of a database as values.

use vstd::prelude::*;

use crate::text::{chars_of, listed, lower, lowered, same, same_chars, texts};

verus! {

/// One value of a table.
#[verifier::ext_equal]
pub enum Cell {
    Null,
    Integer(int),
    /// A fractional number, by its bits.
    Real(u64),
    Text(Seq<char>),
    Blob(Seq<u8>),
}

/// One value of a table.
pub enum SqlValue {
    Null,
    Integer(i64),
    /// A fractional number, by its bits.
    Real(u64),
    Text(String),
    Blob(Vec<u8>),
}

impl View for SqlValue {
    type V = Cell;

    open spec fn view(&self) -> Cell {
        match *self {
            SqlValue::Null => Cell::Null,
            SqlValue::Integer(i) => Cell::Integer(i as int),
            SqlValue::Real(b) => Cell::Real(b),
            SqlValue::Text(s) => Cell::Text(s@),
            SqlValue::Blob(b) => Cell::Blob(b@),
        }
    }
}

impl SqlValue {
    /// A copy of this value.
    pub fn copy(&self) -> (r: SqlValue)
        ensures
            r@ == self@,
    {
        match self {
            SqlValue::Null => SqlValue::Null,
            SqlValue::Integer(i) => SqlValue::Integer(*i),
            SqlValue::Real(b) => SqlValue::Real(*b),
            SqlValue::Text(s) => SqlValue::Text(s.as_str().to_owned()),
            SqlValue::Blob(b) => {
                let mut c: Vec<u8> = Vec::new();
                let mut i: usize = 0;
                while i < b.len()
                    invariant
                        i <= b.len(),
                        c@ == b@.take(i as int),
                    decreases b.len() - i,
                {
                    assert(b@.take(i + 1) =~= b@.take(i as int).push(b@[i as int]));
                    c.push(b[i]);
                    i = i + 1;
                }
                assert(b@.take(b@.len() as int) =~= b@);
                SqlValue::Blob(c)
            },
        }
    }

    /// Whether this is the text `s`.
    pub fn is_text(&self, s: &str) -> (r: bool)
        ensures
            r == (self@ == Cell::Text(s@)),
    {
        match self {
            SqlValue::Text(t) => same(t.as_str(), s),
            _ => false,
        }
    }
}

/// The values of a row.
pub open spec fn cells(row: Seq<SqlValue>) -> Seq<Cell> {
    row.map_values(|v: SqlValue| v@)
}

/// What the database tells of a value, in the model.
#[verifier::ext_equal]
pub struct Told {
    pub column: int,
    pub text: Seq<char>,
    pub equal: bool,
}

/// What the database tells of a value: whether it takes the value in a column to equal a
/// text.
pub struct Answer {
    pub column: usize,
    pub text: String,
    pub equal: bool,
}

impl View for Answer {
    type V = Told;

    open spec fn view(&self) -> Told {
        Told { column: self.column as int, text: self.text@, equal: self.equal }
    }
}

impl Answer {
    /// A copy of this answer.
    pub fn copy(&self) -> (r: Answer)
        ensures
            r@ == self@,
    {
        Answer { column: self.column, text: self.text.as_str().to_owned(), equal: self.equal }
    }
}

/// What the database tells of values.
pub open spec fn answers(v: Seq<Answer>) -> Seq<Told> {
    v.map_values(|x: Answer| x@)
}

/// A row, in the model.
#[verifier::ext_equal]
pub struct Line {
    pub cells: Seq<Cell>,
    pub told: Seq<Told>,
}

/// A row: its values, and what the database tells of them. How a column compares with a
/// text depends on the type and the order that it was declared with, so the database is
/// asked; a value of which it tells nothing is compared as it is stored, as in a column
/// of texts with the usual order.
pub struct Row {
    pub values: Vec<SqlValue>,
    pub told: Vec<Answer>,
}

impl View for Row {
    type V = Line;

    open spec fn view(&self) -> Line {
        Line { cells: cells(self.values@), told: answers(self.told@) }
    }
}

/// A row of which the database tells nothing.
pub open spec fn plain(cells: Seq<Cell>) -> Line {
    Line { cells, told: Seq::empty() }
}

/// A table: the names of its columns, and its rows.
#[verifier::ext_equal]
pub struct Grid {
    pub columns: Seq<Seq<char>>,
    pub rows: Seq<Line>,
}

/// A table: the names of its columns, and its rows in the order in which they are
/// read.
pub struct Table {
    pub columns: Vec<String>,
    pub rows: Vec<Row>,
}

impl View for Table {
    type V = Grid;

    open spec fn view(&self) -> Grid {
        Grid { columns: texts(self.columns@), rows: self.rows@.map_values(|r: Row| r@) }
    }
}

/// Whether two names differ in the case of their ASCII letters at most. To a statement
/// these name the same column.
pub open spec fn alike(a: Seq<char>, b: Seq<char>) -> bool {
    lower(a) == lower(b)
}

/// The first position from `i` on of a name in `names` that is like `name`.
pub open spec fn index_from(names: Seq<Seq<char>>, name: Seq<char>, i: int) -> Option<int>
    decreases names.len() - i,
{
    if i < 0 || i >= names.len() {
        None
    } else if alike(names[i], name) {
        Some(i)
    } else {
        index_from(names, name, i + 1)
    }
}

/// The position of the column that a statement names `name`.
pub open spec fn column(names: Seq<Seq<char>>, name: Seq<char>) -> Option<int> {
    index_from(names, name, 0)
}

/// The position of the column `name`, if there is one with just this name.
pub open spec fn exact_column(names: Seq<Seq<char>>, name: Seq<char>) -> Option<int> {
    if names.contains(name) {
        column(names, name)
    } else {
        None
    }
}

/// The value of a row in the column `at`; a column that is not there holds nothing.
pub open spec fn cell(row: Line, at: Option<int>) -> Cell {
    match at {
        Some(i) => if 0 <= i < row.cells.len() {
            row.cells[i]
        } else {
            Cell::Null
        },
        None => Cell::Null,
    }
}

/// What is told of the column `column` and the text `text`; the last that is told
/// counts.
pub open spec fn answer(told: Seq<Told>, column: int, text: Seq<char>) -> Option<bool>
    decreases told.len(),
{
    if told.len() == 0 {
        None
    } else if told.last().column == column && told.last().text == text {
        Some(told.last().equal)
    } else {
        answer(told.drop_last(), column, text)
    }
}

/// Whether the value of a row in the column `at` equals the text `text`, to the
/// database. Nothing equals a text in a column that is not there.
pub open spec fn equals(row: Line, at: Option<int>, text: Seq<char>) -> bool {
    match at {
        Some(i) => match answer(row.told, i, text) {
            Some(b) => b,
            None => cell(row, at) == Cell::Text(text),
        },
        None => false,
    }
}

/// What is told of other columns than `column`.
pub open spec fn told_elsewhere(told: Seq<Told>, column: int) -> Seq<Told>
    decreases told.len(),
{
    if told.len() == 0 {
        Seq::empty()
    } else {
        let before = told_elsewhere(told.drop_last(), column);
        if told.last().column == column {
            before
        } else {
            before.push(told.last())
        }
    }
}

/// What is told once nothing more is told of one column.
pub proof fn lemma_told_elsewhere(told: Seq<Told>, column: int, at: int, text: Seq<char>)
    ensures
        answer(told_elsewhere(told, column), at, text) == if at == column {
            None
        } else {
            answer(told, at, text)
        },
    decreases told.len(),
{
    if told.len() > 0 {
        let before = told_elsewhere(told.drop_last(), column);
        lemma_told_elsewhere(told.drop_last(), column, at, text);
        if told.last().column != column {
            assert(before.push(told.last()).drop_last() =~= before);
        }
    }
}

/// Whether a list of names holds just `name`.
pub fn column_exists(names: &Vec<String>, name: &str) -> (r: bool)
    ensures
        r == texts(names@).contains(name@),
{
    listed(names, name)
}

/// Whether two names differ in the case of their ASCII letters at most.
pub fn is_alike(a: &str, b: &str) -> (r: bool)
    ensures
        r == alike(a@, b@),
{
    let x = lowered(&chars_of(a));
    let y = lowered(&chars_of(b));
    same_chars(&x, &y)
}

/// The position as a number of the model.
pub open spec fn place_of(at: Option<usize>) -> Option<int> {
    match at {
        Some(i) => Some(i as int),
        None => None,
    }
}

/// The position of the column that a statement names `name`.
pub fn find_column(names: &Vec<String>, name: &str) -> (r: Option<usize>)
    ensures
        place_of(r) == column(texts(names@), name@),
        r matches Some(i) ==> i < names@.len(),
{
    let mut i: usize = 0;
    while i < names.len()
        invariant
            i <= names.len(),
            column(texts(names@), name@) == index_from(texts(names@), name@, i as int),
        decreases names.len() - i,
    {
        assert(texts(names@)[i as int] == names@[i as int]@);
        if is_alike(names[i].as_str(), name) {
            return Some(i);
        }
        i = i + 1;
    }
    None
}

/// The position of the column `name`, if there is one with just this name.
pub fn find_exact(names: &Vec<String>, name: &str) -> (r: Option<usize>)
    ensures
        place_of(r) == exact_column(texts(names@), name@),
        r matches Some(i) ==> i < names@.len(),
{
    if column_exists(names, name) {
        find_column(names, name)
    } else {
        None
    }
}

/// The value of a row in the column `at`, if it has one.
pub fn value_at(row: &Row, at: Option<usize>) -> (r: Option<&SqlValue>)
    ensures
        cell(row@, place_of(at)) == match r {
            Some(v) => v@,
            None => Cell::Null,
        },
{
    match at {
        Some(i) => if i < row.values.len() {
            assert(row@.cells[i as int] == row.values@[i as int]@);
            Some(&row.values[i])
        } else {
            None
        },
        None => None,
    }
}

/// Whether the value of a row in the column `at` equals the text `text`, to the
/// database.
pub fn is_equal(row: &Row, at: Option<usize>, text: &str) -> (r: bool)
    ensures
        r == equals(row@, place_of(at), text@),
{
    let Some(k) = at else {
        return false;
    };
    let ghost told = row@.told;
    let mut i: usize = row.told.len();
    assert(told.take(told.len() as int) =~= told);
    while i > 0
        invariant
            i <= row.told@.len(),
            at == Some(k),
            told == row@.told,
            answer(told, k as int, text@) == answer(told.take(i as int), k as int, text@),
        ensures
            answer(told, k as int, text@) is None,
        decreases i,
    {
        let a = &row.told[i - 1];
        proof {
            assert(told.take(i as int).last() == a@);
            assert(told.take(i as int).drop_last() =~= told.take(i - 1));
        }
        if a.column == k && same(a.text.as_str(), text) {
            return a.equal;
        }
        i = i - 1;
    }
    match value_at(row, at) {
        Some(v) => v.is_text(text),
        None => false,
    }
}

/// What is told of other columns than `column`.
pub fn answers_elsewhere(told: &Vec<Answer>, column: usize) -> (r: Vec<Answer>)
    ensures
        answers(r@) == told_elsewhere(answers(told@), column as int),
{
    let ghost all = answers(told@);
    let mut out: Vec<Answer> = Vec::new();
    let mut i: usize = 0;
    assert(all.take(0) =~= Seq::<Told>::empty());
    assert(answers(out@) =~= Seq::<Told>::empty());
    while i < told.len()
        invariant
            i <= told.len(),
            all == answers(told@),
            answers(out@) == told_elsewhere(all.take(i as int), column as int),
        decreases told.len() - i,
    {
        let ghost before = out@;
        proof {
            assert(all.take(i + 1).drop_last() =~= all.take(i as int));
            assert(all.take(i + 1).last() == told@[i as int]@);
        }
        if told[i].column != column {
            let a = told[i].copy();
            out.push(a);
            assert(answers(out@) =~= answers(before).push(a@));
        }
        i = i + 1;
    }
    assert(all.take(told@.len() as int) =~= all);
    out
}

/// Whether a value is missing.
pub fn is_null(v: Option<&SqlValue>) -> (r: bool)
    ensures
        r == ((match v {
            Some(x) => x@,
            None => Cell::Null,
        }) == Cell::Null),
{
    match v {
        Some(x) => matches!(x, SqlValue::Null),
        None => true,
    }
}

/// Whether an account sees a session whose owner is in the column `at`: its own, and
/// those without an owner.
pub open spec fn visible(row: Line, at: Option<int>, uid: Seq<char>) -> bool {
    equals(row, at, uid) || equals(row, at, ""@) || cell(row, at) == Cell::Null
}

/// Whether an account sees a session whose owner is in the column `at`.
pub fn is_visible(row: &Row, at: Option<usize>, uid: &str) -> (r: bool)
    ensures
        r == visible(row@, place_of(at), uid@),
{
    is_equal(row, at, uid) || is_equal(row, at, "") || is_null(value_at(row, at))
}

} // verus!
