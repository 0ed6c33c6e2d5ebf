//! Result handles: what a statement answers with, row by row.
use std::collections::VecDeque;

use vstd::prelude::*;

use crate::bits::{bits, Bits};
use crate::database::error::Error;
use crate::execution::error::ExecError;
use crate::execution::operators::{columns_cover, compact_rows, visible_rows, RowModel};
use crate::scalar::{datums_model, duplicate_datums, Datum, ScalarValue};

verus! {

/// A row of a query result.
pub type Row = Vec<Datum>;

/// The rows and column names that a statement answers with.
pub trait ResultHandle {
    spec fn column_names(&self) -> Seq<Seq<char>>;

    fn columns(&self) -> (r: &Vec<String>)
        ensures
            r@.map_values(|c: String| c@) == self.column_names(),
    ;

    /// The next row or error, or `None` when the result is exhausted.
    fn next_row(&mut self) -> Option<Result<Row, Error>>;

    /// Profile information, once the rows are consumed. Only `PROFILE` statements give it.
    fn profile(&self) -> Option<String> {
        None
    }
}

/// The answer to a DDL statement: a single row with a confirmation message.
pub struct EmptyResultHandle {
    columns: Vec<String>,
    done: bool,
}

impl EmptyResultHandle {
    pub fn new(columns: Vec<String>) -> (r: EmptyResultHandle)
        ensures
            r.column_names() == columns@.map_values(|c: String| c@),
            !r.is_done(),
    {
        EmptyResultHandle { columns, done: false }
    }

    pub closed spec fn is_done(&self) -> bool {
        self.done
    }
}

/// `r` is a row made of one string value, `text`.
pub open spec fn single_text_row(r: Option<Result<Row, Error>>, text: Seq<char>) -> bool {
    &&& r matches Some(Ok(row))
    &&& row@.len() == 1
    &&& row@[0] matches Some(ScalarValue::String(s))
    &&& s@ == text
}

pub open spec fn ddl_message() -> Seq<char> {
    "Constraint created/dropped"@
}

impl ResultHandle for EmptyResultHandle {
    closed spec fn column_names(&self) -> Seq<Seq<char>> {
        self.columns@.map_values(|c: String| c@)
    }

    fn columns(&self) -> (r: &Vec<String>) {
        &self.columns
    }

    /// The confirmation row the first time, then `None`.
    fn next_row(&mut self) -> (r: Option<Result<Row, Error>>)
        ensures
            final(self).is_done(),
            final(self).column_names() == old(self).column_names(),
            old(self).is_done() ==> r is None,
            !old(self).is_done() ==> single_text_row(r, ddl_message()),
    {
        if self.done {
            None
        } else {
            self.done = true;
            let mut row: Row = Vec::new();
            row.push(Some(ScalarValue::String(String::from_str("Constraint created/dropped"))));
            Some(Ok(row))
        }
    }

    /// A DDL statement gives no profile.
    fn profile(&self) -> (r: Option<String>)
        ensures
            r is None,
    {
        None
    }
}

/// The answer to `EXPLAIN`: a single row holding the plan text in the column `plan`.
pub struct ExplainResultHandle {
    columns: Vec<String>,
    explain: String,
    done: bool,
}

impl ExplainResultHandle {
    pub fn new(explain: String) -> (r: ExplainResultHandle)
        ensures
            r.column_names() == seq!["plan"@],
            r.explain_text() == explain@,
            !r.is_done(),
    {
        let mut columns: Vec<String> = Vec::new();
        columns.push(String::from_str("plan"));
        let r = ExplainResultHandle { columns, explain, done: false };
        assert(r.column_names() =~= seq!["plan"@]);
        r
    }

    pub closed spec fn is_done(&self) -> bool {
        self.done
    }

    pub closed spec fn explain_text(&self) -> Seq<char> {
        self.explain@
    }
}

impl ResultHandle for ExplainResultHandle {
    closed spec fn column_names(&self) -> Seq<Seq<char>> {
        self.columns@.map_values(|c: String| c@)
    }

    fn columns(&self) -> (r: &Vec<String>) {
        &self.columns
    }

    /// The plan text the first time, then `None`.
    fn next_row(&mut self) -> (r: Option<Result<Row, Error>>)
        ensures
            final(self).is_done(),
            final(self).column_names() == old(self).column_names(),
            old(self).is_done() ==> r is None,
            !old(self).is_done() ==> single_text_row(r, old(self).explain_text()),
    {
        if self.done {
            None
        } else {
            self.done = true;
            let mut text = String::new();
            std::mem::swap(&mut text, &mut self.explain);
            let mut row: Row = Vec::new();
            row.push(Some(ScalarValue::String(text)));
            Some(Ok(row))
        }
    }

    /// `EXPLAIN` gives no profile.
    fn profile(&self) -> (r: Option<String>)
        ensures
            r is None,
    {
        None
    }
}

/// What an item of a result stream holds: a row by its model, or an error.
pub open spec fn item_model(item: Result<Row, Error>) -> Result<RowModel, Error> {
    match item {
        Ok(row) => Ok(datums_model(row@)),
        Err(e) => Err(e),
    }
}

/// The answer to a query: the rows of the chunks that the running task sends, in order, and the
/// error it sends if it fails.
pub struct TaskHandleBridge {
    columns: Vec<String>,
    items: VecDeque<Result<Row, Error>>,
}

impl TaskHandleBridge {
    pub fn new(columns: Vec<String>) -> (r: TaskHandleBridge)
        ensures
            r.column_names() == columns@.map_values(|c: String| c@),
            r.queued() == Seq::<Result<RowModel, Error>>::empty(),
    {
        let r = TaskHandleBridge { columns, items: VecDeque::new() };
        assert(r.queued() =~= Seq::<Result<RowModel, Error>>::empty());
        r
    }

    /// The items received and not yet handed out, in order.
    pub closed spec fn queued(&self) -> Seq<Result<RowModel, Error>> {
        self.items@.map_values(|item: Result<Row, Error>| item_model(item))
    }

    /// Receives a chunk: each of its visible rows, in order, becomes a row of the result.
    pub fn push_chunk(&mut self, columns: &Vec<Vec<Datum>>, vis: &Bits)
        requires
            columns_cover(columns@, bits(*vis).len() as int),
        ensures
            final(self).column_names() == old(self).column_names(),
            final(self).queued() == old(self).queued() + visible_rows(columns@, bits(*vis)).map_values(
                |row: RowModel| Ok::<RowModel, Error>(row),
            ),
    {
        let rows = compact_rows(columns, vis);
        let ghost start = self.queued();
        let ghost want = visible_rows(columns@, bits(*vis)).map_values(|row: RowModel| Ok::<RowModel, Error>(row));
        let mut i: usize = 0;
        while i < rows.len()
            invariant
                i <= rows@.len(),
                rows_model_of(rows@) == visible_rows(columns@, bits(*vis)),
                want == visible_rows(columns@, bits(*vis)).map_values(|row: RowModel| Ok::<RowModel, Error>(row)),
                self.column_names() == old(self).column_names(),
                self.queued() == start + want.take(i as int),
            decreases rows@.len() - i,
        {
            let ghost before = self.queued();
            let row = duplicate_datums(rows[i].as_slice());
            self.items.push_back(Ok(row));
            proof {
                assert(self.queued() =~= before.push(Ok::<RowModel, Error>(datums_model(row@))));
                assert(want[i as int] == Ok::<RowModel, Error>(datums_model(rows@[i as int]@)));
                assert(want.take(i + 1) =~= want.take(i as int).push(want[i as int]));
            }
            i = i + 1;
        }
        proof {
            assert(want.take(rows@.len() as int) =~= want);
        }
    }

    /// Receives the error of the task; it is handed out as the session error it converts to.
    pub fn push_error(&mut self, e: ExecError)
        ensures
            final(self).column_names() == old(self).column_names(),
            final(self).queued() == old(self).queued().push(Err::<RowModel, Error>(Error::ExecError(e))),
    {
        let ghost start = self.queued();
        self.items.push_back(Err(Error::ExecError(e)));
        assert(self.queued() =~= start.push(Err::<RowModel, Error>(Error::ExecError(e))));
    }
}

/// The models of rows.
pub open spec fn rows_model_of(rows: Seq<Row>) -> Seq<RowModel> {
    rows.map_values(|row: Row| datums_model(row@))
}

impl ResultHandle for TaskHandleBridge {
    closed spec fn column_names(&self) -> Seq<Seq<char>> {
        self.columns@.map_values(|c: String| c@)
    }

    fn columns(&self) -> (r: &Vec<String>) {
        &self.columns
    }

    /// The first item received and not yet handed out.
    fn next_row(&mut self) -> (r: Option<Result<Row, Error>>)
        ensures
            final(self).column_names() == old(self).column_names(),
            old(self).queued().len() == 0 ==> r is None && final(self).queued() == old(self).queued(),
            old(self).queued().len() > 0 ==> (r matches Some(item) && item_model(item) == old(self).queued()[0]
                && final(self).queued() == old(self).queued().drop_first()),
    {
        let ghost start = self.items@;
        let r = self.items.pop_front();
        proof {
            if start.len() > 0 {
                assert(self.queued() =~= old(self).queued().drop_first());
            }
        }
        r
    }

    /// A plain query gives no profile.
    fn profile(&self) -> (r: Option<String>)
        ensures
            r is None,
    {
        None
    }
}

/// The answer to `PROFILE`: the rows of the query, and the profile text of its operators, which
/// the caller renders from the statistics and brings up to date as the query runs.
pub struct ProfileResultHandle {
    inner: TaskHandleBridge,
    profile_text: String,
}

impl ProfileResultHandle {
    pub fn new(columns: Vec<String>, profile_text: String) -> (r: ProfileResultHandle)
        ensures
            r.column_names() == columns@.map_values(|c: String| c@),
            r.queued() == Seq::<Result<RowModel, Error>>::empty(),
            r.profile_text() == profile_text@,
    {
        ProfileResultHandle { inner: TaskHandleBridge::new(columns), profile_text }
    }

    pub closed spec fn queued(&self) -> Seq<Result<RowModel, Error>> {
        self.inner.queued()
    }

    pub closed spec fn profile_text(&self) -> Seq<char> {
        self.profile_text@
    }

    /// Receives a chunk of the query, as `TaskHandleBridge::push_chunk` does.
    pub fn push_chunk(&mut self, columns: &Vec<Vec<Datum>>, vis: &Bits)
        requires
            columns_cover(columns@, bits(*vis).len() as int),
        ensures
            final(self).column_names() == old(self).column_names(),
            final(self).profile_text() == old(self).profile_text(),
            final(self).queued() == old(self).queued() + visible_rows(columns@, bits(*vis)).map_values(
                |row: RowModel| Ok::<RowModel, Error>(row),
            ),
    {
        self.inner.push_chunk(columns, vis);
    }

    /// Receives the error of the query, as `TaskHandleBridge::push_error` does.
    pub fn push_error(&mut self, e: ExecError)
        ensures
            final(self).column_names() == old(self).column_names(),
            final(self).profile_text() == old(self).profile_text(),
            final(self).queued() == old(self).queued().push(Err::<RowModel, Error>(Error::ExecError(e))),
    {
        self.inner.push_error(e);
    }

    /// Replaces the profile text with one rendered from newer statistics.
    pub fn set_profile_text(&mut self, text: String)
        ensures
            final(self).column_names() == old(self).column_names(),
            final(self).queued() == old(self).queued(),
            final(self).profile_text() == text@,
    {
        self.profile_text = text;
    }
}

impl ResultHandle for ProfileResultHandle {
    closed spec fn column_names(&self) -> Seq<Seq<char>> {
        self.inner.column_names()
    }

    fn columns(&self) -> (r: &Vec<String>) {
        self.inner.columns()
    }

    /// The next row of the query, as for a plain query.
    fn next_row(&mut self) -> (r: Option<Result<Row, Error>>)
        ensures
            final(self).column_names() == old(self).column_names(),
            final(self).profile_text() == old(self).profile_text(),
            old(self).queued().len() == 0 ==> r is None && final(self).queued() == old(self).queued(),
            old(self).queued().len() > 0 ==> (r matches Some(item) && item_model(item) == old(self).queued()[0]
                && final(self).queued() == old(self).queued().drop_first()),
    {
        self.inner.next_row()
    }

    /// The profile text.
    fn profile(&self) -> (r: Option<String>)
        ensures
            r matches Some(t) && t@ == self.profile_text(),
    {
        Some(self.profile_text.clone())
    }
}

} // verus!
