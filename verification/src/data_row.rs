//! Rows and cells of tabular data, and the order cells sort by.
//!
//! A cell holds display text; cells are ordered lexicographically by
//! character. A row is an ordered sequence of cells, one per column; a
//! column index past the end of the row is a missing cell.

use vstd::prelude::*;
use vstd::string::StrSliceExecFns;

verus! {

/// One cell of a data row.
#[derive(Debug)]
pub struct DataCell {
    pub text: String,
}

impl DataCell {
    pub fn new(text: String) -> (r: DataCell)
        ensures
            r.text@ == text@,
    {
        DataCell { text }
    }
}

/// One logical record: an ordered sequence of cells.
#[derive(Debug)]
pub struct DataRow {
    pub cells: Vec<DataCell>,
}

impl DataRow {
    pub fn new(cells: Vec<DataCell>) -> (r: DataRow)
        ensures
            r.cells@ == cells@,
    {
        DataRow { cells }
    }

    /// The cell of the given column, or `None` when the row has no cell
    /// there.
    pub open spec fn spec_get(self, column: int) -> Option<DataCell> {
        if 0 <= column < self.cells@.len() {
            Some(self.cells@[column])
        } else {
            None
        }
    }

    pub fn get(&self, column: usize) -> (r: Option<&DataCell>)
        ensures
            match r {
                Some(c) => self.spec_get(column as int) == Some(*c),
                None => self.spec_get(column as int) is None,
            },
    {
        if column < self.cells.len() {
            Some(&self.cells[column])
        } else {
            None
        }
    }
}

/// Lexicographic order on character sequences; a proper prefix comes
/// first.
pub open spec fn lex_le(a: Seq<char>, b: Seq<char>) -> bool
    decreases a.len(),
{
    if a.len() == 0 {
        true
    } else if b.len() == 0 {
        false
    } else if (a[0] as u32) < (b[0] as u32) {
        true
    } else if (a[0] as u32) > (b[0] as u32) {
        false
    } else {
        lex_le(a.drop_first(), b.drop_first())
    }
}

/// Any two texts are ordered at least one way around.
pub proof fn lemma_lex_total(a: Seq<char>, b: Seq<char>)
    ensures
        lex_le(a, b) || lex_le(b, a),
    decreases a.len(),
{
    if a.len() > 0 && b.len() > 0 && (a[0] as u32) == (b[0] as u32) {
        lemma_lex_total(a.drop_first(), b.drop_first());
    }
}

pub proof fn lemma_lex_transitive(a: Seq<char>, b: Seq<char>, c: Seq<char>)
    requires
        lex_le(a, b),
        lex_le(b, c),
    ensures
        lex_le(a, c),
    decreases a.len(),
{
    if a.len() > 0 && b.len() > 0 && c.len() > 0 && (a[0] as u32) == (b[0] as u32) && (b[0] as u32)
        == (c[0] as u32) {
        lemma_lex_transitive(a.drop_first(), b.drop_first(), c.drop_first());
    }
}

/// `lex_le` decided by walking the two texts character by character.
pub fn text_le(a: &String, b: &String) -> (r: bool)
    ensures
        r == lex_le(a@, b@),
{
    let a_len = a.as_str().unicode_len();
    let b_len = b.as_str().unicode_len();
    let mut i: usize = 0;
    proof {
        assert(a@.skip(0) =~= a@);
        assert(b@.skip(0) =~= b@);
    }
    loop
        invariant
            i <= a_len,
            i <= b_len,
            a_len == a@.len(),
            b_len == b@.len(),
            lex_le(a@, b@) == lex_le(a@.skip(i as int), b@.skip(i as int)),
        decreases a_len - i,
    {
        if i >= a_len {
            return true;
        }
        if i >= b_len {
            return false;
        }
        let ca = a.as_str().get_char(i) as u32;
        let cb = b.as_str().get_char(i) as u32;
        proof {
            assert(a@.skip(i as int)[0] == a@[i as int]);
            assert(b@.skip(i as int)[0] == b@[i as int]);
            assert(a@.skip(i as int).drop_first() =~= a@.skip(i as int + 1));
            assert(b@.skip(i as int).drop_first() =~= b@.skip(i as int + 1));
        }
        if ca < cb {
            return true;
        }
        if ca > cb {
            return false;
        }
        i = i + 1;
    }
}

/// Row order by a column: both cells present compares their text; a
/// missing cell sorts after every present cell; two missing cells compare
/// equal.
pub open spec fn row_le(a: DataRow, b: DataRow, column: int) -> bool {
    match (a.spec_get(column), b.spec_get(column)) {
        (Some(x), Some(y)) => lex_le(x.text@, y.text@),
        (Some(x), None) => true,
        (None, Some(y)) => false,
        (None, None) => true,
    }
}

pub proof fn lemma_row_le_total(a: DataRow, b: DataRow, column: int)
    ensures
        row_le(a, b, column) || row_le(b, a, column),
{
    match (a.spec_get(column), b.spec_get(column)) {
        (Some(x), Some(y)) => lemma_lex_total(x.text@, y.text@),
        _ => {},
    }
}

pub proof fn lemma_row_le_transitive(a: DataRow, b: DataRow, c: DataRow, column: int)
    requires
        row_le(a, b, column),
        row_le(b, c, column),
    ensures
        row_le(a, c, column),
{
    match (a.spec_get(column), b.spec_get(column), c.spec_get(column)) {
        (Some(x), Some(y), Some(z)) => lemma_lex_transitive(x.text@, y.text@, z.text@),
        _ => {},
    }
}

/// `row_le` decided over the cells of the given column.
pub fn row_le_exec(a: &DataRow, b: &DataRow, column: usize) -> (r: bool)
    ensures
        r == row_le(*a, *b, column as int),
{
    match (a.get(column), b.get(column)) {
        (Some(x), Some(y)) => text_le(&x.text, &y.text),
        (Some(_x), None) => true,
        (None, Some(_y)) => false,
        (None, None) => true,
    }
}

} // verus!
