//! Stable sorting of data rows by one column.
//!
//! The sort is insertion sort from the front: each row is inserted after
//! every already-placed row that compares less than or equal, so rows that
//! compare equal keep their original relative order, and missing cells end
//! up after every present cell.

use vstd::prelude::*;
use vstd::seq_lib::lemma_multiset_commutative;
use crate::data_row::{
    lemma_row_le_total,
    lemma_row_le_transitive,
    row_le,
    row_le_exec,
    DataRow,
};

verus! {

broadcast use vstd::seq_lib::group_to_multiset_ensures;

/// `r` placed into `s` after every element that is less than or equal.
pub open spec fn insert_sorted(r: DataRow, s: Seq<DataRow>, column: int) -> Seq<DataRow>
    decreases s.len(),
{
    if s.len() == 0 {
        seq![r]
    } else if row_le(s[0], r, column) {
        seq![s[0]] + insert_sorted(r, s.drop_first(), column)
    } else {
        seq![r] + s
    }
}

/// The stable sort of `s` by the given column.
pub open spec fn sort_rows(s: Seq<DataRow>, column: int) -> Seq<DataRow>
    decreases s.len(),
{
    if s.len() == 0 {
        Seq::empty()
    } else {
        insert_sorted(s.last(), sort_rows(s.drop_last(), column), column)
    }
}

pub open spec fn sorted_by_column(s: Seq<DataRow>, column: int) -> bool {
    forall|i: int, j: int|
        0 <= i < j < s.len() ==> row_le(#[trigger] s[i], #[trigger] s[j], column)
}

/// The index `insert_sorted` places `r` at: past every element that is
/// less than or equal.
pub open spec fn insert_position(r: DataRow, s: Seq<DataRow>, column: int) -> int
    decreases s.len(),
{
    if s.len() == 0 {
        0
    } else if row_le(s[0], r, column) {
        1 + insert_position(r, s.drop_first(), column)
    } else {
        0
    }
}

proof fn lemma_insert_position_props(r: DataRow, s: Seq<DataRow>, column: int)
    ensures
        0 <= insert_position(r, s, column) <= s.len(),
        forall|k: int|
            0 <= k < insert_position(r, s, column) ==> row_le(#[trigger] s[k], r, column),
        insert_position(r, s, column) < s.len() ==> !row_le(
            s[insert_position(r, s, column)],
            r,
            column,
        ),
    decreases s.len(),
{
    if s.len() > 0 && row_le(s[0], r, column) {
        lemma_insert_position_props(r, s.drop_first(), column);
        let p = insert_position(r, s, column);
        assert forall|k: int| 0 <= k < p implies row_le(#[trigger] s[k], r, column) by {
            if k > 0 {
                assert(s.drop_first()[k - 1] == s[k]);
            }
        }
        if p < s.len() {
            assert(s.drop_first()[p - 1] == s[p]);
        }
    }
}

/// Inserting at a position bounded below by lesser-or-equal elements and
/// above by a strictly greater one is exactly `Seq::insert`.
proof fn lemma_insert_sorted_at(r: DataRow, s: Seq<DataRow>, column: int, j: int)
    requires
        0 <= j <= s.len(),
        forall|k: int| 0 <= k < j ==> row_le(#[trigger] s[k], r, column),
        j < s.len() ==> !row_le(s[j], r, column),
    ensures
        insert_sorted(r, s, column) == s.insert(j, r),
    decreases s.len(),
{
    if s.len() == 0 {
        assert(insert_sorted(r, s, column) =~= s.insert(0, r));
    } else if j == 0 {
        assert(!row_le(s[0], r, column));
        assert(seq![r] + s =~= s.insert(0, r));
    } else {
        assert(row_le(s[0], r, column));
        assert forall|k: int| 0 <= k < j - 1 implies row_le(
            #[trigger] s.drop_first()[k],
            r,
            column,
        ) by {
            assert(s.drop_first()[k] == s[k + 1]);
        }
        if j - 1 < s.drop_first().len() {
            assert(s.drop_first()[j - 1] == s[j]);
        }
        lemma_insert_sorted_at(r, s.drop_first(), column, j - 1);
        assert(seq![s[0]] + s.drop_first().insert(j - 1, r) =~= s.insert(j, r));
    }
}

proof fn lemma_insert_sorted_sorted(r: DataRow, s: Seq<DataRow>, column: int)
    requires
        sorted_by_column(s, column),
    ensures
        sorted_by_column(insert_sorted(r, s, column), column),
{
    let j = insert_position(r, s, column);
    lemma_insert_position_props(r, s, column);
    lemma_insert_sorted_at(r, s, column, j);
    let out = s.insert(j, r);
    assert forall|i1: int, i2: int|
        0 <= i1 < i2 < out.len() implies row_le(#[trigger] out[i1], #[trigger] out[i2], column) by {
        if i1 == j {
            // out[i1] is r; everything at or after position j is at least r
            lemma_row_le_total(s[j], r, column);
            if i2 - 1 > j {
                lemma_row_le_transitive(r, s[j], s[i2 - 1], column);
            }
        } else if i2 == j {
            // out[i2] is r; elements before j are less than or equal to r
        } else if i1 < j && i2 > j {
            assert(row_le(s[i1], s[i2 - 1], column) || i1 == i2 - 1);
        }
    }
}

proof fn lemma_insert_sorted_multiset(r: DataRow, s: Seq<DataRow>, column: int)
    ensures
        insert_sorted(r, s, column).to_multiset() == s.to_multiset().insert(r),
    decreases s.len(),
{
    let j = insert_position(r, s, column);
    lemma_insert_position_props(r, s, column);
    lemma_insert_sorted_at(r, s, column, j);
    let out = s.insert(j, r);
    assert(out =~= s.take(j).push(r) + s.skip(j));
    assert(s =~= s.take(j) + s.skip(j));
    lemma_multiset_commutative(s.take(j).push(r), s.skip(j));
    lemma_multiset_commutative(s.take(j), s.skip(j));
    assert(s.take(j).push(r).to_multiset() == s.take(j).to_multiset().insert(r));
    assert(out.to_multiset() =~= s.to_multiset().insert(r));
}

/// Sorting yields a sequence ordered by the sort column.
pub proof fn lemma_sort_rows_sorted(s: Seq<DataRow>, column: int)
    ensures
        sorted_by_column(sort_rows(s, column), column),
    decreases s.len(),
{
    if s.len() > 0 {
        lemma_sort_rows_sorted(s.drop_last(), column);
        lemma_insert_sorted_sorted(s.last(), sort_rows(s.drop_last(), column), column);
    }
}

/// Sorting permutes the rows: no row is lost, duplicated or invented.
pub proof fn lemma_sort_rows_permutation(s: Seq<DataRow>, column: int)
    ensures
        sort_rows(s, column).to_multiset() == s.to_multiset(),
    decreases s.len(),
{
    if s.len() > 0 {
        lemma_sort_rows_permutation(s.drop_last(), column);
        lemma_insert_sorted_multiset(s.last(), sort_rows(s.drop_last(), column), column);
        assert(s =~= s.drop_last().push(s.last()));
    }
}

pub proof fn lemma_sort_rows_len(s: Seq<DataRow>, column: int)
    ensures
        sort_rows(s, column).len() == s.len(),
{
    lemma_sort_rows_permutation(s, column);
    assert(sort_rows(s, column).to_multiset().len() == s.to_multiset().len());
}

/// A sequence that is already ordered is left exactly as it is, so
/// re-sorting sorted data is the identity.
pub proof fn lemma_sorted_sort_rows_id(s: Seq<DataRow>, column: int)
    requires
        sorted_by_column(s, column),
    ensures
        sort_rows(s, column) == s,
    decreases s.len(),
{
    if s.len() > 0 {
        let front = s.drop_last();
        assert(sorted_by_column(front, column)) by {
            assert forall|i: int, j: int|
                0 <= i < j < front.len() implies row_le(
                #[trigger] front[i],
                #[trigger] front[j],
                column,
            ) by {
                assert(front[i] == s[i] && front[j] == s[j]);
            }
        }
        lemma_sorted_sort_rows_id(front, column);
        assert forall|k: int| 0 <= k < front.len() implies row_le(
            #[trigger] front[k],
            s.last(),
            column,
        ) by {
            assert(front[k] == s[k]);
        }
        lemma_insert_sorted_at(s.last(), front, column, front.len() as int);
        assert(front.insert(front.len() as int, s.last()) =~= s);
    }
}

/// Rows whose cells compare equal in the sort column.
pub open spec fn row_equiv(a: DataRow, b: DataRow, column: int) -> bool {
    row_le(a, b, column) && row_le(b, a, column)
}

/// Inserting into an ordered sequence appends the new row after every
/// row it compares equal to, and leaves the others' order alone.
proof fn lemma_insert_sorted_filter(r: DataRow, t: Seq<DataRow>, column: int, pivot: DataRow)
    requires
        sorted_by_column(t, column),
    ensures
        insert_sorted(r, t, column).filter(|x: DataRow| row_equiv(x, pivot, column)) == if row_equiv(
            r,
            pivot,
            column,
        ) {
            t.filter(|x: DataRow| row_equiv(x, pivot, column)).push(r)
        } else {
            t.filter(|x: DataRow| row_equiv(x, pivot, column))
        },
{
    broadcast use vstd::seq::Seq::filter_distributes_over_add;

    let p = |x: DataRow| row_equiv(x, pivot, column);
    let j = insert_position(r, t, column);
    lemma_insert_position_props(r, t, column);
    lemma_insert_sorted_at(r, t, column, j);
    let front = t.take(j);
    let back = t.skip(j);
    assert(t.insert(j, r) =~= front + (seq![r] + back));
    assert(t =~= front + back);
    assert(seq![r] =~= Seq::<DataRow>::empty().push(r));
    reveal(Seq::filter);
    assert(seq![r].drop_last() =~= Seq::<DataRow>::empty());
    assert(Seq::<DataRow>::empty().filter(p) =~= Seq::<DataRow>::empty());
    assert(seq![r].last() == r);
    assert(seq![r].filter(p) =~= if p(r) {
        seq![r]
    } else {
        Seq::<DataRow>::empty()
    });
    if p(r) {
        // no row past the insertion point compares equal to `r`
        assert forall|k: int| 0 <= k < back.len() implies !p(back[k]) by {
            if p(back[k]) {
                assert(back[k] == t[j + k]);
                lemma_row_le_transitive(t[j + k], pivot, r, column);
                if k > 0 {
                    assert(row_le(t[j], t[j + k], column));
                    lemma_row_le_transitive(t[j], t[j + k], r, column);
                }
                assert(row_le(t[j], r, column));
                assert(false);
            }
        }
        back.lemma_all_neg_filter_empty(p);
        assert(back.filter(p) =~= Seq::<DataRow>::empty());
        assert(insert_sorted(r, t, column).filter(p) =~= front.filter(p) + seq![r]);
        assert(t.filter(p) =~= front.filter(p));
        assert(front.filter(p) + seq![r] =~= t.filter(p).push(r));
    } else {
        assert(insert_sorted(r, t, column).filter(p) =~= front.filter(p) + back.filter(p));
        assert(t.filter(p) =~= front.filter(p) + back.filter(p));
    }
}

/// Sorting is stable: the rows that compare equal to any fixed row come
/// out in exactly the order they went in.
pub proof fn lemma_sort_rows_stable(s: Seq<DataRow>, column: int, pivot: DataRow)
    ensures
        sort_rows(s, column).filter(|x: DataRow| row_equiv(x, pivot, column)) == s.filter(
            |x: DataRow| row_equiv(x, pivot, column),
        ),
    decreases s.len(),
{
    let p = |x: DataRow| row_equiv(x, pivot, column);
    reveal(Seq::filter);
    if s.len() > 0 {
        let front = s.drop_last();
        lemma_sort_rows_stable(front, column, pivot);
        lemma_sort_rows_sorted(front, column);
        lemma_insert_sorted_filter(s.last(), sort_rows(front, column), column, pivot);
        assert(s.filter(p) == if p(s.last()) {
            front.filter(p).push(s.last())
        } else {
            front.filter(p)
        });
    }
}

/// Sorting twice is the same as sorting once.
pub proof fn lemma_sort_rows_idempotent(s: Seq<DataRow>, column: int)
    ensures
        sort_rows(sort_rows(s, column), column) == sort_rows(s, column),
{
    lemma_sort_rows_sorted(s, column);
    lemma_sorted_sort_rows_id(sort_rows(s, column), column);
}

/// The index of the first row that is not less than or equal to `r`, or
/// the length when every row is.
fn find_insert_position(rows: &Vec<DataRow>, r: &DataRow, column: usize) -> (j: usize)
    ensures
        j <= rows@.len(),
        forall|k: int| 0 <= k < j ==> row_le(#[trigger] rows@[k], *r, column as int),
        j < rows@.len() ==> !row_le(rows@[j as int], *r, column as int),
{
    let mut j: usize = 0;
    while j < rows.len()
        invariant
            j <= rows@.len(),
            forall|k: int| 0 <= k < j ==> row_le(#[trigger] rows@[k], *r, column as int),
        decreases rows@.len() - j,
    {
        if !row_le_exec(&rows[j], r, column) {
            return j;
        }
        j = j + 1;
    }
    j
}

/// Places `r` into the sorted vector, after every row that is less than
/// or equal to it.
fn insert_row_sorted(out: &mut Vec<DataRow>, r: DataRow, column: usize)
    ensures
        final(out)@ == insert_sorted(r, old(out)@, column as int),
{
    let j = find_insert_position(out, &r, column);
    proof {
        lemma_insert_sorted_at(r, out@, column as int, j as int);
    }
    out.insert(j, r);
}

/// Sorts the rows by the given column, stably: rows that compare equal
/// keep their relative order, and rows with a missing cell in the sort
/// column come after every row with a present cell.
pub fn sort_rows_by_column(rows: &mut Vec<DataRow>, column: usize)
    ensures
        final(rows)@ == sort_rows(old(rows)@, column as int),
{
    let ghost orig = rows@;
    let ghost col = column as int;
    let mut out: Vec<DataRow> = Vec::new();
    proof {
        assert(orig.take(0) =~= Seq::<DataRow>::empty());
        assert(orig.skip(0) =~= orig);
    }
    while rows.len() > 0
        invariant
            col == column as int,
            rows@.len() <= orig.len(),
            rows@ == orig.skip(orig.len() - rows@.len()),
            out@ == sort_rows(orig.take(orig.len() - rows@.len()), col),
        decreases rows@.len(),
    {
        let ghost p: int = orig.len() - rows@.len();
        let ghost sorted_prefix = out@;
        proof {
            assert(rows@[0] == orig.skip(p)[0]);
            assert(orig.skip(p)[0] == orig[p]);
            assert(sorted_prefix == sort_rows(orig.take(p), col));
        }
        let r = rows.remove(0);
        insert_row_sorted(&mut out, r, column);
        proof {
            assert(r == orig[p]);
            assert(out@ == insert_sorted(r, sorted_prefix, col));
            assert(rows@ =~= orig.skip(p + 1));
            assert(orig.take(p + 1).last() == orig[p]);
            assert(orig.take(p + 1).drop_last() =~= orig.take(p));
            assert(sort_rows(orig.take(p + 1), col) == insert_sorted(
                orig[p],
                sort_rows(orig.take(p), col),
                col,
            ));
            assert(orig.len() - rows@.len() == p + 1);
        }
    }
    proof {
        assert(orig.take(orig.len() as int) =~= orig);
    }
    *rows = out;
}

} // verus!
