//! Column width resolution.
//!
//! Widths are allocated left to right: each column's constraint is
//! evaluated against the remaining width budget, and the computed width is
//! subtracted from the budget at once. Afterwards the leftover width is
//! redistributed, one extra unit to each of the leading `leftover % n`
//! columns and `leftover / n` units to every column, so the allocated
//! widths always sum exactly to the available width.

use vstd::prelude::*;
use vstd::arithmetic::div_mod::{lemma_div_is_ordered, lemma_fundamental_div_mod, lemma_mod_bound};
use crate::graphemes::count_graphemes;
use crate::table_column::{desired_width, TextColumn, TextColumnConstraint};

verus! {

pub open spec fn spec_min(a: int, b: int) -> int {
    if a <= b {
        a
    } else {
        b
    }
}

/// The width a single column takes from the remaining budget.
pub open spec fn constrained_width(col: TextColumn, total: int, remaining: int) -> int {
    match col.width_constraint {
        TextColumnConstraint::Fill => spec_min(desired_width(col.name@), remaining),
        TextColumnConstraint::Length(l) => spec_min(l as int, remaining),
        TextColumnConstraint::Percentage(p) => spec_min(total * p / 100, remaining),
        TextColumnConstraint::MaxLength(l) => spec_min(
            spec_min(l as int, desired_width(col.name@)),
            remaining,
        ),
        TextColumnConstraint::MaxPercentage(p) => spec_min(
            spec_min(desired_width(col.name@), total * p / 100),
            remaining,
        ),
    }
}

/// The widths of the left-to-right pass, before redistribution.
pub open spec fn first_pass(cols: Seq<TextColumn>, total: int, remaining: int) -> Seq<int>
    decreases cols.len(),
{
    if cols.len() == 0 {
        Seq::empty()
    } else {
        let w = constrained_width(cols[0], total, remaining);
        seq![w] + first_pass(cols.drop_first(), total, remaining - w)
    }
}

pub open spec fn sum_of(s: Seq<int>) -> int
    decreases s.len(),
{
    if s.len() == 0 {
        0
    } else {
        s[0] + sum_of(s.drop_first())
    }
}

/// Redistribution of the leftover budget over `base.len()` columns.
pub open spec fn redistributed(base: Seq<int>, leftover: int) -> Seq<int> {
    Seq::new(
        base.len(),
        |i: int|
            base[i] + leftover / (base.len() as int) + if i < leftover % (base.len() as int) {
                1int
            } else {
                0int
            },
    )
}

/// The final widths for the given columns and available width.
pub open spec fn resolved_widths(cols: Seq<TextColumn>, total: int) -> Seq<int> {
    let base = first_pass(cols, total, total);
    redistributed(base, total - sum_of(base))
}

pub proof fn lemma_sum_cons(x: int, s: Seq<int>)
    ensures
        sum_of(seq![x] + s) == x + sum_of(s),
{
    let c = seq![x] + s;
    assert(c.len() == s.len() + 1);
    assert(c[0] == x);
    assert(c.drop_first() =~= s);
}

pub proof fn lemma_sum_push(s: Seq<int>, x: int)
    ensures
        sum_of(s.push(x)) == sum_of(s) + x,
    decreases s.len(),
{
    if s.len() == 0 {
        assert(s.push(x) =~= seq![x]);
        assert(seq![x].drop_first() =~= Seq::<int>::empty());
        assert(sum_of(seq![x]) == seq![x][0] + sum_of(seq![x].drop_first()));
        assert(seq![x][0] == x);
        assert(sum_of(Seq::<int>::empty()) == 0);
    } else {
        assert(s.push(x).drop_first() =~= s.drop_first().push(x));
        lemma_sum_push(s.drop_first(), x);
        assert(s.push(x)[0] == s[0]);
        assert(sum_of(s.push(x)) == s[0] + sum_of(s.drop_first().push(x)));
    }
}

pub proof fn lemma_sum_take_succ(s: Seq<int>, k: int)
    requires
        0 <= k < s.len(),
    ensures
        sum_of(s.take(k + 1)) == sum_of(s.take(k)) + s[k],
{
    assert(s.take(k + 1) =~= s.take(k).push(s[k]));
    lemma_sum_push(s.take(k), s[k]);
}

pub proof fn lemma_first_pass_len(cols: Seq<TextColumn>, total: int, remaining: int)
    ensures
        first_pass(cols, total, remaining).len() == cols.len(),
    decreases cols.len(),
{
    if cols.len() > 0 {
        let w = constrained_width(cols[0], total, remaining);
        lemma_first_pass_len(cols.drop_first(), total, remaining - w);
    }
}

proof fn lemma_product_div100_nonneg(a: int, b: int)
    requires
        0 <= a,
        0 <= b,
    ensures
        0 <= a * b / 100,
{
    assert(0 <= a * b) by (nonlinear_arith)
        requires
            0 <= a,
            0 <= b,
    ;
    lemma_div_is_ordered(0, a * b, 100);
}

/// Every constraint yields a width between zero and the remaining budget.
pub proof fn lemma_constrained_width_bounds(col: TextColumn, total: int, remaining: int)
    requires
        0 <= total,
        0 <= remaining,
    ensures
        0 <= constrained_width(col, total, remaining) <= remaining,
{
    match col.width_constraint {
        TextColumnConstraint::Percentage(p) => {
            lemma_product_div100_nonneg(total, p as int);
        },
        TextColumnConstraint::MaxPercentage(p) => {
            lemma_product_div100_nonneg(total, p as int);
        },
        _ => {},
    }
}

/// All first-pass widths are nonnegative and sum to at most the budget.
pub proof fn lemma_first_pass_bounds(cols: Seq<TextColumn>, total: int, remaining: int)
    requires
        0 <= total,
        0 <= remaining,
    ensures
        forall|i: int|
            0 <= i < cols.len() ==> 0 <= #[trigger] first_pass(cols, total, remaining)[i],
        0 <= sum_of(first_pass(cols, total, remaining)) <= remaining,
    decreases cols.len(),
{
    lemma_first_pass_len(cols, total, remaining);
    if cols.len() == 0 {
    } else {
        let w = constrained_width(cols[0], total, remaining);
        lemma_constrained_width_bounds(cols[0], total, remaining);
        let rest = first_pass(cols.drop_first(), total, remaining - w);
        lemma_first_pass_bounds(cols.drop_first(), total, remaining - w);
        lemma_sum_cons(w, rest);
        assert forall|i: int|
            0 <= i < cols.len() implies 0 <= #[trigger] first_pass(cols, total, remaining)[i] by {
            if i > 0 {
                assert(first_pass(cols, total, remaining)[i] == rest[i - 1]);
            }
        }
    }
}

/// An element of a nonnegative sequence is at most the whole sum.
pub proof fn lemma_elem_le_sum(s: Seq<int>, i: int)
    requires
        0 <= i < s.len(),
        forall|j: int| 0 <= j < s.len() ==> 0 <= #[trigger] s[j],
    ensures
        s[i] <= sum_of(s),
    decreases s.len(),
{
    if i == 0 {
        lemma_sum_nonneg(s.drop_first());
    } else {
        lemma_elem_le_sum(s.drop_first(), i - 1);
    }
}

pub proof fn lemma_sum_nonneg(s: Seq<int>)
    requires
        forall|j: int| 0 <= j < s.len() ==> 0 <= #[trigger] s[j],
    ensures
        0 <= sum_of(s),
    decreases s.len(),
{
    if s.len() > 0 {
        lemma_sum_nonneg(s.drop_first());
    }
}

/// Redistribution adds exactly the leftover to the summed widths.
pub proof fn lemma_redistributed_sum(base: Seq<int>, leftover: int)
    requires
        base.len() >= 1,
        0 <= leftover,
    ensures
        sum_of(redistributed(base, leftover)) == sum_of(base) + leftover,
    decreases base.len(),
{
    let n = base.len() as int;
    let q = leftover / n;
    let r = leftover % n;
    lemma_fundamental_div_mod(leftover, n);
    lemma_mod_bound(leftover, n);
    lemma_redistributed_sum_general(base, q, r);
}

proof fn lemma_redistributed_sum_general(base: Seq<int>, q: int, r: int)
    requires
        0 <= r <= base.len(),
    ensures
        sum_of(
            Seq::new(base.len(), |i: int| base[i] + q + if i < r { 1int } else { 0int }),
        ) == sum_of(base) + base.len() * q + r,
    decreases base.len(),
{
    let n = base.len() as int;
    let s = Seq::new(base.len(), |i: int| base[i] + q + if i < r { 1int } else { 0int });
    if base.len() == 0 {
        assert(n * q == 0) by (nonlinear_arith)
            requires
                n == 0,
        ;
    } else {
        let r2 = if r > 0 { r - 1 } else { 0 };
        let b2 = base.drop_first();
        let s2 = Seq::new(b2.len(), |i: int| b2[i] + q + if i < r2 { 1int } else { 0int });
        assert(s.drop_first() =~= s2);
        lemma_redistributed_sum_general(b2, q, r2);
        assert(n * q == (n - 1) * q + q) by (nonlinear_arith);
        assert(s[0] == base[0] + q + if 0 < r { 1int } else { 0int });
        assert(sum_of(s) == s[0] + sum_of(s2));
        assert(sum_of(base) == base[0] + sum_of(b2));
    }
}

/// For any set of columns and any available width, the resolved column
/// widths sum exactly to the available width, whenever at least one column
/// exists.
pub proof fn lemma_width_allocation_sums_exactly(cols: Seq<TextColumn>, total: int)
    requires
        cols.len() >= 1,
        0 <= total,
    ensures
        resolved_widths(cols, total).len() == cols.len(),
        sum_of(resolved_widths(cols, total)) == total,
{
    let base = first_pass(cols, total, total);
    lemma_first_pass_len(cols, total, total);
    lemma_first_pass_bounds(cols, total, total);
    lemma_redistributed_sum(base, total - sum_of(base));
}

/// No column in the sequence takes a share of the total width.
pub open spec fn is_percentage_free(cols: Seq<TextColumn>) -> bool {
    forall|i: int|
        0 <= i < cols.len() ==> !((#[trigger] cols[i].width_constraint) matches
            TextColumnConstraint::Percentage(_)) && !(cols[i].width_constraint matches
            TextColumnConstraint::MaxPercentage(_))
}

/// With a percentage-free column set, growing the budget grows every
/// first-pass width, and grows the leftover budget as well.
proof fn lemma_first_pass_monotone(cols: Seq<TextColumn>, t1: int, r1: int, t2: int, r2: int)
    requires
        is_percentage_free(cols),
        0 <= r1 <= r2,
    ensures
        forall|i: int|
            0 <= i < cols.len() ==> #[trigger] first_pass(cols, t1, r1)[i] <= first_pass(
                cols,
                t2,
                r2,
            )[i],
        r1 - sum_of(first_pass(cols, t1, r1)) <= r2 - sum_of(first_pass(cols, t2, r2)),
    decreases cols.len(),
{
    lemma_first_pass_len(cols, t1, r1);
    lemma_first_pass_len(cols, t2, r2);
    if cols.len() == 0 {
    } else {
        let w1 = constrained_width(cols[0], t1, r1);
        let w2 = constrained_width(cols[0], t2, r2);
        assert(w1 <= w2 && r1 - w1 <= r2 - w2);
        let rest1 = first_pass(cols.drop_first(), t1, r1 - w1);
        let rest2 = first_pass(cols.drop_first(), t2, r2 - w2);
        assert(is_percentage_free(cols.drop_first())) by {
            assert forall|i: int|
                0 <= i < cols.drop_first().len() implies !((#[trigger] cols.drop_first()[i].width_constraint)
                matches TextColumnConstraint::Percentage(_)) && !(cols.drop_first()[i].width_constraint
                matches TextColumnConstraint::MaxPercentage(_)) by {
                assert(cols.drop_first()[i] == cols[i + 1]);
            }
        }
        lemma_first_pass_monotone(cols.drop_first(), t1, r1 - w1, t2, r2 - w2);
        lemma_sum_cons(w1, rest1);
        lemma_sum_cons(w2, rest2);
        assert forall|i: int|
            0 <= i < cols.len() implies #[trigger] first_pass(cols, t1, r1)[i] <= first_pass(
            cols,
            t2,
            r2,
        )[i] by {
            if i > 0 {
                assert(first_pass(cols, t1, r1)[i] == rest1[i - 1]);
                assert(first_pass(cols, t2, r2)[i] == rest2[i - 1]);
            }
        }
    }
}

/// A larger leftover never shrinks any slot's redistributed share.
proof fn lemma_per_slot_monotone(n: int, l1: int, l2: int, i: int)
    requires
        1 <= n,
        0 <= l1 <= l2,
        0 <= i < n,
    ensures
        l1 / n + (if i < l1 % n {
            1int
        } else {
            0int
        }) <= l2 / n + (if i < l2 % n {
            1int
        } else {
            0int
        }),
{
    lemma_div_is_ordered(l1, l2, n);
    lemma_fundamental_div_mod(l1, n);
    lemma_fundamental_div_mod(l2, n);
    lemma_mod_bound(l1, n);
    lemma_mod_bound(l2, n);
    if l1 / n == l2 / n {
        assert(l1 % n <= l2 % n) by (nonlinear_arith)
            requires
                l1 <= l2,
                l1 == n * (l1 / n) + l1 % n,
                l2 == n * (l2 / n) + l2 % n,
                l1 / n == l2 / n,
        ;
    }
}

/// Increasing the available width never decreases any individual resolved
/// column width, as long as no column takes a percentage share of the
/// total width. (A percentage column can consume a whole extra unit of
/// width and thereby shrink the budget left for a later column, so the
/// claim does not extend to column sets that contain one.)
pub proof fn lemma_fill_width_monotone(cols: Seq<TextColumn>, t1: int, t2: int)
    requires
        is_percentage_free(cols),
        cols.len() >= 1,
        0 <= t1 <= t2,
    ensures
        forall|i: int|
            0 <= i < cols.len() ==> #[trigger] resolved_widths(cols, t1)[i] <= resolved_widths(
                cols,
                t2,
            )[i],
{
    let base1 = first_pass(cols, t1, t1);
    let base2 = first_pass(cols, t2, t2);
    let l1 = t1 - sum_of(base1);
    let l2 = t2 - sum_of(base2);
    let n = cols.len() as int;
    lemma_first_pass_len(cols, t1, t1);
    lemma_first_pass_len(cols, t2, t2);
    lemma_first_pass_bounds(cols, t1, t1);
    lemma_first_pass_bounds(cols, t2, t2);
    lemma_first_pass_monotone(cols, t1, t1, t2, t2);
    assert forall|i: int|
        0 <= i < cols.len() implies #[trigger] resolved_widths(cols, t1)[i] <= resolved_widths(
        cols,
        t2,
    )[i] by {
        lemma_per_slot_monotone(n, l1, l2, i);
    }
}

/// The display width a column name asks for: one more cell than its
/// grapheme count, capped at the widest representable width.
pub fn measure_desired_width(name: &String) -> (d: u16)
    ensures
        d as int == desired_width(name@),
{
    let g = count_graphemes(name.as_str());
    if g >= u16::MAX as usize {
        u16::MAX
    } else {
        (g + 1) as u16
    }
}

proof fn lemma_u16_product_fits(a: int, b: int)
    requires
        0 <= a <= u16::MAX as int,
        0 <= b <= u16::MAX as int,
    ensures
        0 <= a * b <= u32::MAX as int,
{
    assert(0 <= a * b && a * b <= 65535 * 65535) by (nonlinear_arith)
        requires
            0 <= a <= 65535,
            0 <= b <= 65535,
    ;
}

fn min_u16(a: u16, b: u16) -> (r: u16)
    ensures
        r as int == spec_min(a as int, b as int),
{
    if a <= b {
        a
    } else {
        b
    }
}

fn constrained_width_exec(col: &TextColumn, total: u16, remaining: u16) -> (w: u16)
    ensures
        w as int == constrained_width(*col, total as int, remaining as int),
        w <= remaining,
{
    proof {
        lemma_constrained_width_bounds(*col, total as int, remaining as int);
    }
    match col.width_constraint {
        TextColumnConstraint::Fill => {
            let d = measure_desired_width(&col.name);
            min_u16(d, remaining)
        },
        TextColumnConstraint::Length(l) => min_u16(l, remaining),
        TextColumnConstraint::Percentage(p) => {
            proof {
                lemma_u16_product_fits(total as int, p as int);
            }
            let length: u32 = (total as u32) * (p as u32) / 100;
            if length < remaining as u32 {
                length as u16
            } else {
                remaining
            }
        },
        TextColumnConstraint::MaxLength(l) => {
            let d = measure_desired_width(&col.name);
            min_u16(min_u16(l, d), remaining)
        },
        TextColumnConstraint::MaxPercentage(p) => {
            proof {
                lemma_u16_product_fits(total as int, p as int);
            }
            let d = measure_desired_width(&col.name);
            let length: u32 = (total as u32) * (p as u32) / 100;
            let m: u32 = if (d as u32) <= length {
                d as u32
            } else {
                length
            };
            if m < remaining as u32 {
                m as u16
            } else {
                remaining
            }
        },
    }
}

/// Computes the final column widths for the available width: the
/// left-to-right pass against the shrinking budget, then redistribution of
/// the leftover.
pub fn resolve_column_widths(columns: &Vec<TextColumn>, total_width: u16) -> (widths: Vec<u16>)
    requires
        columns@.len() <= u16::MAX as nat,
    ensures
        widths@.len() == columns@.len(),
        forall|i: int|
            0 <= i < columns@.len() ==> #[trigger] widths@[i] as int == resolved_widths(
                columns@,
                total_width as int,
            )[i],
{
    let total: u16 = total_width;
    let mut width_remaining: u16 = total_width;
    let mut widths: Vec<u16> = Vec::new();
    let ghost fp = first_pass(columns@, total as int, total as int);
    proof {
        lemma_first_pass_len(columns@, total as int, total as int);
        lemma_first_pass_bounds(columns@, total as int, total as int);
        assert(columns@.skip(0) =~= columns@);
        assert(fp.skip(0) =~= fp);
        assert(fp.take(0) =~= Seq::<int>::empty());
    }
    let mut idx: usize = 0;
    while idx < columns.len()
        invariant
            idx <= columns@.len(),
            columns@.len() <= u16::MAX as nat,
            widths@.len() == idx,
            total == total_width,
            fp == first_pass(columns@, total as int, total as int),
            fp.len() == columns@.len(),
            forall|j: int| 0 <= j < idx ==> #[trigger] widths@[j] as int == fp[j],
            first_pass(columns@.skip(idx as int), total as int, width_remaining as int)
                == fp.skip(idx as int),
            width_remaining as int == total - sum_of(fp.take(idx as int)),
        decreases columns@.len() - idx,
    {
        let ghost suffix = columns@.skip(idx as int);
        proof {
            assert(suffix.len() > 0);
            assert(suffix[0] == columns@[idx as int]);
        }
        let w = constrained_width_exec(&columns[idx], total, width_remaining);
        proof {
            let w_spec = constrained_width(suffix[0], total as int, width_remaining as int);
            let rest = first_pass(
                suffix.drop_first(),
                total as int,
                width_remaining as int - w_spec,
            );
            assert(first_pass(suffix, total as int, width_remaining as int) == seq![w_spec]
                + rest);
            assert(fp.skip(idx as int)[0] == w_spec);
            assert(fp[idx as int] == w_spec);
            assert((seq![w_spec] + rest).drop_first() =~= rest);
            assert(suffix.drop_first() =~= columns@.skip(idx as int + 1));
            assert(fp.skip(idx as int).drop_first() =~= fp.skip(idx as int + 1));
            lemma_sum_take_succ(fp, idx as int);
        }
        widths.push(w);
        width_remaining = width_remaining - w;
        idx = idx + 1;
    }
    proof {
        assert(fp.take(fp.len() as int) =~= fp);
    }
    if widths.len() > 0 {
        let n: u16 = widths.len() as u16;
        let amount: u16 = width_remaining / n;
        let extra: u16 = width_remaining % n;
        let ghost l = width_remaining as int;
        proof {
            lemma_fundamental_div_mod(l, n as int);
            lemma_mod_bound(l, n as int);
            assert((n as int) * (amount as int) >= amount as int) by (nonlinear_arith)
                requires
                    n as int >= 1,
                    amount as int >= 0,
            ;
        }
        let mut i: usize = 0;
        while i < widths.len()
            invariant
                widths@.len() == fp.len(),
                fp.len() == columns@.len(),
                1 <= n as int,
                n as int == fp.len(),
                i <= widths@.len(),
                total == total_width,
                fp == first_pass(columns@, total as int, total as int),
                0 <= l <= total,
                l == total - sum_of(fp),
                amount as int == l / (n as int),
                extra as int == l % (n as int),
                amount as int + 1 <= if extra as int >= 1 {
                    l
                } else {
                    l + 1
                },
                forall|j: int| 0 <= j < fp.len() ==> 0 <= #[trigger] fp[j],
                forall|j: int|
                    0 <= j < i ==> #[trigger] widths@[j] as int == resolved_widths(
                        columns@,
                        total as int,
                    )[j],
                forall|j: int| i <= j < fp.len() ==> #[trigger] widths@[j] as int == fp[j],
            decreases widths@.len() - i,
        {
            proof {
                lemma_elem_le_sum(fp, i as int);
            }
            let add: u16 = if (i as u16) < extra {
                amount + 1
            } else {
                amount
            };
            let cur = widths[i];
            widths[i] = cur + add;
            i = i + 1;
        }
    }
    widths
}

} // verus!
