//! Laws of the diff engine.
//!
//! These proof functions state, over the spec-level model, what an edit
//! script produced by the backtrack means: applying it reproduces the
//! inputs, identical inputs give an all-`Equal` script, an empty input
//! gives an all-`Insert` or all-`Delete` script, the script's length is
//! fixed by the LCS length, and the LCS length the table computes is the
//! length of a true longest common subsequence.

use vstd::prelude::*;
use crate::diff::DiffOp;
use crate::diff::diff_of;
use crate::diff::lcs_len;
use crate::diff::lemma_take_step;

verus! {

/// The lines an edit script consumes from the first input: the `Equal`
/// and `Delete` entries, in order.
pub open spec fn source_of(d: Seq<DiffOp>) -> Seq<Seq<char>>
    decreases d.len(),
{
    if d.len() == 0 {
        Seq::empty()
    } else {
        source_of(d.drop_last()) + (match d.last() {
            DiffOp::Equal(l) => seq![l],
            DiffOp::Delete(l) => seq![l],
            DiffOp::Insert(_) => Seq::empty(),
        })
    }
}

/// The lines an edit script yields when applied to the first input: the
/// `Equal` lines kept and the `Insert` lines spliced in, with `Delete`
/// lines skipped, in order.
pub open spec fn target_of(d: Seq<DiffOp>) -> Seq<Seq<char>>
    decreases d.len(),
{
    if d.len() == 0 {
        Seq::empty()
    } else {
        target_of(d.drop_last()) + (match d.last() {
            DiffOp::Equal(l) => seq![l],
            DiffOp::Insert(l) => seq![l],
            DiffOp::Delete(_) => Seq::empty(),
        })
    }
}

proof fn lemma_push_drop_last<A>(s: Seq<A>, x: A)
    ensures
        s.push(x).drop_last() == s,
        s.push(x).last() == x,
{
    assert(s.push(x).drop_last() =~= s);
}

/// Round trip: the edit script for `s1` against `s2` consumes exactly
/// `s1` and, applied to it, reproduces exactly `s2`.
pub proof fn lemma_diff_round_trip(s1: Seq<Seq<char>>, s2: Seq<Seq<char>>)
    ensures
        source_of(diff_of(s1, s2)) == s1,
        target_of(diff_of(s1, s2)) == s2,
    decreases s1.len() + s2.len(),
{
    if s1.len() == 0 && s2.len() == 0 {
        assert(source_of(diff_of(s1, s2)) =~= s1);
        assert(target_of(diff_of(s1, s2)) =~= s2);
    } else if s1.len() > 0 && s2.len() > 0 && s1.last() == s2.last() {
        lemma_diff_round_trip(s1.drop_last(), s2.drop_last());
        lemma_push_drop_last(
            diff_of(s1.drop_last(), s2.drop_last()),
            DiffOp::Equal(s1.last()),
        );
        assert(source_of(diff_of(s1, s2)) =~= s1);
        assert(target_of(diff_of(s1, s2)) =~= s2);
    } else if s2.len() > 0 && (s1.len() == 0 || lcs_len(s1, s2.drop_last()) >= lcs_len(
        s1.drop_last(),
        s2,
    )) {
        lemma_diff_round_trip(s1, s2.drop_last());
        lemma_push_drop_last(diff_of(s1, s2.drop_last()), DiffOp::Insert(s2.last()));
        assert(source_of(diff_of(s1, s2)) =~= s1);
        assert(target_of(diff_of(s1, s2)) =~= s2);
    } else {
        lemma_diff_round_trip(s1.drop_last(), s2);
        lemma_push_drop_last(diff_of(s1.drop_last(), s2), DiffOp::Delete(s1.last()));
        assert(source_of(diff_of(s1, s2)) =~= s1);
        assert(target_of(diff_of(s1, s2)) =~= s2);
    }
}

/// Identical inputs produce a script of `Equal` entries only, carrying
/// the shared lines in their original order.
pub proof fn lemma_diff_identical(s: Seq<Seq<char>>)
    ensures
        diff_of(s, s) == s.map_values(|l: Seq<char>| DiffOp::Equal(l)),
    decreases s.len(),
{
    if s.len() == 0 {
        assert(diff_of(s, s) =~= s.map_values(|l: Seq<char>| DiffOp::Equal(l)));
    } else {
        lemma_diff_identical(s.drop_last());
        assert(diff_of(s, s) == diff_of(s.drop_last(), s.drop_last()).push(
            DiffOp::Equal(s.last()),
        ));
        assert(diff_of(s, s) =~= s.map_values(|l: Seq<char>| DiffOp::Equal(l)));
    }
}

/// An empty first input produces a script of `Insert` entries only, one
/// per line of the second input, in order.
pub proof fn lemma_diff_empty_source(s2: Seq<Seq<char>>)
    ensures
        diff_of(Seq::empty(), s2) == s2.map_values(|l: Seq<char>| DiffOp::Insert(l)),
    decreases s2.len(),
{
    if s2.len() == 0 {
        assert(diff_of(Seq::empty(), s2) =~= s2.map_values(|l: Seq<char>| DiffOp::Insert(l)));
    } else {
        lemma_diff_empty_source(s2.drop_last());
        assert(diff_of(Seq::empty(), s2) == diff_of(Seq::empty(), s2.drop_last()).push(
            DiffOp::Insert(s2.last()),
        ));
        assert(diff_of(Seq::empty(), s2) =~= s2.map_values(|l: Seq<char>| DiffOp::Insert(l)));
    }
}

/// An empty second input produces a script of `Delete` entries only, one
/// per line of the first input, in order.
pub proof fn lemma_diff_empty_target(s1: Seq<Seq<char>>)
    ensures
        diff_of(s1, Seq::empty()) == s1.map_values(|l: Seq<char>| DiffOp::Delete(l)),
    decreases s1.len(),
{
    if s1.len() == 0 {
        assert(diff_of(s1, Seq::empty()) =~= s1.map_values(|l: Seq<char>| DiffOp::Delete(l)));
    } else {
        lemma_diff_empty_target(s1.drop_last());
        assert(diff_of(s1, Seq::empty()) == diff_of(s1.drop_last(), Seq::empty()).push(
            DiffOp::Delete(s1.last()),
        ));
        assert(diff_of(s1, Seq::empty()) =~= s1.map_values(|l: Seq<char>| DiffOp::Delete(l)));
    }
}

/// Dropping the last line of the first input lowers the LCS length by at
/// most one and never raises it.
pub proof fn lemma_lcs_len_drop_first(s1: Seq<Seq<char>>, s2: Seq<Seq<char>>)
    requires
        s1.len() > 0,
    ensures
        lcs_len(s1.drop_last(), s2) <= lcs_len(s1, s2),
        lcs_len(s1, s2) <= lcs_len(s1.drop_last(), s2) + 1,
    decreases s1.len() + s2.len(),
{
    if s2.len() == 0 {
    } else if s1.last() == s2.last() {
        lemma_lcs_len_drop_second(s1.drop_last(), s2);
    } else {
        lemma_lcs_len_drop_first(s1, s2.drop_last());
        lemma_lcs_len_drop_second(s1.drop_last(), s2);
    }
}

/// Dropping the last line of the second input lowers the LCS length by
/// at most one and never raises it.
pub proof fn lemma_lcs_len_drop_second(s1: Seq<Seq<char>>, s2: Seq<Seq<char>>)
    requires
        s2.len() > 0,
    ensures
        lcs_len(s1, s2.drop_last()) <= lcs_len(s1, s2),
        lcs_len(s1, s2) <= lcs_len(s1, s2.drop_last()) + 1,
    decreases s1.len() + s2.len(),
{
    if s1.len() == 0 {
    } else if s1.last() == s2.last() {
        lemma_lcs_len_drop_first(s1, s2.drop_last());
    } else {
        lemma_lcs_len_drop_second(s1.drop_last(), s2);
        lemma_lcs_len_drop_first(s1, s2.drop_last());
    }
}

/// Column monotonicity of the LCS table: along a row, each cell grows by
/// zero or one per column.
pub proof fn lemma_table_monotone_cols(s1: Seq<Seq<char>>, s2: Seq<Seq<char>>, i: int, j: int)
    requires
        0 <= i <= s1.len(),
        0 <= j < s2.len(),
    ensures
        lcs_len(s1.take(i), s2.take(j)) <= lcs_len(s1.take(i), s2.take(j + 1)),
        lcs_len(s1.take(i), s2.take(j + 1)) <= lcs_len(s1.take(i), s2.take(j)) + 1,
{
    lemma_take_step(s2, j);
    lemma_lcs_len_drop_second(s1.take(i), s2.take(j + 1));
}

/// Row monotonicity of the LCS table: along a column, each cell grows by
/// zero or one per row.
pub proof fn lemma_table_monotone_rows(s1: Seq<Seq<char>>, s2: Seq<Seq<char>>, i: int, j: int)
    requires
        0 <= i < s1.len(),
        0 <= j <= s2.len(),
    ensures
        lcs_len(s1.take(i), s2.take(j)) <= lcs_len(s1.take(i + 1), s2.take(j)),
        lcs_len(s1.take(i + 1), s2.take(j)) <= lcs_len(s1.take(i), s2.take(j)) + 1,
{
    lemma_take_step(s1, i);
    lemma_lcs_len_drop_first(s1.take(i + 1), s2.take(j));
}

/// Row zero and column zero of the LCS table are zero: the LCS of an
/// empty prefix with anything is empty.
pub proof fn lemma_table_base(s: Seq<Seq<char>>)
    ensures
        lcs_len(Seq::empty(), s) == 0,
        lcs_len(s, Seq::empty()) == 0,
{
}

/// The `Equal` lines of an edit script, in order.
pub open spec fn equal_lines(d: Seq<DiffOp>) -> Seq<Seq<char>>
    decreases d.len(),
{
    if d.len() == 0 {
        Seq::empty()
    } else {
        equal_lines(d.drop_last()) + (match d.last() {
            DiffOp::Equal(l) => seq![l],
            DiffOp::Insert(_) => Seq::empty(),
            DiffOp::Delete(_) => Seq::empty(),
        })
    }
}

/// The script's size is fixed by the LCS length: it has one `Equal`
/// entry per line of a longest common subsequence, and its entry count
/// plus the LCS length is the two inputs' total line count (so the
/// inserts and deletes together number the total minus twice the LCS
/// length).
pub proof fn lemma_diff_len(s1: Seq<Seq<char>>, s2: Seq<Seq<char>>)
    ensures
        diff_of(s1, s2).len() + lcs_len(s1, s2) == s1.len() + s2.len(),
        equal_lines(diff_of(s1, s2)).len() == lcs_len(s1, s2),
    decreases s1.len() + s2.len(),
{
    if s1.len() == 0 && s2.len() == 0 {
        assert(equal_lines(diff_of(s1, s2)) =~= Seq::<Seq<char>>::empty());
    } else if s1.len() > 0 && s2.len() > 0 && s1.last() == s2.last() {
        lemma_diff_len(s1.drop_last(), s2.drop_last());
        lemma_push_drop_last(
            diff_of(s1.drop_last(), s2.drop_last()),
            DiffOp::Equal(s1.last()),
        );
    } else if s2.len() > 0 && (s1.len() == 0 || lcs_len(s1, s2.drop_last()) >= lcs_len(
        s1.drop_last(),
        s2,
    )) {
        lemma_diff_len(s1, s2.drop_last());
        lemma_push_drop_last(diff_of(s1, s2.drop_last()), DiffOp::Insert(s2.last()));
        assert(lcs_len(s1, s2) == lcs_len(s1, s2.drop_last()));
    } else {
        lemma_diff_len(s1.drop_last(), s2);
        lemma_push_drop_last(diff_of(s1.drop_last(), s2), DiffOp::Delete(s1.last()));
        assert(lcs_len(s1, s2) == lcs_len(s1.drop_last(), s2));
    }
}

/// `c` appears in `s` in order, not necessarily contiguously.
pub open spec fn is_subseq_of(c: Seq<Seq<char>>, s: Seq<Seq<char>>) -> bool
    decreases s.len(),
{
    if s.len() == 0 {
        c.len() == 0
    } else {
        (c.len() > 0 && c.last() == s.last() && is_subseq_of(c.drop_last(), s.drop_last()))
            || is_subseq_of(c, s.drop_last())
    }
}

/// `c` is a common subsequence of `s1` and `s2`.
pub open spec fn is_common_subseq(c: Seq<Seq<char>>, s1: Seq<Seq<char>>, s2: Seq<Seq<char>>) -> bool {
    is_subseq_of(c, s1) && is_subseq_of(c, s2)
}

proof fn lemma_subseq_of_push(c: Seq<Seq<char>>, s: Seq<Seq<char>>, x: Seq<char>)
    requires
        is_subseq_of(c, s),
    ensures
        is_subseq_of(c, s.push(x)),
{
    lemma_push_drop_last(s, x);
}

/// The `Equal` lines of the edit script form a common subsequence of the
/// two inputs.
pub proof fn lemma_diff_equals_common(s1: Seq<Seq<char>>, s2: Seq<Seq<char>>)
    ensures
        is_common_subseq(equal_lines(diff_of(s1, s2)), s1, s2),
    decreases s1.len() + s2.len(),
{
    if s1.len() == 0 && s2.len() == 0 {
        assert(equal_lines(diff_of(s1, s2)) =~= Seq::<Seq<char>>::empty());
    } else if s1.len() > 0 && s2.len() > 0 && s1.last() == s2.last() {
        lemma_diff_equals_common(s1.drop_last(), s2.drop_last());
        lemma_push_drop_last(
            diff_of(s1.drop_last(), s2.drop_last()),
            DiffOp::Equal(s1.last()),
        );
        let c0 = equal_lines(diff_of(s1.drop_last(), s2.drop_last()));
        let c = equal_lines(diff_of(s1, s2));
        assert(c =~= c0.push(s1.last()));
        lemma_push_drop_last(c0, s1.last());
    } else if s2.len() > 0 && (s1.len() == 0 || lcs_len(s1, s2.drop_last()) >= lcs_len(
        s1.drop_last(),
        s2,
    )) {
        lemma_diff_equals_common(s1, s2.drop_last());
        lemma_push_drop_last(diff_of(s1, s2.drop_last()), DiffOp::Insert(s2.last()));
        let c = equal_lines(diff_of(s1, s2));
        assert(c =~= equal_lines(diff_of(s1, s2.drop_last())));
        lemma_subseq_of_push(c, s2.drop_last(), s2.last());
        assert(s2.drop_last().push(s2.last()) =~= s2);
    } else {
        lemma_diff_equals_common(s1.drop_last(), s2);
        lemma_push_drop_last(diff_of(s1.drop_last(), s2), DiffOp::Delete(s1.last()));
        let c = equal_lines(diff_of(s1, s2));
        assert(c =~= equal_lines(diff_of(s1.drop_last(), s2)));
        lemma_subseq_of_push(c, s1.drop_last(), s1.last());
        assert(s1.drop_last().push(s1.last()) =~= s1);
    }
}

/// No common subsequence is longer than `lcs_len`.
pub proof fn lemma_common_subseq_le(c: Seq<Seq<char>>, s1: Seq<Seq<char>>, s2: Seq<Seq<char>>)
    requires
        is_common_subseq(c, s1, s2),
    ensures
        c.len() <= lcs_len(s1, s2),
    decreases s1.len() + s2.len(),
{
    if s1.len() == 0 || s2.len() == 0 {
    } else if s1.last() == s2.last() {
        if is_subseq_of(c, s1.drop_last()) {
            lemma_common_subseq_le(c, s1.drop_last(), s2);
            lemma_lcs_len_drop_first(s1, s2);
        } else if is_subseq_of(c, s2.drop_last()) {
            lemma_common_subseq_le(c, s1, s2.drop_last());
            lemma_lcs_len_drop_second(s1, s2);
        } else {
            assert(c.len() > 0 && c.last() == s1.last() && is_subseq_of(
                c.drop_last(),
                s1.drop_last(),
            ));
            assert(c.len() > 0 && c.last() == s2.last() && is_subseq_of(
                c.drop_last(),
                s2.drop_last(),
            ));
            lemma_common_subseq_le(c.drop_last(), s1.drop_last(), s2.drop_last());
        }
    } else {
        if is_subseq_of(c, s1.drop_last()) {
            lemma_common_subseq_le(c, s1.drop_last(), s2);
        } else if is_subseq_of(c, s2.drop_last()) {
            lemma_common_subseq_le(c, s1, s2.drop_last());
        } else {
            assert(c.last() == s1.last() && c.last() == s2.last());
            assert(false);
        }
    }
}

/// `lcs_len` is the true LCS length: the `Equal` lines of the edit
/// script are a common subsequence of that length, and no common
/// subsequence is longer.
pub proof fn lemma_lcs_len_is_lcs(s1: Seq<Seq<char>>, s2: Seq<Seq<char>>)
    ensures
        is_common_subseq(equal_lines(diff_of(s1, s2)), s1, s2),
        equal_lines(diff_of(s1, s2)).len() == lcs_len(s1, s2),
        forall|c: Seq<Seq<char>>| is_common_subseq(c, s1, s2) ==> c.len() <= lcs_len(s1, s2),
{
    lemma_diff_equals_common(s1, s2);
    lemma_diff_len(s1, s2);
    assert forall|c: Seq<Seq<char>>| is_common_subseq(c, s1, s2) implies c.len() <= lcs_len(
        s1,
        s2,
    ) by {
        lemma_common_subseq_le(c, s1, s2);
    }
}

} // verus!

