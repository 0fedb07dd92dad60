//! The diff engine.
//!
//! `lcs` fills a `Grid` so that cell `(i, j)` holds the length of the
//! longest common subsequence of the first `i` lines of one input and the
//! first `j` lines of the other.  `reconstruct_diff` then backtracks
//! through the table from the bottom-right corner and returns the edit
//! script in forward (top-to-bottom) order.

use vstd::prelude::*;
use vstd::string::StringExecFns;
use crate::grid::Grid;

verus! {

/// One entry of an edit script: a line kept by both inputs, a line only
/// the second input has, or a line only the first input has.
#[derive(Debug, PartialEq, Eq)]
pub enum DiffLine {
    Equal(String),
    Insert(String),
    Delete(String),
}

/// The mathematical model of a `DiffLine`: the same tag over the line's
/// character sequence.
pub enum DiffOp {
    Equal(Seq<char>),
    Insert(Seq<char>),
    Delete(Seq<char>),
}

impl View for DiffLine {
    type V = DiffOp;

    open spec fn view(&self) -> DiffOp {
        match self {
            DiffLine::Equal(s) => DiffOp::Equal(s@),
            DiffLine::Insert(s) => DiffOp::Insert(s@),
            DiffLine::Delete(s) => DiffOp::Delete(s@),
        }
    }
}

impl DeepView for DiffLine {
    type V = DiffOp;

    open spec fn deep_view(&self) -> DiffOp {
        self.view()
    }
}

/// The larger of two lengths.
pub open spec fn nat_max(a: nat, b: nat) -> nat {
    if a >= b {
        a
    } else {
        b
    }
}

/// The length of the longest common subsequence of `s1` and `s2`:
/// zero when either is empty; one more than the LCS of both minus their
/// last lines when those lines agree; otherwise the better of dropping
/// the last line of one side or of the other.
pub open spec fn lcs_len(s1: Seq<Seq<char>>, s2: Seq<Seq<char>>) -> nat
    decreases s1.len() + s2.len(),
{
    if s1.len() == 0 || s2.len() == 0 {
        0
    } else if s1.last() == s2.last() {
        lcs_len(s1.drop_last(), s2.drop_last()) + 1
    } else {
        nat_max(lcs_len(s1.drop_last(), s2), lcs_len(s1, s2.drop_last()))
    }
}

/// An LCS is never longer than either input.
pub proof fn lemma_lcs_len_le(s1: Seq<Seq<char>>, s2: Seq<Seq<char>>)
    ensures
        lcs_len(s1, s2) <= s1.len(),
        lcs_len(s1, s2) <= s2.len(),
    decreases s1.len() + s2.len(),
{
    if s1.len() == 0 || s2.len() == 0 {
    } else if s1.last() == s2.last() {
        lemma_lcs_len_le(s1.drop_last(), s2.drop_last());
    } else {
        lemma_lcs_len_le(s1.drop_last(), s2);
        lemma_lcs_len_le(s1, s2.drop_last());
    }
}

/// Taking one element more appends that element; the tail relations the
/// recursive definitions need.
pub proof fn lemma_take_step<A>(s: Seq<A>, k: int)
    requires
        0 <= k < s.len(),
    ensures
        s.take(k + 1).len() == k + 1,
        s.take(k + 1).last() == s[k],
        s.take(k + 1).drop_last() == s.take(k),
{
    assert(s.take(k + 1).drop_last() =~= s.take(k));
}

/// The DP recurrence, phrased over prefixes of the two inputs.
proof fn lemma_lcs_len_step(v1: Seq<Seq<char>>, v2: Seq<Seq<char>>, i: int, j: int)
    requires
        0 <= i < v1.len(),
        0 <= j < v2.len(),
    ensures
        v1[i] == v2[j] ==> lcs_len(v1.take(i + 1), v2.take(j + 1))
            == lcs_len(v1.take(i), v2.take(j)) + 1,
        v1[i] != v2[j] ==> lcs_len(v1.take(i + 1), v2.take(j + 1))
            == nat_max(lcs_len(v1.take(i), v2.take(j + 1)), lcs_len(v1.take(i + 1), v2.take(j))),
{
    lemma_take_step(v1, i);
    lemma_take_step(v2, j);
}

/// Builds the LCS length table for the two line sequences: a grid of
/// `(m + 1) x (n + 1)` cells where cell `(i, j)` is the LCS length of the
/// first `i` lines of `seq1` and the first `j` lines of `seq2`.
pub fn lcs(seq1: &Vec<String>, seq2: &Vec<String>) -> (table: Grid)
    requires
        (seq1@.len() + 1) * (seq2@.len() + 1) <= usize::MAX,
    ensures
        table.wf(),
        table.spec_rows() == seq1@.len() + 1,
        table.spec_cols() == seq2@.len() + 1,
        forall|i: int, j: int|
            0 <= i <= seq1@.len() && 0 <= j <= seq2@.len()
                ==> #[trigger] table.cell(i, j)
                    == lcs_len(seq1.deep_view().take(i), seq2.deep_view().take(j)),
{
    let ghost v1 = seq1.deep_view();
    let ghost v2 = seq2.deep_view();
    let m = seq1.len();
    let n = seq2.len();
    proof {
        assert((m + 1) <= (m + 1) * (n + 1) && (n + 1) <= (m + 1) * (n + 1))
            by (nonlinear_arith)
            requires m >= 0 && n >= 0;
    }
    let mut lcs_table = Grid::new(m + 1, n + 1);
    let mut i: usize = 0;
    while i < m
        invariant
            i <= m,
            m == v1.len(),
            n == v2.len(),
            m == seq1@.len(),
            n == seq2@.len(),
            v1 == seq1.deep_view(),
            v2 == seq2.deep_view(),
            m + 1 <= usize::MAX,
            lcs_table.wf(),
            lcs_table.spec_rows() == m + 1,
            lcs_table.spec_cols() == n + 1,
            forall|a: int, b: int|
                0 <= a <= m && 0 <= b <= n && (a <= i || b == 0)
                    ==> #[trigger] lcs_table.cell(a, b) == lcs_len(v1.take(a), v2.take(b)),
        decreases m - i,
    {
        let mut j: usize = 0;
        while j < n
            invariant
                i < m,
                j <= n,
                m == v1.len(),
                n == v2.len(),
                m == seq1@.len(),
                n == seq2@.len(),
                v1 == seq1.deep_view(),
                v2 == seq2.deep_view(),
                m + 1 <= usize::MAX,
                lcs_table.wf(),
                lcs_table.spec_rows() == m + 1,
                lcs_table.spec_cols() == n + 1,
                forall|a: int, b: int|
                    0 <= a <= m && 0 <= b <= n && (a <= i || b == 0 || (a == i + 1 && b <= j))
                        ==> #[trigger] lcs_table.cell(a, b) == lcs_len(v1.take(a), v2.take(b)),
            decreases n - j,
        {
            proof {
                lemma_lcs_len_step(v1, v2, i as int, j as int);
                lemma_lcs_len_le(v1.take(i as int), v2.take(j as int));
            }
            if seq1[i] == seq2[j] {
                let val = lcs_table.get(i, j).unwrap() + 1;
                lcs_table.set(i + 1, j + 1, val).unwrap();
            } else {
                let val1 = lcs_table.get(i + 1, j).unwrap();
                let val2 = lcs_table.get(i, j + 1).unwrap();
                let val = if val1 > val2 {
                    val1
                } else {
                    val2
                };
                lcs_table.set(i + 1, j + 1, val).unwrap();
            }
            j = j + 1;
        }
        i = i + 1;
    }
    lcs_table
}

/// The edit script the backtrack produces for `s1` and `s2`, in forward
/// order.  Matching last lines always become `Equal`; otherwise, when both
/// choices preserve the LCS length the script prefers `Insert` over
/// `Delete` — a deliberate, documented bias that fixes which of several
/// equal-length minimal scripts is emitted.
pub open spec fn diff_of(s1: Seq<Seq<char>>, s2: Seq<Seq<char>>) -> Seq<DiffOp>
    decreases s1.len() + s2.len(),
{
    if s1.len() == 0 && s2.len() == 0 {
        Seq::empty()
    } else if s1.len() > 0 && s2.len() > 0 && s1.last() == s2.last() {
        diff_of(s1.drop_last(), s2.drop_last()).push(DiffOp::Equal(s1.last()))
    } else if s2.len() > 0 && (s1.len() == 0 || lcs_len(s1, s2.drop_last()) >= lcs_len(
        s1.drop_last(),
        s2,
    )) {
        diff_of(s1, s2.drop_last()).push(DiffOp::Insert(s2.last()))
    } else {
        diff_of(s1.drop_last(), s2).push(DiffOp::Delete(s1.last()))
    }
}

/// The spec-level models of an edit script's entries, in order.
pub open spec fn ops_of(d: Seq<DiffLine>) -> Seq<DiffOp> {
    d.map_values(|x: DiffLine| x@)
}

proof fn lemma_ops_of_push(d: Seq<DiffLine>, x: DiffLine)
    ensures
        ops_of(d.push(x)) == ops_of(d).push(x@),
{
    assert(ops_of(d.push(x)) =~= ops_of(d).push(x@));
}

proof fn lemma_push_concat<A>(s: Seq<A>, x: A, t: Seq<A>)
    ensures
        s.push(x) + t == s + (seq![x] + t),
{
    assert(s.push(x) + t =~= s + (seq![x] + t));
}

proof fn lemma_reverse_push<A>(s: Seq<A>, x: A)
    ensures
        s.push(x).reverse() == seq![x] + s.reverse(),
{
    assert(s.push(x).reverse() =~= seq![x] + s.reverse());
}

/// Backtracks through the filled LCS table from `(i, j)` and returns the
/// edit script for the first `i` lines of `lines1` against the first `j`
/// lines of `lines2`, in forward (top-to-bottom) order.
pub fn reconstruct_diff(
    lcs_table: &Grid,
    lines1: &Vec<String>,
    lines2: &Vec<String>,
    i: usize,
    j: usize,
) -> (diff: Vec<DiffLine>)
    requires
        i <= lines1@.len(),
        j <= lines2@.len(),
        lcs_table.wf(),
        lcs_table.spec_rows() == lines1@.len() + 1,
        lcs_table.spec_cols() == lines2@.len() + 1,
        forall|a: int, b: int|
            0 <= a <= lines1@.len() && 0 <= b <= lines2@.len()
                ==> #[trigger] lcs_table.cell(a, b)
                    == lcs_len(lines1.deep_view().take(a), lines2.deep_view().take(b)),
    ensures
        ops_of(diff@) == diff_of(
            lines1.deep_view().take(i as int),
            lines2.deep_view().take(j as int),
        ),
{
    let ghost v1 = lines1.deep_view();
    let ghost v2 = lines2.deep_view();
    let ghost i0 = i as int;
    let ghost j0 = j as int;
    let mut i = i;
    let mut j = j;
    let mut out: Vec<DiffLine> = Vec::new();
    while i > 0 || j > 0
        invariant
            i <= lines1@.len(),
            j <= lines2@.len(),
            v1 == lines1.deep_view(),
            v2 == lines2.deep_view(),
            v1.len() == lines1@.len(),
            v2.len() == lines2@.len(),
            lcs_table.wf(),
            lcs_table.spec_rows() == lines1@.len() + 1,
            lcs_table.spec_cols() == lines2@.len() + 1,
            forall|a: int, b: int|
                0 <= a <= lines1@.len() && 0 <= b <= lines2@.len()
                    ==> #[trigger] lcs_table.cell(a, b) == lcs_len(v1.take(a), v2.take(b)),
            diff_of(v1.take(i0), v2.take(j0)) == diff_of(v1.take(i as int), v2.take(j as int))
                + ops_of(out@).reverse(),
        decreases i + j,
    {
        let ghost out_old = out@;
        let ghost i_old = i as int;
        let ghost j_old = j as int;
        if i > 0 && j > 0 && lines1[i - 1] == lines2[j - 1] {
            out.push(DiffLine::Equal(lines1[i - 1].clone()));
            i = i - 1;
            j = j - 1;
            proof {
                lemma_take_step(v1, i_old - 1);
                lemma_take_step(v2, j_old - 1);
                assert(diff_of(v1.take(i_old), v2.take(j_old)) == diff_of(
                    v1.take(i_old - 1),
                    v2.take(j_old - 1),
                ).push(DiffOp::Equal(v1[i_old - 1])));
            }
        } else if j > 0 && (i == 0 || lcs_table.get(i, j - 1).unwrap() >= lcs_table.get(
            i - 1,
            j,
        ).unwrap()) {
            out.push(DiffLine::Insert(lines2[j - 1].clone()));
            j = j - 1;
            proof {
                lemma_take_step(v2, j_old - 1);
                if i_old > 0 {
                    lemma_take_step(v1, i_old - 1);
                }
                assert(diff_of(v1.take(i_old), v2.take(j_old)) == diff_of(
                    v1.take(i_old),
                    v2.take(j_old - 1),
                ).push(DiffOp::Insert(v2[j_old - 1])));
            }
        } else {
            out.push(DiffLine::Delete(lines1[i - 1].clone()));
            i = i - 1;
            proof {
                lemma_take_step(v1, i_old - 1);
                if j_old > 0 {
                    lemma_take_step(v2, j_old - 1);
                }
                assert(diff_of(v1.take(i_old), v2.take(j_old)) == diff_of(
                    v1.take(i_old - 1),
                    v2.take(j_old),
                ).push(DiffOp::Delete(v1[i_old - 1])));
            }
        }
        proof {
            let line = out@.last();
            assert(out@ == out_old.push(line));
            lemma_ops_of_push(out_old, line);
            lemma_reverse_push(ops_of(out_old), line@);
            lemma_push_concat(
                diff_of(v1.take(i as int), v2.take(j as int)),
                line@,
                ops_of(out_old).reverse(),
            );
        }
    }
    proof {
        assert(v1.take(0) =~= Seq::<Seq<char>>::empty());
        assert(v2.take(0) =~= Seq::<Seq<char>>::empty());
        assert(diff_of(v1.take(i0), v2.take(j0)) =~= ops_of(out@).reverse());
    }
    let ghost rev_lines = out@;
    let mut fwd: Vec<DiffLine> = Vec::new();
    while out.len() > 0
        invariant
            ops_of(fwd@) + ops_of(out@).reverse() == ops_of(rev_lines).reverse(),
        decreases out.len(),
    {
        let ghost out_old = out@;
        let ghost fwd_old = fwd@;
        let x = out.pop().unwrap();
        fwd.push(x);
        proof {
            assert(out_old == out@.push(x));
            lemma_ops_of_push(out@, x);
            lemma_reverse_push(ops_of(out@), x@);
            lemma_ops_of_push(fwd_old, x);
            assert(ops_of(fwd_old.push(x)) + ops_of(out@).reverse() =~= ops_of(fwd_old) + (seq![
                x@,
            ] + ops_of(out@).reverse()));
        }
    }
    proof {
        assert(ops_of(out@).reverse() =~= Seq::<DiffOp>::empty());
        assert(ops_of(fwd@) + Seq::<DiffOp>::empty() =~= ops_of(fwd@));
        assert(ops_of(fwd@) == diff_of(v1.take(i0), v2.take(j0)));
    }
    fwd
}

/// The annotated form of one edit-script entry: two spaces before a kept
/// line, `+ ` before an inserted one, `- ` before a deleted one.
pub open spec fn rendered(op: DiffOp) -> Seq<char> {
    match op {
        DiffOp::Equal(l) => "  "@ + l,
        DiffOp::Insert(l) => "+ "@ + l,
        DiffOp::Delete(l) => "- "@ + l,
    }
}

/// Renders one edit-script entry with its two-character annotation.
pub fn render_line(d: &DiffLine) -> (r: String)
    ensures
        r@ == rendered(d@),
{
    match d {
        DiffLine::Equal(s) => String::from_str("  ").concat(s.as_str()),
        DiffLine::Insert(s) => String::from_str("+ ").concat(s.as_str()),
        DiffLine::Delete(s) => String::from_str("- ").concat(s.as_str()),
    }
}

/// Renders a whole edit script, one annotated line per entry, in order.
pub fn render_diff(diff: &Vec<DiffLine>) -> (out: Vec<String>)
    ensures
        out@.len() == diff@.len(),
        forall|k: int| 0 <= k < diff@.len() ==> (#[trigger] out@[k])@ == rendered(diff@[k]@),
{
    let mut out: Vec<String> = Vec::new();
    let mut k: usize = 0;
    while k < diff.len()
        invariant
            k <= diff@.len(),
            out@.len() == k,
            forall|t: int| 0 <= t < k ==> (#[trigger] out@[t])@ == rendered(diff@[t]@),
        decreases diff@.len() - k,
    {
        out.push(render_line(&diff[k]));
        k = k + 1;
    }
    out
}

} // verus!
