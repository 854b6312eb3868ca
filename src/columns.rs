use vstd::prelude::*;

use crate::field::{Scalar, spec_zero};

verus! {

/// The values of a set of witness columns.
pub open spec fn col_views(w: Seq<Vec<Scalar>>) -> Seq<Seq<Scalar>> {
    w.map_values(|c: Vec<Scalar>| c@)
}

/// The number of rows recorded in a set of columns: the length of the first
/// column, which is always a relation column.
pub open spec fn row_count(cols: Seq<Seq<Scalar>>) -> nat {
    if cols.len() > 0 {
        cols[0].len()
    } else {
        0
    }
}

/// `k` copies of `x`.
pub open spec fn repeat(x: Scalar, k: nat) -> Seq<Scalar> {
    Seq::new(k, |_j: int| x)
}

/// Row `j` of the relation columns: entry `i` is row `j` of column `i`.
pub open spec fn row_of(cols: Seq<Seq<Scalar>>, n_rel: nat, j: int) -> Seq<Scalar> {
    Seq::new(n_rel, |i: int| cols[i][j])
}

/// The row of `n_rel` additive identities.
pub open spec fn zero_row(n_rel: nat) -> Seq<Scalar> {
    Seq::new(n_rel, |_i: int| spec_zero())
}

/// Well-formed columns: `n` of them, the first `n_rel` holding relation data
/// and all of one length, at most `domain`; the others are selector columns,
/// also all of one length.
pub open spec fn columns_wf(cols: Seq<Seq<Scalar>>, n: nat, n_rel: nat, domain: nat) -> bool {
    &&& cols.len() == n
    &&& 0 < n_rel <= n
    &&& forall|i: int| 0 <= i < n_rel ==> #[trigger] cols[i].len() == cols[0].len()
    &&& forall|i: int, j: int|
        n_rel <= i < n && n_rel <= j < n ==> #[trigger] cols[i].len() == #[trigger] cols[j].len()
    &&& cols[0].len() <= domain
}

/// The columns after `row` was appended `k` times to the relation columns;
/// the selector columns are left as they are.
pub open spec fn append_rows(cols: Seq<Seq<Scalar>>, row: Seq<Scalar>, n_rel: nat, k: nat) -> Seq<
    Seq<Scalar>,
> {
    Seq::new(
        cols.len(),
        |i: int|
            if i < n_rel {
                cols[i] + repeat(row[i], k)
            } else {
                cols[i]
            },
    )
}

/// The columns after one push of `row`: it is appended while the relation
/// columns are below `domain` rows, and dropped once they are full.
pub open spec fn pushed(cols: Seq<Seq<Scalar>>, row: Seq<Scalar>, n_rel: nat, domain: nat) -> Seq<
    Seq<Scalar>,
> {
    if row_count(cols) < domain {
        append_rows(cols, row, n_rel, 1)
    } else {
        cols
    }
}

/// The number of rows that padding adds: none to empty columns, else as many
/// as are missing to reach `domain`.
pub open spec fn rows_missing(cols: Seq<Seq<Scalar>>, domain: nat) -> nat {
    if row_count(cols) == 0 || domain <= row_count(cols) {
        0
    } else {
        (domain - row_count(cols)) as nat
    }
}

/// The columns after padding with `row` up to `domain` rows.
pub open spec fn padded(cols: Seq<Seq<Scalar>>, row: Seq<Scalar>, n_rel: nat, domain: nat) -> Seq<
    Seq<Scalar>,
> {
    append_rows(cols, row, n_rel, rows_missing(cols, domain))
}

/// The columns after `k` rows were appended to the selector columns: the
/// multiplicative identity in column `active`, the additive one elsewhere.
pub open spec fn with_selector_rows(cols: Seq<Seq<Scalar>>, n_rel: nat, active: int, k: nat) -> Seq<
    Seq<Scalar>,
> {
    Seq::new(
        cols.len(),
        |i: int|
            if i < n_rel {
                cols[i]
            } else if i == active {
                cols[i] + repeat(crate::field::spec_one(), k)
            } else {
                cols[i] + repeat(spec_zero(), k)
            },
    )
}

/// Appends `k` copies of `x` to `col`.
pub fn extend_column(col: &mut Vec<Scalar>, x: Scalar, k: usize)
    ensures
        final(col)@ == old(col)@ + repeat(x, k as nat),
{
    let ghost start = col@;
    let mut t: usize = 0;
    while t < k
        invariant
            t <= k,
            col@ == start + repeat(x, t as nat),
        decreases k - t,
    {
        col.push(x);
        assert(col@ =~= start + repeat(x, (t + 1) as nat));
        t = t + 1;
    }
}

} // verus!
