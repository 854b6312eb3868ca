use vstd::prelude::*;

use crate::columns::{
    append_rows, columns_wf, padded, pushed, repeat, row_count, row_of, rows_missing,
    with_selector_rows,
};
use crate::field::{Scalar, spec_one, spec_zero};
use crate::folding::{
    CommitmentScheme, Transcript, challenges_for, commitments_of, is_folding_pair,
};

verus! {

/// Appending rows to the relation columns keeps the layout, up to the
/// domain size.
proof fn lemma_append_rows_wf(
    cols: Seq<Seq<Scalar>>,
    row: Seq<Scalar>,
    n: nat,
    n_rel: nat,
    domain: nat,
    k: nat,
)
    requires
        columns_wf(cols, n, n_rel, domain),
        row_count(cols) + k <= domain,
    ensures
        columns_wf(append_rows(cols, row, n_rel, k), n, n_rel, domain),
        row_count(append_rows(cols, row, n_rel, k)) == row_count(cols) + k,
{
    let a = append_rows(cols, row, n_rel, k);
    assert forall|i: int| 0 <= i < n_rel implies #[trigger] a[i].len() == a[0].len() by {
        assert(cols[i].len() == cols[0].len());
    }
    assert forall|i: int, j: int| n_rel <= i < n && n_rel <= j < n implies #[trigger] a[i].len()
        == #[trigger] a[j].len() by {
        assert(cols[i].len() == cols[j].len());
    }
}

/// In every well-formed set of columns, the relation columns all have one
/// length and the selector columns all have one length. Once the selector
/// columns, still empty, receive one flag per relation row, all `n` columns
/// have the same length.
pub proof fn lemma_columns_equal_length(
    cols: Seq<Seq<Scalar>>,
    n: nat,
    n_rel: nat,
    domain: nat,
    active: int,
)
    requires
        columns_wf(cols, n, n_rel, domain),
    ensures
        forall|i: int, j: int|
            0 <= i < n_rel && 0 <= j < n_rel ==> #[trigger] cols[i].len() == #[trigger] cols[j].len(),
        forall|i: int, j: int|
            n_rel <= i < n && n_rel <= j < n ==> #[trigger] cols[i].len() == #[trigger] cols[j].len(),
        (forall|i: int| n_rel <= i < n ==> (#[trigger] cols[i]).len() == 0) ==> {
            let full = with_selector_rows(cols, n_rel, active, row_count(cols));
            forall|i: int, j: int|
                0 <= i < n && 0 <= j < n ==> #[trigger] full[i].len() == #[trigger] full[j].len()
        },
{
    assert forall|i: int, j: int| 0 <= i < n_rel && 0 <= j < n_rel implies #[trigger] cols[i].len()
        == #[trigger] cols[j].len() by {
        assert(cols[i].len() == cols[0].len());
        assert(cols[j].len() == cols[0].len());
    }
    if forall|i: int| n_rel <= i < n ==> (#[trigger] cols[i]).len() == 0 {
        let full = with_selector_rows(cols, n_rel, active, row_count(cols));
        assert forall|i: int| 0 <= i < n implies #[trigger] full[i].len() == row_count(cols) by {
            if i < n_rel {
                assert(cols[i].len() == cols[0].len());
            } else {
                assert(cols[i].len() == 0);
            }
        }
        assert forall|i: int, j: int| 0 <= i < n && 0 <= j < n implies #[trigger] full[i].len()
            == #[trigger] full[j].len() by {
            assert(full[i].len() == row_count(cols));
            assert(full[j].len() == row_count(cols));
        }
    }
}

/// Pushing a row keeps every column layout invariant.
pub proof fn lemma_push_keeps_layout(
    cols: Seq<Seq<Scalar>>,
    row: Seq<Scalar>,
    n: nat,
    n_rel: nat,
    domain: nat,
)
    requires
        columns_wf(cols, n, n_rel, domain),
    ensures
        columns_wf(pushed(cols, row, n_rel, domain), n, n_rel, domain),
{
    if row_count(cols) < domain {
        lemma_append_rows_wf(cols, row, n, n_rel, domain, 1);
    }
}

/// Padding, with any row, keeps every column layout invariant and leaves
/// the relation columns full or empty.
pub proof fn lemma_pad_keeps_layout(
    cols: Seq<Seq<Scalar>>,
    row: Seq<Scalar>,
    n: nat,
    n_rel: nat,
    domain: nat,
)
    requires
        columns_wf(cols, n, n_rel, domain),
    ensures
        columns_wf(padded(cols, row, n_rel, domain), n, n_rel, domain),
        row_count(padded(cols, row, n_rel, domain)) == if row_count(cols) == 0 {
            0
        } else {
            domain
        },
{
    lemma_append_rows_wf(cols, row, n, n_rel, domain, rows_missing(cols, domain));
}

/// Padding columns that already hold `domain` rows adds no row and changes
/// nothing, whatever the padding row: this covers padding with a given row,
/// with zeros and with the first row.
pub proof fn lemma_pad_full_is_noop(
    cols: Seq<Seq<Scalar>>,
    row: Seq<Scalar>,
    n: nat,
    n_rel: nat,
    domain: nat,
)
    requires
        columns_wf(cols, n, n_rel, domain),
        row_count(cols) == domain,
    ensures
        rows_missing(cols, domain) == 0,
        padded(cols, row, n_rel, domain) == cols,
{
    let p = padded(cols, row, n_rel, domain);
    assert forall|i: int| 0 <= i < n implies #[trigger] p[i] == cols[i] by {
        if i < n_rel {
            assert(cols[i] + repeat(row[i], 0) =~= cols[i]);
        }
    }
    assert(p =~= cols);
}

/// Padding columns that hold no row adds no row, changes nothing, and leaves
/// them out of the circuit, whatever the padding row.
pub proof fn lemma_pad_empty_is_noop(
    cols: Seq<Seq<Scalar>>,
    row: Seq<Scalar>,
    n: nat,
    n_rel: nat,
    domain: nat,
)
    requires
        columns_wf(cols, n, n_rel, domain),
        row_count(cols) == 0,
    ensures
        rows_missing(cols, domain) == 0,
        padded(cols, row, n_rel, domain) == cols,
        row_count(padded(cols, row, n_rel, domain)) == 0,
{
    let p = padded(cols, row, n_rel, domain);
    assert forall|i: int| 0 <= i < n implies #[trigger] p[i] == cols[i] by {
        if i < n_rel {
            assert(cols[i] + repeat(row[i], 0) =~= cols[i]);
        }
    }
    assert(p =~= cols);
}

/// Padding with copies of the first row keeps every constraint satisfied:
/// if every row meets every constraint, then so does every row afterwards,
/// for any row-wise meaning `holds` of the constraints.
pub proof fn lemma_pad_dummy_keeps_satisfied<C>(
    cols: Seq<Seq<Scalar>>,
    n: nat,
    n_rel: nat,
    domain: nat,
    constraints: Seq<C>,
    holds: spec_fn(C, Seq<Scalar>) -> bool,
)
    requires
        columns_wf(cols, n, n_rel, domain),
        row_count(cols) > 0,
        forall|j: int, c: int|
            0 <= j < row_count(cols) && 0 <= c < constraints.len() ==> #[trigger] holds(
                constraints[c],
                row_of(cols, n_rel, j),
            ),
    ensures
        ({
            let p = padded(cols, row_of(cols, n_rel, 0), n_rel, domain);
            &&& row_count(p) == domain
            &&& forall|j: int, c: int|
                0 <= j < row_count(p) && 0 <= c < constraints.len() ==> #[trigger] holds(
                    constraints[c],
                    row_of(p, n_rel, j),
                )
        }),
{
    let first = row_of(cols, n_rel, 0);
    let p = padded(cols, first, n_rel, domain);
    let len = row_count(cols);
    lemma_pad_keeps_layout(cols, first, n, n_rel, domain);
    assert forall|j: int| 0 <= j < domain implies #[trigger] row_of(p, n_rel, j) == if j < len {
        row_of(cols, n_rel, j)
    } else {
        first
    } by {
        assert forall|i: int| 0 <= i < n_rel implies row_of(p, n_rel, j)[i] == (if j < len {
            row_of(cols, n_rel, j)
        } else {
            first
        })[i] by {
            assert(cols[i].len() == len);
        }
        if j < len {
            assert(row_of(p, n_rel, j) =~= row_of(cols, n_rel, j));
        } else {
            assert(row_of(p, n_rel, j) =~= first);
        }
    }
    assert forall|j: int, c: int|
        0 <= j < row_count(p) && 0 <= c < constraints.len() implies #[trigger] holds(
        constraints[c],
        row_of(p, n_rel, j),
    ) by {
        assert(row_of(p, n_rel, j) == if j < len {
            row_of(cols, n_rel, j)
        } else {
            first
        });
        if j >= len {
            assert(holds(constraints[c], row_of(cols, n_rel, 0)));
        }
    }
}

/// After `k` flag rows are added for the selector whose column is `active`,
/// in each of the `k` new rows the column `active` holds one and every other
/// selector column holds zero; the relation columns are unchanged.
pub proof fn lemma_selector_one_hot(
    cols: Seq<Seq<Scalar>>,
    n: nat,
    n_rel: nat,
    domain: nat,
    active: int,
    k: nat,
)
    requires
        columns_wf(cols, n, n_rel, domain),
        n_rel <= active < n,
    ensures
        ({
            let f = with_selector_rows(cols, n_rel, active, k);
            let before = cols[n_rel as int].len();
            &&& f.len() == n
            &&& forall|i: int| 0 <= i < n_rel ==> #[trigger] f[i] == cols[i]
            &&& forall|i: int| n_rel <= i < n ==> (#[trigger] f[i]).len() == before + k
            &&& forall|j: int| before <= j < before + k ==> #[trigger] f[active][j] == spec_one()
            &&& forall|i: int, j: int|
                n_rel <= i < n && i != active && before <= j < before + k ==> #[trigger] f[i][j]
                    == spec_zero()
        }),
{
    let f = with_selector_rows(cols, n_rel, active, k);
    let before = cols[n_rel as int].len();
    assert forall|i: int| n_rel <= i < n implies (#[trigger] f[i]).len() == before + k by {
        assert(cols[i].len() == cols[n_rel as int].len());
    }
    assert(cols[active].len() == before);
    assert forall|i: int, j: int|
        n_rel <= i < n && i != active && before <= j < before + k implies #[trigger] f[i][j]
        == spec_zero() by {
        assert(cols[i].len() == before);
    }
}

/// Recomputing the commitments from the evaluation tables of a folding
/// witness, and absorbing them in the same order into the same transcript,
/// gives back the instance's commitments and its four challenges.
pub proof fn lemma_folding_round_trip<G, S: Transcript<G>, P: CommitmentScheme<G>>(
    cols: Seq<Seq<Scalar>>,
    s: S,
    srs: P,
    domain_size: nat,
    inst: crate::folding::FoldingInstance<G>,
    wit: crate::folding::FoldingWitness,
)
    requires
        is_folding_pair(cols, s, srs, domain_size, inst, wit),
    ensures
        forall|i: int|
            0 <= i < wit.tables().len() ==> #[trigger] inst.commitments@[i] == commitments_of(
                srs,
                wit.tables(),
                domain_size,
            )[i][0],
        challenges_for(s, srs, wit.tables(), domain_size) == inst.challenges@.push(
            inst.alphas.alpha,
        ),
{
    let ch = challenges_for(s, srs, cols, domain_size);
    assert(ch.subrange(0, 3).push(ch[3]) =~= ch);
}

} // verus!
