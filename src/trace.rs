use vstd::prelude::*;

use crate::columns::{
    append_rows, col_views, columns_wf, extend_column, padded, pushed, repeat, row_count, row_of, rows_missing,
    with_selector_rows, zero_row,
};
use crate::field::Scalar;

verus! {

/// What the interpreter of a virtual machine hands the trace builder for one
/// selector: the constraints and the lookup arguments of that opcode.
///
/// What an interpreter gives for an opcode depends on the opcode alone. A
/// verified implementation gives `constraints_for` and `lookups_for`; the
/// defaults leave them unspecified, which no `constraints_of` or
/// `lookups_of` can be proved against.
pub trait Interpreter<C, L> {
    /// The constraints of the opcode with this selector index.
    closed spec fn constraints_for(selector: usize) -> Seq<C> {
        arbitrary()
    }

    /// The lookup arguments of the opcode with this selector index.
    closed spec fn lookups_for(selector: usize) -> Seq<L> {
        arbitrary()
    }

    /// The constraints of the opcode with this selector index.
    fn constraints_of(&mut self, selector: usize) -> (r: Vec<C>)
        ensures
            r@ == Self::constraints_for(selector),
    ;

    /// The lookup arguments of the opcode with this selector index.
    fn lookups_of(&mut self, selector: usize) -> (r: Vec<L>)
        ensures
            r@ == Self::lookups_for(selector),
    ;
}

/// Builds traces of program executions, row by row, for one or several
/// opcodes told apart by a selector. Rows hold the `N_REL` relation columns;
/// selector columns are never touched here.
pub trait Tracer<const N_REL: usize, C, L, Env: Interpreter<C, L>>: Sized {
    /// What tells the opcodes of the trace apart.
    type Selector;

    /// The column layout is usable: at least one relation column, and no
    /// more relation columns than columns.
    spec fn layout_ok() -> bool;

    /// The tracer is well formed.
    spec fn inv(&self) -> bool;

    /// The number of rows every opcode's witness is filled up to.
    spec fn domain(&self) -> nat;

    /// The selector names an opcode of this tracer.
    spec fn selects(&self, selector: Self::Selector) -> bool;

    /// The witness columns of the opcode with this selector.
    spec fn columns_of(&self, selector: Self::Selector) -> Seq<Seq<Scalar>>;

    /// The constraints of the opcode with this selector.
    spec fn constraints_at(&self, selector: Self::Selector) -> Seq<C>;

    /// The lookup arguments of the opcode with this selector.
    spec fn lookups_at(&self, selector: Self::Selector) -> Seq<L>;

    /// The opcode, as the interpreter numbers it, whose constraints and
    /// lookups the tracer holds under `selector`, when it was created for the
    /// opcode `chosen`.
    spec fn opcode_of(selector: Self::Selector, chosen: usize) -> usize;

    /// A new trace with the given domain size, every witness column empty,
    /// holding the constraints and lookups that the interpreter gives.
    fn init(domain_size: usize, selector: usize, env: &mut Env) -> (r: Self)
        requires
            Self::layout_ok(),
        ensures
            r.inv(),
            r.domain() == domain_size,
            forall|s: Self::Selector, i: int|
                r.selects(s) && 0 <= i < r.columns_of(s).len() ==> (#[trigger] r.columns_of(
                    s,
                )[i]).len() == 0,
            forall|s: Self::Selector|
                #[trigger] r.selects(s) ==> r.constraints_at(s) == Env::constraints_for(
                    Self::opcode_of(s, selector),
                ) && r.lookups_at(s) == Env::lookups_for(Self::opcode_of(s, selector)),
    ;

    /// Adds a witness row to the relation columns of the selected opcode,
    /// unless they already hold as many rows as the domain size.
    fn push_row(&mut self, selector: Self::Selector, row: &[Scalar; N_REL])
        requires
            old(self).inv(),
            old(self).selects(selector),
        ensures
            final(self).inv(),
            final(self).domain() == old(self).domain(),
            final(self).columns_of(selector) == pushed(
                old(self).columns_of(selector),
                row@,
                N_REL as nat,
                old(self).domain(),
            ),
            forall|s: Self::Selector| #[trigger] final(self).selects(s) == old(self).selects(s),
            forall|s: Self::Selector|
                s != selector && old(self).selects(s) ==> #[trigger] final(self).columns_of(s)
                    == old(self).columns_of(s),
            forall|s: Self::Selector|
                old(self).selects(s) ==> #[trigger] final(self).constraints_at(s)
                    == old(self).constraints_at(s) && final(self).lookups_at(s)
                    == old(self).lookups_at(s),
    ;

    /// Pads the relation columns of the selected opcode with `row` up to the
    /// domain size, unless they are empty. Returns the number of rows added.
    fn pad_with_row(&mut self, selector: Self::Selector, row: &[Scalar; N_REL]) -> (added: usize)
        requires
            old(self).inv(),
            old(self).selects(selector),
        ensures
            final(self).inv(),
            final(self).domain() == old(self).domain(),
            added == rows_missing(old(self).columns_of(selector), old(self).domain()),
            final(self).columns_of(selector) == padded(
                old(self).columns_of(selector),
                row@,
                N_REL as nat,
                old(self).domain(),
            ),
            forall|s: Self::Selector| #[trigger] final(self).selects(s) == old(self).selects(s),
            forall|s: Self::Selector|
                s != selector && old(self).selects(s) ==> #[trigger] final(self).columns_of(s)
                    == old(self).columns_of(s),
            forall|s: Self::Selector|
                old(self).selects(s) ==> #[trigger] final(self).constraints_at(s)
                    == old(self).constraints_at(s) && final(self).lookups_at(s)
                    == old(self).lookups_at(s),
    ;

    /// Pads the relation columns of the selected opcode with rows of zeros up
    /// to the domain size, unless they are empty. Returns the number of rows
    /// added.
    fn pad_with_zeros(&mut self, selector: Self::Selector) -> (added: usize)
        requires
            old(self).inv(),
            old(self).selects(selector),
        ensures
            final(self).inv(),
            final(self).domain() == old(self).domain(),
            added == rows_missing(old(self).columns_of(selector), old(self).domain()),
            final(self).columns_of(selector) == padded(
                old(self).columns_of(selector),
                zero_row(N_REL as nat),
                N_REL as nat,
                old(self).domain(),
            ),
            forall|s: Self::Selector| #[trigger] final(self).selects(s) == old(self).selects(s),
            forall|s: Self::Selector|
                s != selector && old(self).selects(s) ==> #[trigger] final(self).columns_of(s)
                    == old(self).columns_of(s),
            forall|s: Self::Selector|
                old(self).selects(s) ==> #[trigger] final(self).constraints_at(s)
                    == old(self).constraints_at(s) && final(self).lookups_at(s)
                    == old(self).lookups_at(s),
    ;

    /// Pads the relation columns of the selected opcode with copies of its
    /// first row up to the domain size, unless they are empty. Returns the
    /// number of rows added.
    fn pad_dummy(&mut self, selector: Self::Selector) -> (added: usize)
        requires
            old(self).inv(),
            old(self).selects(selector),
        ensures
            final(self).inv(),
            final(self).domain() == old(self).domain(),
            added == rows_missing(old(self).columns_of(selector), old(self).domain()),
            final(self).columns_of(selector) == padded(
                old(self).columns_of(selector),
                row_of(old(self).columns_of(selector), N_REL as nat, 0),
                N_REL as nat,
                old(self).domain(),
            ),
            forall|s: Self::Selector| #[trigger] final(self).selects(s) == old(self).selects(s),
            forall|s: Self::Selector|
                s != selector && old(self).selects(s) ==> #[trigger] final(self).columns_of(s)
                    == old(self).columns_of(s),
            forall|s: Self::Selector|
                old(self).selects(s) ==> #[trigger] final(self).constraints_at(s)
                    == old(self).constraints_at(s) && final(self).lookups_at(s)
                    == old(self).lookups_at(s),
    ;
}

/// Builds traces that decompose into one sub-trace per opcode.
pub trait DecomposableTracer<const N_REL: usize, C, L, Env: Interpreter<C, L>>: Tracer<
    N_REL,
    C,
    L,
    Env,
> {
    /// The opcode, as the interpreter numbers it, of the sub-trace under
    /// `selector`.
    spec fn opcode(selector: Self::Selector) -> usize;

    /// A new trace with the given domain size: one sub-trace per selector,
    /// its constraints and lookups taken from the interpreter, its witness
    /// columns empty.
    fn new(domain_size: usize, env: &mut Env) -> (r: Self)
        requires
            Self::layout_ok(),
        ensures
            r.inv(),
            r.domain() == domain_size,
            forall|s: Self::Selector, i: int|
                r.selects(s) && 0 <= i < r.columns_of(s).len() ==> (#[trigger] r.columns_of(
                    s,
                )[i]).len() == 0,
            forall|s: Self::Selector|
                #[trigger] r.selects(s) ==> r.constraints_at(s) == Env::constraints_for(
                    Self::opcode(s),
                ) && r.lookups_at(s) == Env::lookups_for(Self::opcode(s)),
    ;

    /// Pads the relation columns of every non-empty sub-trace up to the
    /// domain size with copies of its first row. Selector columns are left
    /// alone.
    fn pad_witnesses(&mut self)
        requires
            old(self).inv(),
        ensures
            final(self).inv(),
            final(self).domain() == old(self).domain(),
            forall|s: Self::Selector| #[trigger] final(self).selects(s) == old(self).selects(s),
            forall|s: Self::Selector|
                old(self).selects(s) ==> #[trigger] final(self).columns_of(s) == padded(
                    old(self).columns_of(s),
                    row_of(old(self).columns_of(s), N_REL as nat, 0),
                    N_REL as nat,
                    old(self).domain(),
                ),
            forall|s: Self::Selector|
                old(self).selects(s) ==> #[trigger] final(self).constraints_at(s)
                    == old(self).constraints_at(s) && final(self).lookups_at(s)
                    == old(self).lookups_at(s),
    ;
}

/// The trace of a single opcode: `N` witness columns, the first `N_REL` of
/// them relation columns and the rest selector columns, together with the
/// opcode's constraints and lookup arguments.
#[derive(Clone)]
pub struct Trace<const N: usize, const N_REL: usize, C, L> {
    /// The number of rows the witness is filled up to.
    pub domain_size: usize,
    /// The witness, column by column.
    pub witness: Vec<Vec<Scalar>>,
    /// The constraints, fixed when the trace is created.
    pub constraints: Vec<C>,
    /// The lookup arguments, fixed when the trace is created.
    pub lookups: Vec<L>,
}

/// The entries of `row`, in order.
pub(crate) fn row_vec<const K: usize>(row: &[Scalar; K]) -> (r: Vec<Scalar>)
    ensures
        r@ == row@,
{
    let mut r: Vec<Scalar> = Vec::new();
    let mut i: usize = 0;
    while i < K
        invariant
            i <= K,
            row@.len() == K,
            r@ == row@.subrange(0, i as int),
        decreases K - i,
    {
        r.push(row[i]);
        assert(r@ =~= row@.subrange(0, i + 1));
        i = i + 1;
    }
    assert(r@ =~= row@);
    r
}

/// A row of `k` additive identities.
pub(crate) fn zeros(k: usize) -> (r: Vec<Scalar>)
    ensures
        r@ == zero_row(k as nat),
{
    let mut r: Vec<Scalar> = Vec::new();
    let mut i: usize = 0;
    while i < k
        invariant
            i <= k,
            r@ =~= zero_row(i as nat),
        decreases k - i,
    {
        r.push(Scalar::zero());
        i = i + 1;
    }
    r
}

impl<const N: usize, const N_REL: usize, C, L> Trace<N, N_REL, C, L> {
    /// The values of the witness columns.
    pub open spec fn columns(&self) -> Seq<Seq<Scalar>> {
        col_views(self.witness@)
    }

    /// The trace keeps the column layout and stays within its domain.
    pub open spec fn wf(&self) -> bool {
        columns_wf(self.columns(), N as nat, N_REL as nat, self.domain_size as nat)
    }

    /// The number of rows pushed so far.
    pub open spec fn rows(&self) -> nat {
        row_count(self.columns())
    }

    /// The relation row at index `j`.
    pub open spec fn row(&self, j: int) -> Seq<Scalar> {
        row_of(self.columns(), N_REL as nat, j)
    }

    /// A trace of `N` empty columns with the given constraints and lookups.
    fn empty(domain_size: usize, constraints: Vec<C>, lookups: Vec<L>) -> (r: Self)
        requires
            0 < N_REL <= N,
        ensures
            r.wf(),
            r.domain_size == domain_size,
            r.constraints == constraints,
            r.lookups == lookups,
            forall|i: int| 0 <= i < N ==> (#[trigger] r.columns()[i]).len() == 0,
    {
        let mut witness: Vec<Vec<Scalar>> = Vec::new();
        let mut i: usize = 0;
        while i < N
            invariant
                i <= N,
                witness@.len() == i,
                forall|j: int| 0 <= j < i ==> (#[trigger] witness@[j])@.len() == 0,
            decreases N - i,
        {
            witness.push(Vec::with_capacity(domain_size));
            i = i + 1;
        }
        Trace { domain_size, witness, constraints, lookups }
    }

    /// Appends `row` to the relation columns until they reach the domain
    /// size, unless they are empty; returns the number of rows added.
    pub fn pad_relation(&mut self, row: &Vec<Scalar>) -> (added: usize)
        requires
            old(self).wf(),
            row@.len() == N_REL,
        ensures
            final(self).wf(),
            final(self).domain_size == old(self).domain_size,
            final(self).constraints == old(self).constraints,
            final(self).lookups == old(self).lookups,
            added == rows_missing(old(self).columns(), old(self).domain_size as nat),
            final(self).columns() == padded(
                old(self).columns(),
                row@,
                N_REL as nat,
                old(self).domain_size as nat,
            ),
    {
        let ghost start = self.columns();
        let len = self.witness[0].len();
        if len == 0 {
            assert(self.columns() =~= padded(start, row@, N_REL as nat, self.domain_size as nat));
            return 0;
        }
        let added = self.domain_size - len;
        let mut i: usize = 0;
        while i < N_REL
            invariant
                i <= N_REL <= N,
                row@.len() == N_REL,
                self.witness@.len() == N,
                self.domain_size == old(self).domain_size,
                self.constraints == old(self).constraints,
                self.lookups == old(self).lookups,
                start == old(self).columns(),
                added == rows_missing(start, self.domain_size as nat),
                forall|j: int|
                    0 <= j < N ==> #[trigger] self.columns()[j] == if j < i {
                        start[j] + repeat(row@[j], added as nat)
                    } else {
                        start[j]
                    },
            decreases N_REL - i,
        {
            let value = row[i];
            let ghost before = self.witness@;
            assert(self.columns()[i as int] == start[i as int]);
            assert(forall|j: int| 0 <= j < N ==> #[trigger] col_views(before)[j] == before[j]@);
            extend_column(&mut self.witness[i], value, added);
            assert forall|j: int| 0 <= j < N implies #[trigger] self.columns()[j] == if j < i + 1 {
                start[j] + repeat(row@[j], added as nat)
            } else {
                start[j]
            } by {
                if j != i {
                    assert(self.witness@[j] == before[j]);
                    assert(col_views(before)[j] == before[j]@);
                }
            }
            i = i + 1;
        }
        assert(self.columns() =~= padded(start, row@, N_REL as nat, self.domain_size as nat));
        added
    }

    /// Appends `row[i]` to every relation column `i` with `i < k`, where
    /// `k <= N_REL`.
    fn append_prefix(&mut self, row: &[Scalar; N_REL], k: usize)
        requires
            old(self).witness@.len() == N,
            k <= N_REL <= N,
        ensures
            final(self).witness@.len() == N,
            final(self).domain_size == old(self).domain_size,
            final(self).constraints == old(self).constraints,
            final(self).lookups == old(self).lookups,
            forall|i: int|
                0 <= i < N ==> #[trigger] final(self).columns()[i] == if i < k {
                    old(self).columns()[i].push(row@[i])
                } else {
                    old(self).columns()[i]
                },
    {
        let ghost start = self.columns();
        let mut i: usize = 0;
        while i < k
            invariant
                i <= k <= N_REL <= N,
                self.witness@.len() == N,
                self.domain_size == old(self).domain_size,
                self.constraints == old(self).constraints,
                self.lookups == old(self).lookups,
                start == old(self).columns(),
                forall|j: int|
                    0 <= j < N ==> #[trigger] self.columns()[j] == if j < i {
                        start[j].push(row@[j])
                    } else {
                        start[j]
                    },
            decreases k - i,
        {
            let value = row[i];
            let ghost before = self.witness@;
            assert(self.columns()[i as int] == start[i as int]);
            assert(forall|j: int| 0 <= j < N ==> #[trigger] col_views(before)[j] == before[j]@);
            self.witness[i].push(value);
            assert(value == row@[i as int]);
            assert(self.witness@[i as int]@ == before[i as int]@.push(value));
            assert forall|j: int| 0 <= j < N implies #[trigger] self.columns()[j] == if j < i + 1 {
                start[j].push(row@[j])
            } else {
                start[j]
            } by {
                if j != i {
                    assert(self.witness@[j] == before[j]);
                    assert(col_views(before)[j] == before[j]@);
                }
            }
            i = i + 1;
        }
    }

    /// The first relation row; the trace must hold one.
    fn first_row(&self) -> (r: Vec<Scalar>)
        requires
            self.wf(),
            self.rows() > 0,
        ensures
            r@ == self.row(0),
    {
        let mut r: Vec<Scalar> = Vec::new();
        let mut i: usize = 0;
        while i < N_REL
            invariant
                i <= N_REL,
                self.wf(),
                self.rows() > 0,
                r@ =~= row_of(self.columns(), i as nat, 0),
            decreases N_REL - i,
        {
            assert(self.columns()[i as int].len() == self.columns()[0].len());
            r.push(self.witness[i][0]);
            i = i + 1;
        }
        r
    }

    /// Appends `row` to the relation columns while they hold fewer rows than
    /// the domain size; drops it once they are full.
    pub fn push_relation_row(&mut self, row: &[Scalar; N_REL])
        requires
            old(self).wf(),
        ensures
            final(self).wf(),
            final(self).domain_size == old(self).domain_size,
            final(self).constraints == old(self).constraints,
            final(self).lookups == old(self).lookups,
            final(self).columns() == pushed(
                old(self).columns(),
                row@,
                N_REL as nat,
                old(self).domain_size as nat,
            ),
    {
        let ghost start = self.columns();
        let len = self.witness[0].len();
        if len < self.domain_size {
            self.append_prefix(row, N_REL);
            assert forall|i: int| 0 <= i < N implies #[trigger] self.columns()[i] == append_rows(
                start,
                row@,
                N_REL as nat,
                1,
            )[i] by {
                if i < N_REL {
                    assert(start[i].push(row@[i]) =~= start[i] + repeat(row@[i], 1));
                }
            }
            assert(self.columns() =~= pushed(start, row@, N_REL as nat, self.domain_size as nat));
        }
    }

    /// Empties every witness column.
    pub fn clear_witness(&mut self)
        requires
            old(self).wf(),
        ensures
            final(self).wf(),
            final(self).domain_size == old(self).domain_size,
            final(self).constraints == old(self).constraints,
            final(self).lookups == old(self).lookups,
            final(self).columns() == Seq::new(N as nat, |_i: int| Seq::<Scalar>::empty()),
    {
        let mut i: usize = 0;
        while i < N
            invariant
                i <= N,
                0 < N_REL <= N,
                self.witness@.len() == N,
                self.domain_size == old(self).domain_size,
                self.constraints == old(self).constraints,
                self.lookups == old(self).lookups,
                forall|j: int| 0 <= j < i ==> (#[trigger] self.witness@[j])@.len() == 0,
            decreases N - i,
        {
            let ghost before = self.witness@;
            self.witness[i].clear();
            assert(forall|j: int| 0 <= j < N && j != i ==> self.witness@[j] == before[j]);
            i = i + 1;
        }
        assert forall|j: int| 0 <= j < N implies #[trigger] self.columns()[j] == Seq::<
            Scalar,
        >::empty() by {
            assert(self.columns()[j] =~= Seq::<Scalar>::empty());
        }
        assert(self.columns() =~= Seq::new(N as nat, |_i: int| Seq::<Scalar>::empty()));
    }

    /// Appends `k` rows to the selector columns: ones in column `active`,
    /// zeros in the others.
    pub fn extend_selector_columns(&mut self, active: usize, k: usize)
        requires
            old(self).wf(),
        ensures
            final(self).wf(),
            final(self).domain_size == old(self).domain_size,
            final(self).constraints == old(self).constraints,
            final(self).lookups == old(self).lookups,
            final(self).columns() == with_selector_rows(
                old(self).columns(),
                N_REL as nat,
                active as int,
                k as nat,
            ),
    {
        let ghost start = self.columns();
        let mut i: usize = N_REL;
        while i < N
            invariant
                N_REL <= i <= N,
                0 < N_REL,
                self.witness@.len() == N,
                start.len() == N,
                self.domain_size == old(self).domain_size,
                self.constraints == old(self).constraints,
                self.lookups == old(self).lookups,
                start == old(self).columns(),
                forall|j: int|
                    0 <= j < N ==> #[trigger] self.columns()[j] == if j < i {
                        with_selector_rows(start, N_REL as nat, active as int, k as nat)[j]
                    } else {
                        start[j]
                    },
            decreases N - i,
        {
            let value = if i == active {
                Scalar::one()
            } else {
                Scalar::zero()
            };
            let ghost before = self.witness@;
            assert(self.columns()[i as int] == start[i as int]);
            assert(forall|j: int| 0 <= j < N ==> #[trigger] col_views(before)[j] == before[j]@);
            extend_column(&mut self.witness[i], value, k);
            assert forall|j: int| 0 <= j < N implies #[trigger] self.columns()[j] == if j < i + 1 {
                with_selector_rows(start, N_REL as nat, active as int, k as nat)[j]
            } else {
                start[j]
            } by {
                if j != i {
                    assert(self.witness@[j] == before[j]);
                    assert(col_views(before)[j] == before[j]@);
                }
            }
            i = i + 1;
        }
        assert(self.columns() =~= with_selector_rows(start, N_REL as nat, active as int, k as nat));
    }

    /// Pads the relation columns with copies of the first row up to the
    /// domain size, unless they are empty; returns the number of rows added.
    pub fn pad_with_first_row(&mut self) -> (added: usize)
        requires
            old(self).wf(),
        ensures
            final(self).wf(),
            final(self).domain_size == old(self).domain_size,
            final(self).constraints == old(self).constraints,
            final(self).lookups == old(self).lookups,
            added == rows_missing(old(self).columns(), old(self).domain_size as nat),
            final(self).columns() == padded(
                old(self).columns(),
                old(self).row(0),
                N_REL as nat,
                old(self).domain_size as nat,
            ),
    {
        if self.witness[0].len() == 0 {
            let ghost cols = self.columns();
            assert(cols =~= padded(cols, self.row(0), N_REL as nat, self.domain_size as nat));
            return 0;
        }
        let values = self.first_row();
        self.pad_relation(&values)
    }
}

impl<const N: usize, const N_REL: usize, C, L, Env: Interpreter<C, L>> Tracer<N_REL, C, L, Env> for Trace<
    N,
    N_REL,
    C,
    L,
> {
    type Selector = ();

    open spec fn layout_ok() -> bool {
        0 < N_REL <= N
    }

    open spec fn inv(&self) -> bool {
        self.wf()
    }

    open spec fn domain(&self) -> nat {
        self.domain_size as nat
    }

    open spec fn selects(&self, selector: ()) -> bool {
        true
    }

    open spec fn columns_of(&self, selector: ()) -> Seq<Seq<Scalar>> {
        self.columns()
    }

    open spec fn constraints_at(&self, selector: ()) -> Seq<C> {
        self.constraints@
    }

    open spec fn lookups_at(&self, selector: ()) -> Seq<L> {
        self.lookups@
    }

    open spec fn opcode_of(selector: (), chosen: usize) -> usize {
        chosen
    }

    /// Takes the constraints and the lookups of the selected opcode from the
    /// interpreter.
    fn init(domain_size: usize, selector: usize, env: &mut Env) -> (r: Self) {
        let constraints = env.constraints_of(selector);
        let lookups = env.lookups_of(selector);
        Self::empty(domain_size, constraints, lookups)
    }

    fn push_row(&mut self, selector: (), row: &[Scalar; N_REL]) {
        self.push_relation_row(row)
    }

    fn pad_with_row(&mut self, selector: (), row: &[Scalar; N_REL]) -> (added: usize) {
        let values = row_vec(row);
        self.pad_relation(&values)
    }

    fn pad_with_zeros(&mut self, selector: ()) -> (added: usize) {
        let values = zeros(N_REL);
        self.pad_relation(&values)
    }

    fn pad_dummy(&mut self, selector: ()) -> (added: usize) {
        self.pad_with_first_row()
    }
}

} // verus!
