use vstd::prelude::*;

use crate::columns::{padded, pushed, row_count, row_of, rows_missing, with_selector_rows, zero_row};
use crate::field::Scalar;
use crate::trace::{DecomposableTracer, Interpreter, Trace, Tracer, row_vec, zeros};

verus! {

/// A circuit trace that decomposes into one sub-trace per opcode, all sharing
/// the same `N` columns and domain size. Opcodes are named by selector
/// indices `0 .. N - N_REL`: the sub-trace of selector `s` is `trace[s]`, and
/// its activity flag lives in column `N_REL + s`.
#[derive(Clone)]
pub struct DecomposedTrace<const N: usize, const N_REL: usize, C, L> {
    /// The domain size of the circuit, shared by every sub-trace.
    pub domain_size: usize,
    /// The sub-traces, indexed by selector.
    pub trace: Vec<Trace<N, N_REL, C, L>>,
}

impl<const N: usize, const N_REL: usize, C, L> DecomposedTrace<N, N_REL, C, L> {
    /// The number of selectors.
    pub open spec fn n_sel() -> nat {
        (N - N_REL) as nat
    }

    /// One well-formed sub-trace per selector, each with the circuit's
    /// domain size.
    pub open spec fn wf(&self) -> bool {
        &&& 0 < N_REL <= N
        &&& self.trace@.len() == Self::n_sel()
        &&& forall|s: int|
            0 <= s < Self::n_sel() ==> (#[trigger] self.trace@[s]).wf()
                && self.trace@[s].domain_size == self.domain_size
    }

    /// The witness columns of selector `s`.
    pub open spec fn cols(&self, s: int) -> Seq<Seq<Scalar>> {
        self.trace@[s].columns()
    }

    /// Every sub-trace but that of `selector` is as in `other`.
    pub open spec fn same_but(&self, other: &Self, selector: int) -> bool {
        &&& self.domain_size == other.domain_size
        &&& self.trace@.len() == other.trace@.len()
        &&& forall|s: int|
            0 <= s < self.trace@.len() && s != selector ==> #[trigger] self.trace@[s]
                == other.trace@[s]
    }

    /// A trace with one empty sub-trace per selector, whose constraints and
    /// lookups the interpreter gives.
    pub fn new<Env: Interpreter<C, L>>(domain_size: usize, env: &mut Env) -> (r: Self)
        requires
            0 < N_REL <= N,
        ensures
            r.wf(),
            r.domain_size == domain_size,
            forall|s: int, i: int|
                0 <= s < Self::n_sel() && 0 <= i < N ==> (#[trigger] r.cols(s)[i]).len() == 0,
            forall|s: int|
                0 <= s < Self::n_sel() ==> (#[trigger] r.trace@[s]).constraints@
                    == Env::constraints_for(s as usize) && r.trace@[s].lookups@ == Env::lookups_for(
                    s as usize,
                ),
    {
        let mut trace: Vec<Trace<N, N_REL, C, L>> = Vec::new();
        let n_sel: usize = N - N_REL;
        let mut s: usize = 0;
        while s < n_sel
            invariant
                0 < N_REL <= N,
                n_sel == N - N_REL,
                s <= n_sel,
                trace@.len() == s,
                forall|t: int|
                    0 <= t < s ==> (#[trigger] trace@[t]).wf() && trace@[t].domain_size
                        == domain_size,
                forall|t: int, i: int|
                    0 <= t < s && 0 <= i < N ==> (#[trigger] trace@[t].columns()[i]).len() == 0,
                forall|t: int|
                    0 <= t < s ==> (#[trigger] trace@[t]).constraints@ == Env::constraints_for(
                        t as usize,
                    ) && trace@[t].lookups@ == Env::lookups_for(t as usize),
            decreases n_sel - s,
        {
            let sub = <Trace<N, N_REL, C, L> as Tracer<N_REL, C, L, Env>>::init(domain_size, s, env);
            proof {
                assert forall|i: int| 0 <= i < N implies (#[trigger] sub.columns()[i]).len()
                    == 0 by {
                    assert(<Trace<N, N_REL, C, L> as Tracer<N_REL, C, L, Env>>::selects(&sub, ()));
                    assert(<Trace<N, N_REL, C, L> as Tracer<N_REL, C, L, Env>>::columns_of(&sub, ())[i]
                        == sub.columns()[i]);
                }
                assert(<Trace<N, N_REL, C, L> as Tracer<N_REL, C, L, Env>>::selects(&sub, ()));
                assert(sub.constraints@ == Env::constraints_for(s));
            }
            trace.push(sub);
            s = s + 1;
        }
        DecomposedTrace { domain_size, trace }
    }

    /// The sub-trace of the given selector.
    pub fn index(&self, selector: usize) -> (r: &Trace<N, N_REL, C, L>)
        requires
            self.wf(),
            selector < Self::n_sel(),
        ensures
            *r == self.trace@[selector as int],
    {
        &self.trace[selector]
    }

    /// The number of rows pushed so far for the given selector, read from
    /// its first relation column: selector columns are filled only at the
    /// very end.
    pub fn number_of_rows(&self, selector: usize) -> (r: usize)
        requires
            self.wf(),
            selector < Self::n_sel(),
        ensures
            r == row_count(self.cols(selector as int)),
    {
        self.trace[selector].witness[0].len()
    }

    /// Whether the given selector has any row in the circuit.
    pub fn in_circuit(&self, selector: usize) -> (r: bool)
        requires
            self.wf(),
            selector < Self::n_sel(),
        ensures
            r == (row_count(self.cols(selector as int)) != 0),
    {
        self.number_of_rows(selector) != 0
    }

    /// Whether the given selector has as many rows as the domain size.
    pub fn is_full(&self, selector: usize) -> (r: bool)
        requires
            self.wf(),
            selector < Self::n_sel(),
        ensures
            r == (row_count(self.cols(selector as int)) == self.domain_size),
    {
        self.domain_size == self.number_of_rows(selector)
    }

    /// Empties every witness column of the given selector, keeping its
    /// constraints and lookups.
    pub fn reset(&mut self, selector: usize)
        requires
            old(self).wf(),
            selector < Self::n_sel(),
        ensures
            final(self).wf(),
            final(self).same_but(old(self), selector as int),
            final(self).cols(selector as int) == Seq::new(N as nat, |_i: int| Seq::<Scalar>::empty()),
            final(self).trace@[selector as int].constraints == old(self).trace@[selector as int].constraints,
            final(self).trace@[selector as int].lookups == old(self).trace@[selector as int].lookups,
    {
        self.trace[selector].clear_witness();
    }

    /// Appends `number_of_rows` rows to the selector columns of the given
    /// selector: ones in its own column `N_REL + selector`, zeros in every
    /// other selector column.
    pub fn set_selector_column(&mut self, selector: usize, number_of_rows: usize)
        requires
            old(self).wf(),
            selector < Self::n_sel(),
        ensures
            final(self).wf(),
            final(self).same_but(old(self), selector as int),
            final(self).cols(selector as int) == with_selector_rows(
                old(self).cols(selector as int),
                N_REL as nat,
                N_REL + selector,
                number_of_rows as nat,
            ),
            final(self).trace@[selector as int].constraints == old(self).trace@[selector as int].constraints,
            final(self).trace@[selector as int].lookups == old(self).trace@[selector as int].lookups,
    {
        let active = N_REL + selector;
        self.trace[selector].extend_selector_columns(active, number_of_rows);
    }

    /// Pads the relation columns of every non-empty sub-trace up to the
    /// domain size with copies of its first row. Selector columns are left
    /// alone.
    pub fn pad_witnesses(&mut self)
        requires
            old(self).wf(),
        ensures
            final(self).wf(),
            final(self).domain_size == old(self).domain_size,
            forall|s: int|
                0 <= s < Self::n_sel() ==> #[trigger] final(self).cols(s) == padded(
                    old(self).cols(s),
                    row_of(old(self).cols(s), N_REL as nat, 0),
                    N_REL as nat,
                    old(self).domain_size as nat,
                ),
            forall|s: int|
                0 <= s < Self::n_sel() ==> (#[trigger] final(self).trace@[s]).constraints
                    == old(self).trace@[s].constraints && final(self).trace@[s].lookups
                    == old(self).trace@[s].lookups,
    {
        let n_sel: usize = N - N_REL;
        let mut s: usize = 0;
        while s < n_sel
            invariant
                n_sel == N - N_REL,
                s <= n_sel,
                self.wf(),
                self.domain_size == old(self).domain_size,
                forall|t: int|
                    0 <= t < s ==> #[trigger] self.cols(t) == padded(
                        old(self).cols(t),
                        row_of(old(self).cols(t), N_REL as nat, 0),
                        N_REL as nat,
                        old(self).domain_size as nat,
                    ),
                forall|t: int| s <= t < n_sel ==> #[trigger] self.trace@[t] == old(self).trace@[t],
                forall|t: int|
                    0 <= t < n_sel ==> (#[trigger] self.trace@[t]).constraints
                        == old(self).trace@[t].constraints && self.trace@[t].lookups
                        == old(self).trace@[t].lookups,
            decreases n_sel - s,
        {
            let ghost prev = *self;
            let ghost before = self.trace@;
            if self.in_circuit(s) {
                self.trace[s].pad_with_first_row();
                assert(forall|t: int| 0 <= t < n_sel && t != s ==> self.trace@[t] == before[t]);
                assert(self.cols(s as int) == padded(
                    old(self).cols(s as int),
                    row_of(old(self).cols(s as int), N_REL as nat, 0),
                    N_REL as nat,
                    old(self).domain_size as nat,
                ));
            } else {
                let ghost c = self.cols(s as int);
                assert(c =~= padded(c, row_of(c, N_REL as nat, 0), N_REL as nat, self.domain_size as nat));
            }
            assert forall|t: int| 0 <= t < s + 1 implies #[trigger] self.cols(t) == padded(
                old(self).cols(t),
                row_of(old(self).cols(t), N_REL as nat, 0),
                N_REL as nat,
                old(self).domain_size as nat,
            ) by {
                if t < s {
                    assert(prev.cols(t) == padded(
                        old(self).cols(t),
                        row_of(old(self).cols(t), N_REL as nat, 0),
                        N_REL as nat,
                        old(self).domain_size as nat,
                    ));
                    assert(self.trace@[t] == prev.trace@[t]);
                }
            }
            s = s + 1;
        }
    }

    /// Adds a witness row to the relation columns of the given selector,
    /// unless they already hold as many rows as the domain size. Returns
    /// whether the row was added, so that a caller can see a full sub-trace.
    pub fn push_row(&mut self, selector: usize, row: &[Scalar; N_REL]) -> (appended: bool)
        requires
            old(self).wf(),
            selector < Self::n_sel(),
        ensures
            appended == (row_count(old(self).cols(selector as int)) < old(self).domain_size),
            final(self).wf(),
            final(self).same_but(old(self), selector as int),
            final(self).cols(selector as int) == pushed(
                old(self).cols(selector as int),
                row@,
                N_REL as nat,
                old(self).domain_size as nat,
            ),
            final(self).trace@[selector as int].constraints == old(self).trace@[selector as int].constraints,
            final(self).trace@[selector as int].lookups == old(self).trace@[selector as int].lookups,
    {
        let appended = self.trace[selector].witness[0].len() < self.domain_size;
        self.trace[selector].push_relation_row(row);
        appended
    }

    /// Pads the relation columns of the given selector with `row` up to the
    /// domain size, unless they are empty: an unused selector stays unused.
    /// Returns the number of rows added.
    pub fn pad_with_row(&mut self, selector: usize, row: &[Scalar; N_REL]) -> (added: usize)
        requires
            old(self).wf(),
            selector < Self::n_sel(),
        ensures
            final(self).wf(),
            final(self).same_but(old(self), selector as int),
            added == rows_missing(old(self).cols(selector as int), old(self).domain_size as nat),
            final(self).cols(selector as int) == padded(
                old(self).cols(selector as int),
                row@,
                N_REL as nat,
                old(self).domain_size as nat,
            ),
            final(self).trace@[selector as int].constraints == old(self).trace@[selector as int].constraints,
            final(self).trace@[selector as int].lookups == old(self).trace@[selector as int].lookups,
    {
        if !self.in_circuit(selector) {
            let ghost c = self.cols(selector as int);
            assert(c =~= padded(c, row@, N_REL as nat, self.domain_size as nat));
            0
        } else {
            let values = row_vec(row);
            self.trace[selector].pad_relation(&values)
        }
    }

    /// Pads the relation columns of the given selector with rows of zeros up
    /// to the domain size, unless they are empty. Returns the number of rows
    /// added.
    pub fn pad_with_zeros(&mut self, selector: usize) -> (added: usize)
        requires
            old(self).wf(),
            selector < Self::n_sel(),
        ensures
            final(self).wf(),
            final(self).same_but(old(self), selector as int),
            added == rows_missing(old(self).cols(selector as int), old(self).domain_size as nat),
            final(self).cols(selector as int) == padded(
                old(self).cols(selector as int),
                zero_row(N_REL as nat),
                N_REL as nat,
                old(self).domain_size as nat,
            ),
            final(self).trace@[selector as int].constraints == old(self).trace@[selector as int].constraints,
            final(self).trace@[selector as int].lookups == old(self).trace@[selector as int].lookups,
    {
        if !self.in_circuit(selector) {
            let ghost c = self.cols(selector as int);
            assert(c =~= padded(c, zero_row(N_REL as nat), N_REL as nat, self.domain_size as nat));
            0
        } else {
            let values = zeros(N_REL);
            self.trace[selector].pad_relation(&values)
        }
    }

    /// Pads the relation columns of the given selector with copies of its
    /// first row up to the domain size, unless they are empty. Returns the
    /// number of rows added.
    pub fn pad_dummy(&mut self, selector: usize) -> (added: usize)
        requires
            old(self).wf(),
            selector < Self::n_sel(),
        ensures
            final(self).wf(),
            final(self).same_but(old(self), selector as int),
            added == rows_missing(old(self).cols(selector as int), old(self).domain_size as nat),
            final(self).cols(selector as int) == padded(
                old(self).cols(selector as int),
                row_of(old(self).cols(selector as int), N_REL as nat, 0),
                N_REL as nat,
                old(self).domain_size as nat,
            ),
            final(self).trace@[selector as int].constraints == old(self).trace@[selector as int].constraints,
            final(self).trace@[selector as int].lookups == old(self).trace@[selector as int].lookups,
    {
        self.trace[selector].pad_with_first_row()
    }
}

impl<const N: usize, const N_REL: usize, C, L, Env: Interpreter<C, L>> Tracer<N_REL, C, L, Env> for DecomposedTrace<
    N,
    N_REL,
    C,
    L,
> {
    type Selector = usize;

    open spec fn layout_ok() -> bool {
        0 < N_REL <= N
    }

    open spec fn inv(&self) -> bool {
        self.wf()
    }

    open spec fn domain(&self) -> nat {
        self.domain_size as nat
    }

    open spec fn selects(&self, selector: usize) -> bool {
        selector < Self::n_sel()
    }

    open spec fn columns_of(&self, selector: usize) -> Seq<Seq<Scalar>> {
        self.cols(selector as int)
    }

    open spec fn constraints_at(&self, selector: usize) -> Seq<C> {
        self.trace@[selector as int].constraints@
    }

    open spec fn lookups_at(&self, selector: usize) -> Seq<L> {
        self.trace@[selector as int].lookups@
    }

    open spec fn opcode_of(selector: usize, chosen: usize) -> usize {
        selector
    }

    /// Builds every sub-trace; the selector is not needed.
    fn init(domain_size: usize, selector: usize, env: &mut Env) -> (r: Self) {
        Self::new(domain_size, env)
    }

    fn push_row(&mut self, selector: usize, row: &[Scalar; N_REL]) {
        DecomposedTrace::push_row(self, selector, row);
    }

    fn pad_with_row(&mut self, selector: usize, row: &[Scalar; N_REL]) -> (added: usize) {
        DecomposedTrace::pad_with_row(self, selector, row)
    }

    fn pad_with_zeros(&mut self, selector: usize) -> (added: usize) {
        DecomposedTrace::pad_with_zeros(self, selector)
    }

    fn pad_dummy(&mut self, selector: usize) -> (added: usize) {
        DecomposedTrace::pad_dummy(self, selector)
    }
}

impl<const N: usize, const N_REL: usize, C, L, Env: Interpreter<C, L>> DecomposableTracer<
    N_REL,
    C,
    L,
    Env,
> for DecomposedTrace<N, N_REL, C, L> {
    open spec fn opcode(selector: usize) -> usize {
        selector
    }

    fn new(domain_size: usize, env: &mut Env) -> (r: Self) {
        DecomposedTrace::new(domain_size, env)
    }

    fn pad_witnesses(&mut self) {
        DecomposedTrace::pad_witnesses(self)
    }
}

} // verus!
