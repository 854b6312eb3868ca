use vstd::prelude::*;

use crate::columns::col_views;
use crate::decomposed::DecomposedTrace;
use crate::field::{Scalar, spec_one};
use rayon::iter::{IndexedParallelIterator, IntoParallelRefIterator, ParallelIterator};

verus! {

/// A commitment to one polynomial, possibly split in chunks.
pub struct PolyComm<G> {
    pub chunks: Vec<G>,
}

/// The evaluations of a polynomial over the evaluation domain of the given
/// size.
pub struct Evaluations {
    pub evals: Vec<Scalar>,
    pub domain_size: usize,
}

/// A polynomial commitment scheme: commits to evaluation tables without
/// blinding. A commitment depends on the table and the domain alone.
///
/// A verified implementation gives `commitment_of`; the default leaves it
/// unspecified, which no `commit_evaluations_non_hiding` can be proved
/// against.
pub trait CommitmentScheme<G> {
    /// The chunks of the commitment to `evals` over the domain of size
    /// `domain_size`.
    closed spec fn commitment_of(&self, evals: Seq<Scalar>, domain_size: nat) -> Seq<G> {
        arbitrary()
    }

    /// Commits to an evaluation table, without blinding.
    fn commit_evaluations_non_hiding(&self, evals: &Evaluations) -> (r: PolyComm<G>)
        ensures
            r.chunks@ == self.commitment_of(evals.evals@, evals.domain_size as nat),
            r.chunks@.len() > 0,
    ;
}

/// A Fiat-Shamir transcript: absorbs group elements and yields challenges.
/// What it yields depends on its state alone, and its state on what was
/// absorbed and drawn.
///
/// A verified implementation gives the three spec functions; the defaults
/// leave them unspecified, which no `absorb_g` or `challenge` can be proved
/// against.
pub trait Transcript<G>: Sized {
    /// The state after absorbing `g`.
    closed spec fn absorbed(self, g: Seq<G>) -> Self {
        arbitrary()
    }

    /// The challenge this state yields next.
    closed spec fn next_challenge(self) -> Scalar {
        arbitrary()
    }

    /// The state after yielding a challenge.
    closed spec fn after_challenge(self) -> Self {
        arbitrary()
    }

    /// Absorbs the group elements `g`, in order.
    fn absorb_g(&mut self, g: &Vec<G>)
        ensures
            *final(self) == old(self).absorbed(g@),
    ;

    /// Draws a challenge.
    fn challenge(&mut self) -> (r: Scalar)
        ensures
            r == old(self).next_challenge(),
            *final(self) == old(self).after_challenge(),
    ;
}

/// The state of `s` after absorbing every commitment of `comms`, in order.
pub open spec fn absorb_all<G, S: Transcript<G>>(s: S, comms: Seq<Seq<G>>) -> S
    decreases comms.len(),
{
    if comms.len() == 0 {
        s
    } else {
        absorb_all(s, comms.drop_last()).absorbed(comms.last())
    }
}

/// The state of `s` after drawing `k` challenges.
pub open spec fn after_challenges<G, S: Transcript<G>>(s: S, k: nat) -> S
    decreases k,
{
    if k == 0 {
        s
    } else {
        after_challenges(s, (k - 1) as nat).after_challenge()
    }
}

/// The challenge drawn `k`-th from state `s`, counting from zero.
pub open spec fn nth_challenge<G, S: Transcript<G>>(s: S, k: nat) -> Scalar {
    after_challenges(s, k).next_challenge()
}

/// The commitments to the given columns, over the domain of the given size.
pub open spec fn commitments_of<G, P: CommitmentScheme<G>>(
    srs: P,
    cols: Seq<Seq<Scalar>>,
    domain_size: nat,
) -> Seq<Seq<G>> {
    Seq::new(cols.len(), |i: int| srs.commitment_of(cols[i], domain_size))
}

/// The four challenges `beta`, `gamma`, `joint_combiner` and `alpha` that the
/// transcript `s` yields once it has absorbed the commitments to `cols`.
pub open spec fn challenges_for<G, S: Transcript<G>, P: CommitmentScheme<G>>(
    s: S,
    srs: P,
    cols: Seq<Seq<Scalar>>,
    domain_size: nat,
) -> Seq<Scalar> {
    let t = absorb_all(s, commitments_of(srs, cols, domain_size));
    seq![nth_challenge(t, 0), nth_challenge(t, 1), nth_challenge(t, 2), nth_challenge(t, 3)]
}

/// The powers of `alpha` that combine constraints, given by `alpha`.
#[derive(Clone, Copy, Debug, PartialEq, Eq)]
pub struct Alphas {
    pub alpha: Scalar,
}

/// The public half of a folding step: the commitment to each column (its
/// first chunk), the challenges `beta`, `gamma` and `joint_combiner`, the
/// powers of `alpha`, and the blinder.
pub struct FoldingInstance<G> {
    pub commitments: Vec<G>,
    pub challenges: [Scalar; 3],
    pub alphas: Alphas,
    pub blinder: Scalar,
}

/// The private half of a folding step: the evaluation table of each column.
pub struct FoldingWitness {
    pub witness: Vec<Evaluations>,
}

impl FoldingWitness {
    /// The evaluations of each column.
    pub open spec fn tables(&self) -> Seq<Seq<Scalar>> {
        self.witness@.map_values(|e: Evaluations| e.evals@)
    }
}

/// `inst` and `wit` are the folding pair of the columns `cols` over the
/// domain of size `domain_size`, for the transcript `s` and the commitment
/// scheme `srs`.
pub open spec fn is_folding_pair<G, S: Transcript<G>, P: CommitmentScheme<G>>(
    cols: Seq<Seq<Scalar>>,
    s: S,
    srs: P,
    domain_size: nat,
    inst: FoldingInstance<G>,
    wit: FoldingWitness,
) -> bool {
    let comms = commitments_of(srs, cols, domain_size);
    let ch = challenges_for(s, srs, cols, domain_size);
    &&& wit.tables() == cols
    &&& forall|i: int|
        0 <= i < wit.witness@.len() ==> (#[trigger] wit.witness@[i]).domain_size == domain_size
    &&& inst.commitments@.len() == cols.len()
    &&& forall|i: int| 0 <= i < cols.len() ==> #[trigger] inst.commitments@[i] == comms[i][0]
    &&& inst.challenges@ == ch.subrange(0, 3)
    &&& inst.alphas.alpha == ch[3]
    &&& inst.blinder == spec_one()
}

/// Traces whose sub-traces can be turned into folding pairs.
pub trait Foldable<C, G, S: Transcript<G>, P: CommitmentScheme<G>>: Sized {
    /// The trace is well formed.
    spec fn inv(&self) -> bool;

    /// The selector names a sub-trace that can be folded.
    spec fn folds(&self, selector: usize) -> bool;

    /// The witness columns of the selected sub-trace.
    spec fn fold_columns(&self, selector: usize) -> Seq<Seq<Scalar>>;

    /// The number of selectors.
    spec fn selector_count(&self) -> nat;

    /// The constraints of the selected sub-trace.
    spec fn fold_constraints(&self, selector: int) -> Seq<C>;

    /// The folding instance and witness of the selected sub-trace: every
    /// column is committed to, the commitments are absorbed in column order,
    /// then `beta`, `gamma`, `joint_combiner` and `alpha` are drawn.
    fn to_folding_pair(&self, selector: usize, fq_sponge: &mut S, domain_size: usize, srs: &P) -> (r: (
        FoldingInstance<G>,
        FoldingWitness,
    ))
        requires
            self.inv(),
            self.folds(selector),
        ensures
            is_folding_pair(
                self.fold_columns(selector),
                *old(fq_sponge),
                *srs,
                domain_size as nat,
                r.0,
                r.1,
            ),
            *final(fq_sponge) == after_challenges(
                absorb_all(
                    *old(fq_sponge),
                    commitments_of(*srs, self.fold_columns(selector), domain_size as nat),
                ),
                4,
            ),
    ;

    /// The constraints of every selector, each rewritten by `convert`.
    fn folding_constraints<D, F: Fn(&C) -> D>(&self, convert: F) -> (r: Vec<Vec<D>>)
        requires
            self.inv(),
            forall|c: &C| #[trigger] convert.requires((c,)),
        ensures
            r@.len() == self.selector_count(),
            forall|s: int|
                0 <= s < self.selector_count() ==> (#[trigger] r@[s])@.len()
                    == self.fold_constraints(s).len(),
            forall|s: int, j: int|
                0 <= s < self.selector_count() && 0 <= j < self.fold_constraints(s).len()
                    ==> convert.ensures((&self.fold_constraints(s)[j],), #[trigger] r@[s]@[j]),
    ;
}

/// A copy of `v`.
fn copy_column(v: &Vec<Scalar>) -> (r: Vec<Scalar>)
    ensures
        r@ == v@,
{
    let mut r: Vec<Scalar> = Vec::new();
    let mut i: usize = 0;
    while i < v.len()
        invariant
            i <= v@.len(),
            r@ == v@.subrange(0, i as int),
        decreases v@.len() - i,
    {
        r.push(v[i]);
        assert(r@ =~= v@.subrange(0, i + 1));
        i = i + 1;
    }
    assert(r@ =~= v@);
    r
}

/// Relies on rayon's `par_iter`, `map` and `collect_into_vec`: an indexed
/// parallel map, whose results are collected in the order of the inputs.
/// Each result is what `commit_evaluations_non_hiding` returns for its table.
#[verifier::external_body]
fn commit_all<G: Send, P: CommitmentScheme<G> + Sync>(srs: &P, tables: &Vec<Evaluations>) -> (r: Vec<
    PolyComm<G>,
>)
    ensures
        r@.len() == tables@.len(),
        forall|i: int|
            0 <= i < tables@.len() ==> (#[trigger] r@[i]).chunks@ == srs.commitment_of(
                tables@[i].evals@,
                tables@[i].domain_size as nat,
            ) && r@[i].chunks@.len() > 0,
{
    let mut r = Vec::new();
    tables.par_iter().map(|t| srs.commit_evaluations_non_hiding(t)).collect_into_vec(&mut r);
    r
}

/// Absorbing one more commitment extends the absorption of a prefix.
proof fn lemma_absorb_prefix<G, S: Transcript<G>>(s: S, comms: Seq<Seq<G>>, i: int)
    requires
        0 <= i < comms.len(),
    ensures
        absorb_all(s, comms.take(i + 1)) == absorb_all(s, comms.take(i)).absorbed(comms[i]),
{
    assert(comms.take(i + 1).drop_last() =~= comms.take(i));
}

impl<const N: usize, const N_REL: usize, C, L> DecomposedTrace<N, N_REL, C, L> {
    /// The folding instance and witness of the given selector's columns.
    /// Commits to every column, absorbs the commitments into the transcript
    /// in column order, then draws `beta`, `gamma`, `joint_combiner` and
    /// `alpha`, in that order. The blinder is one: commitments are not
    /// hiding.
    pub fn to_folding_pair<G: Copy + Send, S: Transcript<G>, P: CommitmentScheme<G> + Sync>(
        &self,
        selector: usize,
        fq_sponge: &mut S,
        domain_size: usize,
        srs: &P,
    ) -> (r: (FoldingInstance<G>, FoldingWitness))
        requires
            self.wf(),
            selector < Self::n_sel(),
        ensures
            is_folding_pair(
                self.cols(selector as int),
                *old(fq_sponge),
                *srs,
                domain_size as nat,
                r.0,
                r.1,
            ),
            *final(fq_sponge) == after_challenges(
                absorb_all(
                    *old(fq_sponge),
                    commitments_of(*srs, self.cols(selector as int), domain_size as nat),
                ),
                4,
            ),
    {
        let ghost cols = self.cols(selector as int);
        let ghost comms_spec = commitments_of(*srs, cols, domain_size as nat);
        let sub = &self.trace[selector];
        assert(cols.len() == N);
        // The evaluation tables.
        let mut witness: Vec<Evaluations> = Vec::new();
        let mut i: usize = 0;
        while i < N
            invariant
                i <= N,
                cols == sub.columns(),
                cols.len() == N,
                sub.witness@.len() == N,
                witness@.len() == i,
                forall|j: int|
                    0 <= j < i ==> (#[trigger] witness@[j]).evals@ == cols[j]
                        && witness@[j].domain_size == domain_size,
            decreases N - i,
        {
            let evals = copy_column(&sub.witness[i]);
            witness.push(Evaluations { evals, domain_size });
            i = i + 1;
        }
        let folding_witness = FoldingWitness { witness };
        assert(folding_witness.tables() =~= cols);
        // The commitments, computed in parallel and collected in column order.
        let comms = commit_all(srs, &folding_witness.witness);
        assert forall|j: int| 0 <= j < N implies (#[trigger] comms@[j]).chunks@ == comms_spec[j]
            && comms@[j].chunks@.len() > 0 by {
            assert(folding_witness.witness@[j].evals@ == cols[j]);
        }
        // Absorption, strictly in column order.
        let ghost s0 = *fq_sponge;
        let mut i: usize = 0;
        while i < N
            invariant
                i <= N,
                comms@.len() == N,
                comms_spec.len() == N,
                forall|j: int| 0 <= j < N ==> (#[trigger] comms@[j]).chunks@ == comms_spec[j],
                *fq_sponge == absorb_all(s0, comms_spec.take(i as int)),
            decreases N - i,
        {
            proof {
                lemma_absorb_prefix(s0, comms_spec, i as int);
            }
            fq_sponge.absorb_g(&comms[i].chunks);
            i = i + 1;
        }
        assert(comms_spec.take(N as int) =~= comms_spec);
        let ghost t = *fq_sponge;
        // The first chunk of each commitment.
        let mut commitments: Vec<G> = Vec::new();
        let mut i: usize = 0;
        while i < N
            invariant
                i <= N,
                comms@.len() == N,
                forall|j: int|
                    0 <= j < N ==> (#[trigger] comms@[j]).chunks@ == comms_spec[j]
                        && comms@[j].chunks@.len() > 0,
                commitments@.len() == i,
                forall|j: int| 0 <= j < i ==> #[trigger] commitments@[j] == comms_spec[j][0],
            decreases N - i,
        {
            commitments.push(comms[i].chunks[0]);
            i = i + 1;
        }
        let beta = fq_sponge.challenge();
        let gamma = fq_sponge.challenge();
        let joint_combiner = fq_sponge.challenge();
        let alpha = fq_sponge.challenge();
        proof {
            reveal_with_fuel(after_challenges, 5);
            assert(after_challenges(t, 1) == t.after_challenge());
            assert(after_challenges(t, 2) == after_challenges(t, 1).after_challenge());
            assert(after_challenges(t, 3) == after_challenges(t, 2).after_challenge());
            assert(after_challenges(t, 4) == after_challenges(t, 3).after_challenge());
        }
        let instance = FoldingInstance {
            commitments,
            challenges: [beta, gamma, joint_combiner],
            alphas: Alphas { alpha },
            blinder: Scalar::one(),
        };
        assert(instance.challenges@ =~= challenges_for(*old(fq_sponge), *srs, cols, domain_size as nat).subrange(0, 3));
        (instance, folding_witness)
    }

    /// The constraints of every selector, each rewritten by `convert` into the
    /// form the folding scheme takes.
    pub fn folding_constraints<D, F: Fn(&C) -> D>(&self, convert: F) -> (r: Vec<Vec<D>>)
        requires
            self.wf(),
            forall|c: &C| #[trigger] convert.requires((c,)),
        ensures
            r@.len() == Self::n_sel(),
            forall|s: int|
                0 <= s < Self::n_sel() ==> (#[trigger] r@[s])@.len()
                    == self.trace@[s].constraints@.len(),
            forall|s: int, j: int|
                0 <= s < Self::n_sel() && 0 <= j < self.trace@[s].constraints@.len()
                    ==> convert.ensures((&self.trace@[s].constraints@[j],), #[trigger] r@[s]@[j]),
    {
        let n_sel: usize = N - N_REL;
        let mut r: Vec<Vec<D>> = Vec::new();
        let mut s: usize = 0;
        while s < n_sel
            invariant
                n_sel == Self::n_sel(),
                self.trace@.len() == n_sel,
                s <= n_sel,
                forall|c: &C| #[trigger] convert.requires((c,)),
                r@.len() == s,
                forall|t: int|
                    0 <= t < s ==> (#[trigger] r@[t])@.len() == self.trace@[t].constraints@.len(),
                forall|t: int, j: int|
                    0 <= t < s && 0 <= j < self.trace@[t].constraints@.len() ==> convert.ensures(
                        (&self.trace@[t].constraints@[j],),
                        #[trigger] r@[t]@[j],
                    ),
            decreases n_sel - s,
        {
            let constraints = &self.trace[s].constraints;
            let mut folded: Vec<D> = Vec::new();
            let mut j: usize = 0;
            while j < constraints.len()
                invariant
                    j <= constraints@.len(),
                    *constraints == self.trace@[s as int].constraints,
                    forall|c: &C| #[trigger] convert.requires((c,)),
                    folded@.len() == j,
                    forall|k: int|
                        0 <= k < j ==> convert.ensures((&constraints@[k],), #[trigger] folded@[k]),
                decreases constraints@.len() - j,
            {
                let e = convert(&constraints[j]);
                folded.push(e);
                j = j + 1;
            }
            r.push(folded);
            s = s + 1;
        }
        r
    }
}

impl<
    const N: usize,
    const N_REL: usize,
    C,
    L,
    G: Copy + Send,
    S: Transcript<G>,
    P: CommitmentScheme<G> + Sync,
> Foldable<C, G, S, P> for DecomposedTrace<N, N_REL, C, L> {
    open spec fn inv(&self) -> bool {
        self.wf()
    }

    open spec fn folds(&self, selector: usize) -> bool {
        selector < Self::n_sel()
    }

    open spec fn fold_columns(&self, selector: usize) -> Seq<Seq<Scalar>> {
        self.cols(selector as int)
    }

    open spec fn selector_count(&self) -> nat {
        Self::n_sel()
    }

    open spec fn fold_constraints(&self, selector: int) -> Seq<C> {
        self.trace@[selector].constraints@
    }

    fn to_folding_pair(&self, selector: usize, fq_sponge: &mut S, domain_size: usize, srs: &P) -> (r: (
        FoldingInstance<G>,
        FoldingWitness,
    )) {
        DecomposedTrace::to_folding_pair(self, selector, fq_sponge, domain_size, srs)
    }

    fn folding_constraints<D, F: Fn(&C) -> D>(&self, convert: F) -> (r: Vec<Vec<D>>) {
        DecomposedTrace::folding_constraints(self, convert)
    }
}

} // verus!
