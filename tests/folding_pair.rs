use o1vm::decomposed::DecomposedTrace;
use o1vm::field::Scalar;
use o1vm::folding::{CommitmentScheme, Evaluations, Foldable, PolyComm, Transcript};
use o1vm::trace::Interpreter;

/// A transcript whose state is a running polynomial hash of what it
/// absorbed; each challenge is the state, and drawing one moves the state on.
#[derive(Clone, Debug, PartialEq)]
struct HashTranscript {
    state: u64,
}

impl Transcript<u64> for HashTranscript {
    fn absorb_g(&mut self, g: &Vec<u64>) {
        for x in g {
            self.state = self.state.wrapping_mul(1_000_003).wrapping_add(*x);
        }
    }

    fn challenge(&mut self) -> Scalar {
        let r = Scalar::from_u64(self.state);
        self.state = self.state.wrapping_mul(31).wrapping_add(7);
        r
    }
}

/// A commitment scheme that commits to a table by a weighted sum of its
/// entries, in two chunks: the sum, and the domain size.
struct WeightedSum;

impl CommitmentScheme<u64> for WeightedSum {
    fn commit_evaluations_non_hiding(&self, evals: &Evaluations) -> PolyComm<u64> {
        let mut acc: u64 = 0;
        for (i, e) in evals.evals.iter().enumerate() {
            acc = acc.wrapping_add((i as u64 + 1).wrapping_mul(e.limbs[0]));
        }
        PolyComm { chunks: vec![acc, evals.domain_size as u64] }
    }
}

struct Blank;

impl Interpreter<String, usize> for Blank {
    fn constraints_of(&mut self, selector: usize) -> Vec<String> {
        vec![format!("a{}", selector), format!("b{}", selector)]
    }

    fn lookups_of(&mut self, _selector: usize) -> Vec<usize> {
        vec![]
    }
}

/// Two relation columns and one selector column.
type Circuit = DecomposedTrace<3, 2, String, usize>;

fn s(v: u64) -> Scalar {
    Scalar::from_u64(v)
}

/// A full trace whose relation columns are `first` and `second`.
fn filled(first: [u64; 4], second: [u64; 4]) -> Circuit {
    let mut c = Circuit::new(4, &mut Blank);
    for j in 0..4 {
        c.push_row(0, &[s(first[j]), s(second[j])]);
    }
    c.set_selector_column(0, 4);
    c
}

fn commit(srs: &WeightedSum, values: &[Scalar]) -> PolyComm<u64> {
    srs.commit_evaluations_non_hiding(&Evaluations { evals: values.to_vec(), domain_size: 4 })
}

#[test]
fn absorption_order_changes_alpha() {
    let srs = WeightedSum;
    let start = HashTranscript { state: 17 };
    let in_order = filled([1, 2, 3, 4], [5, 6, 7, 8]);
    let swapped = filled([5, 6, 7, 8], [1, 2, 3, 4]);
    let mut t1 = start.clone();
    let (i1, _) = in_order.to_folding_pair(0, &mut t1, 4, &srs);
    let mut t2 = start.clone();
    let (i2, _) = swapped.to_folding_pair(0, &mut t2, 4, &srs);
    assert_ne!(i1.alphas.alpha, i2.alphas.alpha);
    assert_ne!(i1.challenges, i2.challenges);
}

#[test]
fn folding_pair_matches_the_protocol() {
    let srs = WeightedSum;
    let c = filled([1, 2, 3, 4], [5, 6, 7, 8]);
    let mut t = HashTranscript { state: 3 };
    let (inst, wit) = c.to_folding_pair(0, &mut t, 4, &srs);
    // The witness holds the three columns, over the domain of size 4.
    assert_eq!(wit.witness.len(), 3);
    for i in 0..3 {
        assert_eq!(wit.witness[i].evals, c.trace[0].witness[i]);
        assert_eq!(wit.witness[i].domain_size, 4);
    }
    // Each commitment is the first chunk of the column's commitment.
    let first = 1 + 2 * 2 + 3 * 3 + 4 * 4;
    assert_eq!(inst.commitments, vec![first, 5 + 2 * 6 + 3 * 7 + 4 * 8, 1 + 2 + 3 + 4]);
    // The transcript absorbed every chunk of every commitment, in column
    // order, then yielded beta, gamma, joint_combiner and alpha.
    let mut expected = HashTranscript { state: 3 };
    for i in 0..3 {
        expected.absorb_g(&commit(&srs, &c.trace[0].witness[i]).chunks);
    }
    let beta = expected.challenge();
    let gamma = expected.challenge();
    let joint_combiner = expected.challenge();
    let alpha = expected.challenge();
    assert_eq!(inst.challenges, [beta, gamma, joint_combiner]);
    assert_eq!(inst.alphas.alpha, alpha);
    assert_eq!(inst.blinder, Scalar::one());
    assert_eq!(t, expected);
    assert_ne!(beta, gamma);
}

#[test]
fn recommitting_the_witness_reproduces_the_challenges() {
    let srs = WeightedSum;
    let c = filled([9, 1, 9, 1], [2, 7, 1, 8]);
    let start = HashTranscript { state: 99 };
    let mut t = start.clone();
    let (inst, wit) = c.to_folding_pair(0, &mut t, 4, &srs);
    let mut again = start.clone();
    for (i, table) in wit.witness.iter().enumerate() {
        let comm = srs.commit_evaluations_non_hiding(table);
        assert_eq!(comm.chunks[0], inst.commitments[i]);
        again.absorb_g(&comm.chunks);
    }
    let drawn: Vec<Scalar> = (0..4).map(|_| again.challenge()).collect();
    assert_eq!(drawn[..3], inst.challenges[..]);
    assert_eq!(drawn[3], inst.alphas.alpha);
}

#[test]
fn folding_constraints_convert_every_selector() {
    let c: DecomposedTrace<4, 2, String, usize> = DecomposedTrace::new(2, &mut Blank);
    let folded = c.folding_constraints(|e: &String| format!("folded {}", e));
    assert_eq!(
        folded,
        vec![
            vec!["folded a0".to_string(), "folded b0".to_string()],
            vec!["folded a1".to_string(), "folded b1".to_string()],
        ]
    );
}

#[test]
fn foldable_trait_gives_the_same_pair() {
    let srs = WeightedSum;
    let c = filled([4, 3, 2, 1], [1, 1, 2, 3]);
    let mut t1 = HashTranscript { state: 5 };
    let (i1, w1) = c.to_folding_pair(0, &mut t1, 4, &srs);
    let mut t2 = HashTranscript { state: 5 };
    let (i2, w2) =
        <Circuit as Foldable<String, u64, HashTranscript, WeightedSum>>::to_folding_pair(
            &c, 0, &mut t2, 4, &srs,
        );
    assert_eq!(i1.commitments, i2.commitments);
    assert_eq!(i1.challenges, i2.challenges);
    assert_eq!(i1.alphas, i2.alphas);
    assert_eq!(w1.witness.len(), w2.witness.len());
    assert_eq!(t1, t2);
    let folded = <Circuit as Foldable<String, u64, HashTranscript, WeightedSum>>::folding_constraints(
        &c,
        |e: &String| e.len(),
    );
    assert_eq!(folded, vec![vec![2, 2]]);
}
