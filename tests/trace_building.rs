use o1vm::decomposed::DecomposedTrace;
use o1vm::field::Scalar;
use o1vm::trace::{DecomposableTracer, Interpreter, Trace, Tracer};

/// Hands out one named constraint and one lookup per selector, and counts
/// how often it was asked.
struct NamedOpcodes {
    calls: usize,
}

impl Interpreter<String, usize> for NamedOpcodes {
    fn constraints_of(&mut self, selector: usize) -> Vec<String> {
        self.calls += 1;
        vec![format!("op{}", selector)]
    }

    fn lookups_of(&mut self, selector: usize) -> Vec<usize> {
        vec![selector * 10]
    }
}

/// Four columns: two relation columns, then one selector column for each of
/// the opcodes 0 and 1.
type Circuit = DecomposedTrace<4, 2, String, usize>;

fn s(v: u64) -> Scalar {
    Scalar::from_u64(v)
}

fn column(values: &[u64]) -> Vec<Scalar> {
    values.iter().map(|v| s(*v)).collect()
}

fn circuit(domain_size: usize) -> Circuit {
    let mut env = NamedOpcodes { calls: 0 };
    Circuit::new(domain_size, &mut env)
}

#[test]
fn new_creates_one_empty_subtrace_per_selector() {
    let mut env = NamedOpcodes { calls: 0 };
    let c = Circuit::new(4, &mut env);
    assert_eq!(env.calls, 2);
    assert_eq!(c.trace.len(), 2);
    assert_eq!(c.domain_size, 4);
    for sel in 0..2 {
        assert_eq!(c.trace[sel].domain_size, 4);
        assert_eq!(c.trace[sel].witness.len(), 4);
        assert!(c.trace[sel].witness.iter().all(|col| col.is_empty()));
        assert_eq!(c.trace[sel].constraints, vec![format!("op{}", sel)]);
        assert_eq!(c.trace[sel].lookups, vec![sel * 10]);
        assert!(!c.in_circuit(sel));
        assert_eq!(c.number_of_rows(sel), 0);
    }
}

#[test]
fn decomposable_tracer_new_matches_inherent_new() {
    let mut env = NamedOpcodes { calls: 0 };
    let c = <Circuit as DecomposableTracer<2, String, usize, NamedOpcodes>>::new(8, &mut env);
    assert_eq!(c.domain_size, 8);
    assert_eq!(c.trace.len(), 2);
    let mut env = NamedOpcodes { calls: 0 };
    let c = <Circuit as Tracer<2, String, usize, NamedOpcodes>>::init(8, 1, &mut env);
    assert_eq!(c.trace.len(), 2);
    assert_eq!(env.calls, 2);
}

#[test]
fn push_row_appends_to_relation_columns_only() {
    let mut c = circuit(4);
    c.push_row(1, &[s(1), s(2)]);
    c.push_row(1, &[s(3), s(4)]);
    assert_eq!(c.trace[1].witness[0], column(&[1, 3]));
    assert_eq!(c.trace[1].witness[1], column(&[2, 4]));
    assert!(c.trace[1].witness[2].is_empty());
    assert!(c.trace[1].witness[3].is_empty());
    assert_eq!(c.number_of_rows(1), 2);
    assert!(c.in_circuit(1));
    assert!(!c.in_circuit(0));
    assert!(!c.is_full(1));
}

#[test]
fn push_row_past_domain_size_is_dropped() {
    let mut c = circuit(2);
    assert!(c.push_row(0, &[s(1), s(2)]));
    assert!(c.push_row(0, &[s(3), s(4)]));
    assert!(c.is_full(0));
    assert!(!c.push_row(0, &[s(5), s(6)]));
    assert_eq!(c.number_of_rows(0), 2);
    assert_eq!(c.trace[0].witness[0], column(&[1, 3]));
    assert_eq!(c.trace[0].witness[1], column(&[2, 4]));
}

#[test]
fn pad_with_row_fills_up_to_domain_size() {
    let mut c = circuit(4);
    c.push_row(0, &[s(1), s(2)]);
    let added = c.pad_with_row(0, &[s(7), s(9)]);
    assert_eq!(added, 3);
    assert_eq!(c.trace[0].witness[0], column(&[1, 7, 7, 7]));
    assert_eq!(c.trace[0].witness[1], column(&[2, 9, 9, 9]));
    assert!(c.trace[0].witness[2].is_empty());
    assert!(c.is_full(0));
}

#[test]
fn pad_with_zeros_fills_with_additive_identity() {
    let mut c = circuit(3);
    c.push_row(1, &[s(5), s(6)]);
    let added = c.pad_with_zeros(1);
    assert_eq!(added, 2);
    assert_eq!(c.trace[1].witness[0], column(&[5, 0, 0]));
    assert_eq!(c.trace[1].witness[1], column(&[6, 0, 0]));
    assert_eq!(Scalar::zero(), s(0));
    assert!(c.trace[1].witness[3].is_empty());
}

#[test]
fn pad_dummy_repeats_the_first_row() {
    let mut c = circuit(5);
    c.push_row(0, &[s(1), s(2)]);
    c.push_row(0, &[s(3), s(4)]);
    let added = c.pad_dummy(0);
    assert_eq!(added, 3);
    assert_eq!(c.trace[0].witness[0], column(&[1, 3, 1, 1, 1]));
    assert_eq!(c.trace[0].witness[1], column(&[2, 4, 2, 2, 2]));
}

#[test]
fn padding_a_full_trace_changes_nothing() {
    let mut c = circuit(2);
    c.push_row(0, &[s(1), s(2)]);
    c.push_row(0, &[s(3), s(4)]);
    let before = c.trace[0].witness.clone();
    assert_eq!(c.pad_with_row(0, &[s(8), s(8)]), 0);
    assert_eq!(c.pad_with_zeros(0), 0);
    assert_eq!(c.pad_dummy(0), 0);
    assert_eq!(c.trace[0].witness, before);
}

#[test]
fn padding_an_unused_selector_changes_nothing() {
    let mut c = circuit(4);
    c.push_row(1, &[s(1), s(2)]);
    assert_eq!(c.pad_with_row(0, &[s(8), s(8)]), 0);
    assert_eq!(c.pad_with_zeros(0), 0);
    assert_eq!(c.pad_dummy(0), 0);
    assert!(!c.in_circuit(0));
    assert!(c.trace[0].witness.iter().all(|col| col.is_empty()));
    assert_eq!(c.number_of_rows(1), 1);
}

#[test]
fn pad_dummy_keeps_a_satisfied_constraint_satisfied() {
    // The constraint of this test: the second relation column doubles the first.
    let holds = |a: Scalar, b: Scalar| b.limbs[0] == 2 * a.limbs[0];
    let mut c = circuit(6);
    c.push_row(1, &[s(3), s(6)]);
    c.push_row(1, &[s(5), s(10)]);
    assert_eq!(c.pad_dummy(1), 4);
    let w = &c.trace[1].witness;
    assert_eq!(w[0].len(), 6);
    for j in 0..6 {
        assert!(holds(w[0][j], w[1][j]));
    }
    // Zero padding happens to keep this constraint too, but not one with a
    // constant term: the first row is the safe choice.
    let offset = |a: Scalar, b: Scalar| b.limbs[0] == a.limbs[0] + 1;
    let mut z = circuit(3);
    z.push_row(0, &[s(4), s(5)]);
    z.pad_with_zeros(0);
    assert!(!offset(z.trace[0].witness[0][1], z.trace[0].witness[1][1]));
    let mut d = circuit(3);
    d.push_row(0, &[s(4), s(5)]);
    d.pad_dummy(0);
    for j in 0..3 {
        assert!(offset(d.trace[0].witness[0][j], d.trace[0].witness[1][j]));
    }
}

#[test]
fn set_selector_column_is_one_hot() {
    let mut c = circuit(3);
    c.push_row(1, &[s(1), s(2)]);
    c.pad_dummy(1);
    let rows = c.number_of_rows(1);
    c.set_selector_column(1, rows);
    // Selector 1 owns column N_REL + 1 = 3.
    assert_eq!(c.trace[1].witness[3], vec![Scalar::one(); 3]);
    assert_eq!(c.trace[1].witness[2], vec![Scalar::zero(); 3]);
    assert_eq!(Scalar::one(), s(1));
    // The relation columns are untouched, and all four columns now agree.
    assert_eq!(c.trace[1].witness[0], column(&[1, 1, 1]));
    assert!(c.trace[1].witness.iter().all(|col| col.len() == 3));
    // The other selector's sub-trace is untouched.
    assert!(c.trace[0].witness.iter().all(|col| col.is_empty()));
}

#[test]
fn set_selector_column_for_selector_zero() {
    let mut c = circuit(2);
    c.set_selector_column(0, 2);
    assert_eq!(c.trace[0].witness[2], vec![Scalar::one(); 2]);
    assert_eq!(c.trace[0].witness[3], vec![Scalar::zero(); 2]);
    assert!(c.trace[0].witness[0].is_empty());
}

#[test]
fn columns_keep_equal_lengths_through_the_lifecycle() {
    let mut c = circuit(4);
    let relation_equal = |c: &Circuit, sel: usize| {
        c.trace[sel].witness[0].len() == c.trace[sel].witness[1].len()
            && c.trace[sel].witness[2].len() == c.trace[sel].witness[3].len()
    };
    assert!(relation_equal(&c, 0));
    c.push_row(0, &[s(1), s(2)]);
    assert!(relation_equal(&c, 0));
    c.pad_dummy(0);
    assert!(relation_equal(&c, 0));
    let rows = c.number_of_rows(0);
    c.set_selector_column(0, rows);
    assert!(c.trace[0].witness.iter().all(|col| col.len() == 4));
}

#[test]
fn reset_clears_the_witness_and_keeps_constraints() {
    let mut c = circuit(4);
    c.push_row(0, &[s(1), s(2)]);
    c.push_row(1, &[s(3), s(4)]);
    c.pad_dummy(0);
    c.set_selector_column(0, 4);
    c.reset(0);
    assert!(c.trace[0].witness.iter().all(|col| col.is_empty()));
    assert_eq!(c.trace[0].constraints, vec!["op0".to_string()]);
    assert_eq!(c.trace[0].lookups, vec![0]);
    assert!(!c.in_circuit(0));
    assert_eq!(c.number_of_rows(1), 1);
}

#[test]
fn pad_witnesses_pads_only_selectors_in_circuit() {
    let mut c = circuit(4);
    c.push_row(1, &[s(2), s(3)]);
    c.pad_witnesses();
    assert_eq!(c.trace[1].witness[0], column(&[2, 2, 2, 2]));
    assert_eq!(c.trace[1].witness[1], column(&[3, 3, 3, 3]));
    assert!(c.is_full(1));
    assert!(!c.in_circuit(0));
    assert!(c.trace[0].witness.iter().all(|col| col.is_empty()));
}

#[test]
fn index_returns_the_selected_subtrace() {
    let mut c = circuit(4);
    c.push_row(1, &[s(2), s(3)]);
    assert_eq!(c.index(1).witness[0], column(&[2]));
    assert!(c.index(0).witness[0].is_empty());
}

#[test]
fn tracer_trait_on_decomposed_trace() {
    let mut c = circuit(3);
    <Circuit as Tracer<2, String, usize, NamedOpcodes>>::push_row(&mut c, 0, &[s(1), s(1)]);
    assert_eq!(<Circuit as Tracer<2, String, usize, NamedOpcodes>>::pad_with_row(&mut c, 1, &[s(4), s(4)]), 0);
    assert_eq!(<Circuit as Tracer<2, String, usize, NamedOpcodes>>::pad_with_zeros(&mut c, 0), 2);
    assert_eq!(<Circuit as Tracer<2, String, usize, NamedOpcodes>>::pad_dummy(&mut c, 0), 0);
    assert_eq!(c.trace[0].witness[0], column(&[1, 0, 0]));
    <Circuit as DecomposableTracer<2, String, usize, NamedOpcodes>>::pad_witnesses(&mut c);
    assert_eq!(c.trace[0].witness[0], column(&[1, 0, 0]));
    assert!(!c.in_circuit(1));
}

#[test]
fn tracer_trait_on_a_single_trace() {
    type Single = Trace<3, 2, String, usize>;
    let mut env = NamedOpcodes { calls: 0 };
    let mut t = <Single as Tracer<2, String, usize, NamedOpcodes>>::init(3, 5, &mut env);
    assert_eq!(t.constraints, vec!["op5".to_string()]);
    assert_eq!(t.witness.len(), 3);
    assert_eq!(<Single as Tracer<2, String, usize, NamedOpcodes>>::pad_dummy(&mut t, ()), 0);
    <Single as Tracer<2, String, usize, NamedOpcodes>>::push_row(&mut t, (), &[s(1), s(2)]);
    assert_eq!(<Single as Tracer<2, String, usize, NamedOpcodes>>::pad_with_row(&mut t, (), &[s(3), s(3)]), 2);
    assert_eq!(t.witness[0], column(&[1, 3, 3]));
    assert_eq!(<Single as Tracer<2, String, usize, NamedOpcodes>>::pad_with_zeros(&mut t, ()), 0);
    <Single as Tracer<2, String, usize, NamedOpcodes>>::push_row(&mut t, (), &[s(9), s(9)]);
    assert_eq!(t.witness[1], column(&[2, 3, 3]));
    assert!(t.witness[2].is_empty());
    assert_eq!(t.constraints, vec!["op5".to_string()]);
    assert_eq!(t.lookups, vec![50]);
}

#[test]
fn single_trace_pads_with_zeros_and_first_row() {
    type Single = Trace<3, 2, String, usize>;
    let mut env = NamedOpcodes { calls: 0 };
    let mut t = <Single as Tracer<2, String, usize, NamedOpcodes>>::init(3, 0, &mut env);
    <Single as Tracer<2, String, usize, NamedOpcodes>>::push_row(&mut t, (), &[s(4), s(6)]);
    assert_eq!(<Single as Tracer<2, String, usize, NamedOpcodes>>::pad_dummy(&mut t, ()), 2);
    assert_eq!(t.witness[1], column(&[6, 6, 6]));
    let mut u = <Single as Tracer<2, String, usize, NamedOpcodes>>::init(3, 0, &mut env);
    <Single as Tracer<2, String, usize, NamedOpcodes>>::push_row(&mut u, (), &[s(4), s(6)]);
    assert_eq!(<Single as Tracer<2, String, usize, NamedOpcodes>>::pad_with_zeros(&mut u, ()), 2);
    assert_eq!(u.witness[0], column(&[4, 0, 0]));
}
