use routing_core::dir::{Country, Currency, DirValue};
use routing_core::expansion::CtxValue;
use routing_core::graph::{
    perform_context_analysis, ConstraintGraph, Edge, GraphContradiction, Memoization,
};

fn assert_ctx(v: DirValue) -> CtxValue {
    CtxValue { value: v, polarity: true }
}

fn deny_ctx(v: DirValue) -> CtxValue {
    CtxValue { value: v, polarity: false }
}

fn us() -> DirValue {
    DirValue::Country(Country::UnitedStates)
}

fn india() -> DirValue {
    DirValue::Country(Country::India)
}

fn inr() -> DirValue {
    DirValue::PaymentCurrency(Currency::Inr)
}

fn inr_needs_india() -> ConstraintGraph {
    ConstraintGraph { edges: vec![Edge::NeedsAnyOf(inr(), vec![india()])] }
}

#[test]
fn satisfiable_context_passes_analysis() {
    let g = inr_needs_india();
    let ctx = vec![assert_ctx(inr()), assert_ctx(india())];
    let mut memo = Memoization::new(&g);
    assert!(perform_context_analysis(&g, &ctx, &mut memo).is_ok());
}

#[test]
fn requirement_violation_names_first_offending_entry() {
    // Asserting a different country rules India out, so the INR requirement
    // has no alternative left; the violation completes at position 1.
    let g = inr_needs_india();
    let ctx = vec![assert_ctx(inr()), assert_ctx(us())];
    let mut memo = Memoization::new(&g);
    let err = perform_context_analysis(&g, &ctx, &mut memo).unwrap_err();
    assert_eq!(err.index, 1);
    assert!(err.value.equals(&us()));
}

#[test]
fn exclusion_is_an_immediate_contradiction() {
    let g = ConstraintGraph { edges: vec![Edge::Excludes(us(), inr())] };
    let ctx = vec![assert_ctx(us()), assert_ctx(inr())];
    let mut memo = Memoization::new(&g);
    let err = perform_context_analysis(&g, &ctx, &mut memo).unwrap_err();
    assert_eq!(err.index, 1);
}

#[test]
fn denied_value_clashes_with_its_assertion() {
    let g = ConstraintGraph { edges: vec![] };
    let ctx = vec![deny_ctx(us()), assert_ctx(us())];
    let mut memo = Memoization::new(&g);
    let err = perform_context_analysis(&g, &ctx, &mut memo).unwrap_err();
    assert_eq!(err.index, 1);
}

#[test]
fn warmed_cache_agrees_with_fresh_cache() {
    // Prefix determinism: re-running analysis on an unmodified context with
    // a fresh memoization cache yields the same verdict as with a warmed one.
    let g = inr_needs_india();
    let sat = vec![assert_ctx(inr()), assert_ctx(india())];
    let unsat = vec![assert_ctx(inr()), assert_ctx(us())];

    let mut warmed = Memoization::new(&g);
    let first_sat = perform_context_analysis(&g, &sat, &mut warmed).is_ok();
    let first_unsat = perform_context_analysis(&g, &unsat, &mut warmed).is_ok();
    // Second runs hit the warmed cache.
    let warmed_sat = perform_context_analysis(&g, &sat, &mut warmed).is_ok();
    let warmed_unsat = perform_context_analysis(&g, &unsat, &mut warmed).is_ok();
    // Fresh caches.
    let mut fresh = Memoization::new(&g);
    let fresh_sat = perform_context_analysis(&g, &sat, &mut fresh).is_ok();
    let mut fresh2 = Memoization::new(&g);
    let fresh_unsat = perform_context_analysis(&g, &unsat, &mut fresh2).is_ok();

    assert_eq!(first_sat, warmed_sat);
    assert_eq!(first_unsat, warmed_unsat);
    assert_eq!(warmed_sat, fresh_sat);
    assert_eq!(warmed_unsat, fresh_unsat);
    assert!(fresh_sat);
    assert!(!fresh_unsat);
}

#[test]
fn combine_concatenates_compatible_graphs() {
    let a = ConstraintGraph { edges: vec![Edge::NeedsAnyOf(inr(), vec![india()])] };
    let b = ConstraintGraph { edges: vec![Edge::Excludes(us(), inr())] };
    let combined = ConstraintGraph::combine(&a, &b).unwrap();
    assert_eq!(combined.edges.len(), 2);
}

#[test]
fn combine_rejects_contradictory_fixed_facts() {
    // One graph demands exactly the pair the other forbids.
    let a = ConstraintGraph { edges: vec![Edge::NeedsAnyOf(inr(), vec![us()])] };
    let b = ConstraintGraph { edges: vec![Edge::Excludes(inr(), us())] };
    let err = ConstraintGraph::combine(&a, &b).unwrap_err();
    assert_eq!(err, GraphContradiction { left_index: 0, right_index: 0 });
}
