use routing_core::ast::Guard;
use routing_core::dir::{Country, DirValue, PaymentMethod};
use routing_core::expansion::{expand_guard, ContextExpander, CtxValue, ExpanderState};

fn country(c: Country) -> DirValue {
    DirValue::Country(c)
}

fn pm(m: PaymentMethod) -> DirValue {
    DirValue::PaymentMethod(m)
}

fn entry_is(e: &CtxValue, v: &DirValue, polarity: bool) -> bool {
    e.polarity == polarity && e.value.equals(v)
}

#[test]
fn or_free_guard_expands_to_single_context() {
    // An AND-only guard yields exactly one conjunctive context holding its
    // direct assertions in guard order.
    let guard = Guard::And(
        Box::new(Guard::Is(country(Country::UnitedStates))),
        Box::new(Guard::Is(pm(PaymentMethod::Card))),
    );
    let branches = expand_guard(&guard);
    assert_eq!(branches.len(), 1);
    assert_eq!(branches[0].len(), 2);
    assert!(entry_is(&branches[0][0], &country(Country::UnitedStates), true));
    assert!(entry_is(&branches[0][1], &pm(PaymentMethod::Card), true));
}

#[test]
fn empty_guard_expands_to_one_empty_context() {
    let branches = expand_guard(&Guard::Always);
    assert_eq!(branches.len(), 1);
    assert_eq!(branches[0].len(), 0);
}

#[test]
fn or_guard_expands_to_one_context_per_disjunct() {
    // Three OR-free disjuncts yield exactly three contexts, in order.
    let guard = Guard::Or(
        Box::new(Guard::Is(country(Country::UnitedStates))),
        Box::new(Guard::Or(
            Box::new(Guard::Is(country(Country::Canada))),
            Box::new(Guard::Is(country(Country::Germany))),
        )),
    );
    let branches = expand_guard(&guard);
    assert_eq!(branches.len(), 3);
    assert!(entry_is(&branches[0][0], &country(Country::UnitedStates), true));
    assert!(entry_is(&branches[1][0], &country(Country::Canada), true));
    assert!(entry_is(&branches[2][0], &country(Country::Germany), true));
}

#[test]
fn membership_guard_expands_per_listed_value() {
    let guard = Guard::AnyOf(vec![country(Country::UnitedStates), country(Country::Canada)]);
    let branches = expand_guard(&guard);
    assert_eq!(branches.len(), 2);
    assert_eq!(branches[0].len(), 1);
    assert_eq!(branches[1].len(), 1);
}

#[test]
fn negated_membership_expands_to_one_denying_context() {
    let guard = Guard::NoneOf(vec![country(Country::UnitedStates), country(Country::Canada)]);
    let branches = expand_guard(&guard);
    assert_eq!(branches.len(), 1);
    assert_eq!(branches[0].len(), 2);
    assert!(entry_is(&branches[0][0], &country(Country::UnitedStates), false));
    assert!(entry_is(&branches[0][1], &country(Country::Canada), false));
}

#[test]
fn conjunction_of_disjunctions_crosses_branches() {
    let guard = Guard::And(
        Box::new(Guard::AnyOf(vec![country(Country::UnitedStates), country(Country::Canada)])),
        Box::new(Guard::AnyOf(vec![pm(PaymentMethod::Card), pm(PaymentMethod::Wallet)])),
    );
    let branches = expand_guard(&guard);
    assert_eq!(branches.len(), 4);
    assert!(entry_is(&branches[0][0], &country(Country::UnitedStates), true));
    assert!(entry_is(&branches[0][1], &pm(PaymentMethod::Card), true));
    assert!(entry_is(&branches[3][0], &country(Country::Canada), true));
    assert!(entry_is(&branches[3][1], &pm(PaymentMethod::Wallet), true));
}

#[test]
fn expander_walks_states_and_mutates_in_place() {
    let guard = Guard::AnyOf(vec![country(Country::UnitedStates), country(Country::Canada)]);
    let mut expander = ContextExpander::new(&guard);
    assert_eq!(expander.state, ExpanderState::Pending);
    assert!(expander.advance());
    assert_eq!(expander.state, ExpanderState::Emitting);
    assert_eq!(expander.context().len(), 1);
    expander.push(CtxValue { value: pm(PaymentMethod::Card), polarity: true });
    assert_eq!(expander.context().len(), 2);
    expander.pop();
    assert_eq!(expander.context().len(), 1);
    assert!(expander.advance());
    assert!(!expander.advance());
    assert_eq!(expander.state, ExpanderState::Exhausted);
}
