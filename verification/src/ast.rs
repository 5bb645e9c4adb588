//! Rule abstract syntax: guards, rules and programs.
//!
//! A [`Guard`] is a boolean expression tree over directory-value predicates:
//! equality ([`Guard::Is`]), negated equality ([`Guard::IsNot`]), set
//! membership ([`Guard::AnyOf`]), negated membership ([`Guard::NoneOf`]),
//! conjunction and disjunction. A [`Rule`] pairs a guard with the connector
//! choice it selects; a [`Program`] is an ordered sequence of rules plus a
//! default choice and descriptive metadata.

use vstd::prelude::*;

use crate::dir::{
    clone_bytes, eq_bytes, lemma_bytes_deep_view, ConnectorChoice, ConnectorChoiceModel, DirValue,
    DirValueModel,
};

verus! {

/// A boolean guard over directory-value predicates.
#[derive(Debug)]
pub enum Guard {
    /// The empty guard; always satisfied.
    Always,
    /// The attribute owning the value equals the value.
    Is(DirValue),
    /// The attribute owning the value differs from the value.
    IsNot(DirValue),
    /// The attribute equals one of the listed values (a disjunction).
    AnyOf(Vec<DirValue>),
    /// The attribute equals none of the listed values (a conjunction).
    NoneOf(Vec<DirValue>),
    /// Both sub-guards are satisfied.
    And(Box<Guard>, Box<Guard>),
    /// At least one sub-guard is satisfied.
    Or(Box<Guard>, Box<Guard>),
}

/// Mathematical model of a [`Guard`].
pub enum GuardModel {
    Always,
    Is(DirValueModel),
    IsNot(DirValueModel),
    AnyOf(Seq<DirValueModel>),
    NoneOf(Seq<DirValueModel>),
    And(Box<GuardModel>, Box<GuardModel>),
    Or(Box<GuardModel>, Box<GuardModel>),
}

/// Mathematical model of a guard, recursing through the expression tree.
pub open spec fn guard_model(g: Guard) -> GuardModel
    decreases g,
{
    match g {
        Guard::Always => GuardModel::Always,
        Guard::Is(v) => GuardModel::Is(v.deep_view()),
        Guard::IsNot(v) => GuardModel::IsNot(v.deep_view()),
        Guard::AnyOf(vs) => GuardModel::AnyOf(vs.deep_view()),
        Guard::NoneOf(vs) => GuardModel::NoneOf(vs.deep_view()),
        Guard::And(a, b) => GuardModel::And(Box::new(guard_model(*a)), Box::new(guard_model(*b))),
        Guard::Or(a, b) => GuardModel::Or(Box::new(guard_model(*a)), Box::new(guard_model(*b))),
    }
}

impl DeepView for Guard {
    type V = GuardModel;

    open spec fn deep_view(&self) -> GuardModel {
        guard_model(*self)
    }
}

/// One routing rule: a named guard selecting a connector choice.
#[derive(Debug)]
pub struct Rule {
    pub name: Vec<u8>,
    pub guard: Guard,
    pub output: ConnectorChoice,
}

/// Mathematical model of a [`Rule`].
pub struct RuleModel {
    pub name: Seq<u8>,
    pub guard: GuardModel,
    pub output: ConnectorChoiceModel,
}

impl DeepView for Rule {
    type V = RuleModel;

    open spec fn deep_view(&self) -> RuleModel {
        RuleModel {
            name: self.name.deep_view(),
            guard: self.guard.deep_view(),
            output: self.output.deep_view(),
        }
    }
}

/// A routing policy: rules evaluated in order, with a default choice used when
/// no rule matches, and free-form descriptive metadata.
#[derive(Debug)]
pub struct Program {
    pub default_output: ConnectorChoice,
    pub rules: Vec<Rule>,
    pub metadata: Vec<u8>,
}

/// Mathematical model of a [`Program`].
pub struct ProgramModel {
    pub default_output: ConnectorChoiceModel,
    pub rules: Seq<RuleModel>,
    pub metadata: Seq<u8>,
}

impl DeepView for Program {
    type V = ProgramModel;

    open spec fn deep_view(&self) -> ProgramModel {
        ProgramModel {
            default_output: self.default_output.deep_view(),
            rules: self.rules.deep_view(),
            metadata: self.metadata.deep_view(),
        }
    }
}

fn duplicate_values(vs: &Vec<DirValue>) -> (r: Vec<DirValue>)
    ensures
        r.deep_view() == vs.deep_view(),
{
    let mut r: Vec<DirValue> = Vec::new();
    let mut i: usize = 0;
    while i < vs.len()
        invariant
            i <= vs.len(),
            r@.len() == i,
            forall|j: int| 0 <= j < i ==> r@[j].deep_view() == vs@[j].deep_view(),
        decreases vs.len() - i,
    {
        r.push(vs[i].duplicate());
        i = i + 1;
    }
    assert(r.deep_view() =~= vs.deep_view());
    r
}

fn eq_values(a: &Vec<DirValue>, b: &Vec<DirValue>) -> (r: bool)
    ensures
        r == (a.deep_view() == b.deep_view()),
{
    if a.len() != b.len() {
        assert(a.deep_view().len() != b.deep_view().len());
        return false;
    }
    let mut i: usize = 0;
    while i < a.len()
        invariant
            i <= a.len(),
            a@.len() == b@.len(),
            forall|j: int| 0 <= j < i ==> a@[j].deep_view() == b@[j].deep_view(),
        decreases a.len() - i,
    {
        if !a[i].equals(&b[i]) {
            assert(a.deep_view()[i as int] != b.deep_view()[i as int]);
            return false;
        }
        i = i + 1;
    }
    assert(a.deep_view() =~= b.deep_view());
    true
}

impl Guard {
    /// Structural copy preserving the model.
    pub fn duplicate(&self) -> (r: Guard)
        ensures
            r.deep_view() == self.deep_view(),
        decreases self,
    {
        match self {
            Guard::Always => Guard::Always,
            Guard::Is(v) => Guard::Is(v.duplicate()),
            Guard::IsNot(v) => Guard::IsNot(v.duplicate()),
            Guard::AnyOf(vs) => Guard::AnyOf(duplicate_values(vs)),
            Guard::NoneOf(vs) => Guard::NoneOf(duplicate_values(vs)),
            Guard::And(a, b) => Guard::And(Box::new(a.duplicate()), Box::new(b.duplicate())),
            Guard::Or(a, b) => Guard::Or(Box::new(a.duplicate()), Box::new(b.duplicate())),
        }
    }

    /// Model-level equality of two guards.
    pub fn equals(&self, other: &Guard) -> (r: bool)
        ensures
            r == (self.deep_view() == other.deep_view()),
        decreases self,
    {
        match (self, other) {
            (Guard::Always, Guard::Always) => true,
            (Guard::Is(x), Guard::Is(y)) => x.equals(y),
            (Guard::IsNot(x), Guard::IsNot(y)) => x.equals(y),
            (Guard::AnyOf(x), Guard::AnyOf(y)) => eq_values(x, y),
            (Guard::NoneOf(x), Guard::NoneOf(y)) => eq_values(x, y),
            (Guard::And(a1, b1), Guard::And(a2, b2)) => a1.equals(a2) && b1.equals(b2),
            (Guard::Or(a1, b1), Guard::Or(a2, b2)) => a1.equals(a2) && b1.equals(b2),
            _ => false,
        }
    }
}

impl Rule {
    /// Structural copy preserving the model.
    pub fn duplicate(&self) -> (r: Rule)
        ensures
            r.deep_view() == self.deep_view(),
    {
        broadcast use lemma_bytes_deep_view;

        Rule {
            name: clone_bytes(&self.name),
            guard: self.guard.duplicate(),
            output: self.output.duplicate(),
        }
    }

    /// Model-level equality of two rules.
    pub fn equals(&self, other: &Rule) -> (r: bool)
        ensures
            r == (self.deep_view() == other.deep_view()),
    {
        broadcast use lemma_bytes_deep_view;

        eq_bytes(&self.name, &other.name) && self.guard.equals(&other.guard) && self.output.equals(
            &other.output,
        )
    }
}

} // verus!
