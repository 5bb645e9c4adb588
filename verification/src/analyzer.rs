//! Static analyzer: validate a whole program before deployment.
//!
//! Every rule's guard is expanded into its conjunctive contexts; each context
//! is checked structurally (at most one asserted value per key, the
//! Connector key excepted) and, when a constraint graph is available,
//! validated standalone against the graph's facts. The first contradiction
//! found is reported with the offending rule's position and name and the
//! offending context; nothing is auto-repaired.

use vstd::prelude::*;

use crate::ast::{Program, RuleModel};
use crate::dir::{clone_bytes, key_of, lemma_bytes_deep_view, DirKey};
use crate::expansion::{clone_context, dnf, ContextExpander, CtxValue, CtxValueModel};
use crate::graph::{satisfiable, ConstraintGraph, ConstraintGraphModel, Memoization};

verus! {

/// Whether a context asserts at most one value per key, the Connector key
/// excepted (repeated assertions of one value are allowed).
pub open spec fn structurally_valid(ctx: Seq<CtxValueModel>) -> bool {
    forall|i: int, j: int|
        #![trigger ctx[i], ctx[j]]
        0 <= i < ctx.len() && 0 <= j < ctx.len() && ctx[i].polarity && ctx[j].polarity && key_of(
            ctx[i].value,
        ) == key_of(ctx[j].value) && key_of(ctx[i].value) != DirKey::Connector ==> ctx[i].value
            == ctx[j].value
}

/// Whether one conjunctive context passes analysis: structurally valid, and
/// satisfiable under the graph when one is available.
pub open spec fn context_acceptable(
    og: Option<ConstraintGraphModel>,
    ctx: Seq<CtxValueModel>,
) -> bool {
    structurally_valid(ctx) && match og {
        Option::Some(g) => satisfiable(g, ctx),
        Option::None => true,
    }
}

/// Whether every conjunctive context of a rule's guard passes analysis.
pub open spec fn rule_acceptable(og: Option<ConstraintGraphModel>, r: RuleModel) -> bool {
    forall|k: int|
        0 <= k < dnf(r.guard).len() ==> context_acceptable(og, #[trigger] dnf(r.guard)[k])
}

/// The model of an optional graph reference.
pub open spec fn opt_graph_model(graph: Option<&ConstraintGraph>) -> Option<ConstraintGraphModel> {
    match graph {
        Option::Some(g) => Option::Some(g.deep_view()),
        Option::None => Option::None,
    }
}

/// A program failed analysis: the first offending rule (by position and
/// name) and its first offending conjunctive context.
#[derive(Debug)]
pub struct ContradictionError {
    pub rule_index: usize,
    pub rule_name: Vec<u8>,
    pub context_index: usize,
    pub context: Vec<CtxValue>,
}

#[verifier::loop_isolation(false)]
fn structurally_valid_exec(ctx: &Vec<CtxValue>) -> (r: bool)
    ensures
        r == structurally_valid(ctx.deep_view()),
{
    let n = ctx.len();
    let mut i: usize = 0;
    while i < n
        invariant
            i <= n,
            forall|p: int, q: int|
                #![trigger ctx.deep_view()[p], ctx.deep_view()[q]]
                0 <= p < i && 0 <= q < n && ctx.deep_view()[p].polarity
                    && ctx.deep_view()[q].polarity && key_of(ctx.deep_view()[p].value) == key_of(
                    ctx.deep_view()[q].value,
                ) && key_of(ctx.deep_view()[p].value) != DirKey::Connector ==> (ctx.deep_view()[
                    p
                ]).value == ctx.deep_view()[q].value,
        decreases n - i,
    {
        if ctx[i].polarity {
            let ki = ctx[i].value.key();
            if !(ki == DirKey::Connector) {
                let mut j: usize = 0;
                while j < n
                    invariant
                        j <= n,
                        ctx.deep_view()[i as int].polarity,
                        ki == key_of(ctx.deep_view()[i as int].value),
                        ki != DirKey::Connector,
                        forall|q: int|
                            0 <= q < j && (#[trigger] ctx.deep_view()[q]).polarity && key_of(
                                ctx.deep_view()[q].value,
                            ) == ki ==> (ctx.deep_view()[i as int]).value == ctx.deep_view()[
                                q
                            ].value,
                    decreases n - j,
                {
                    if ctx[j].polarity && ctx[j].value.key() == ki && !ctx[i].value.equals(
                        &ctx[j].value,
                    ) {
                        proof {
                            let cm = ctx.deep_view();
                            assert(cm[i as int] == ctx@[i as int].deep_view());
                            assert(cm[j as int] == ctx@[j as int].deep_view());
                            assert(cm[j as int].polarity);
                            assert(key_of(cm[j as int].value) == ki);
                            assert(cm[i as int].value != cm[j as int].value);
                            assert(!structurally_valid(cm));
                        }
                        return false;
                    }
                    j = j + 1;
                }
            }
        }
        i = i + 1;
    }
    true
}

/// Walk every rule's guard, expand it, and validate every resulting context,
/// standalone against the graph when one is available. Returns the first
/// contradiction found, naming the offending rule and context.
#[verifier::loop_isolation(false)]
pub fn analyze(program: &Program, graph: Option<&ConstraintGraph>) -> (r: Result<
    (),
    ContradictionError,
>)
    ensures
        match r {
            Result::Ok(_) => forall|i: int|
                0 <= i < program.rules@.len() ==> rule_acceptable(
                    opt_graph_model(graph),
                    #[trigger] program.deep_view().rules[i],
                ),
            Result::Err(e) => {
                let og = opt_graph_model(graph);
                let rules = program.deep_view().rules;
                &&& e.rule_index < rules.len()
                &&& !rule_acceptable(og, rules[e.rule_index as int])
                &&& forall|i: int|
                    0 <= i < e.rule_index ==> rule_acceptable(og, #[trigger] rules[i])
                &&& e.rule_name.deep_view() == rules[e.rule_index as int].name
                &&& e.context_index < dnf(rules[e.rule_index as int].guard).len()
                &&& e.context.deep_view() == dnf(rules[e.rule_index as int].guard)[
                    e.context_index as int
                ]
                &&& !context_acceptable(
                    og,
                    dnf(rules[e.rule_index as int].guard)[e.context_index as int],
                )
                &&& forall|k: int|
                    0 <= k < e.context_index ==> context_acceptable(
                        og,
                        #[trigger] dnf(rules[e.rule_index as int].guard)[k],
                    )
            },
        },
{
    broadcast use lemma_bytes_deep_view;

    let ghost og = opt_graph_model(graph);
    let ghost rules = program.deep_view().rules;
    let mut i: usize = 0;
    while i < program.rules.len()
        invariant
            i <= program.rules@.len(),
            forall|p: int| 0 <= p < i ==> rule_acceptable(og, #[trigger] rules[p]),
        decreases program.rules@.len() - i,
    {
        let rule = &program.rules[i];
        let ghost gm = rule.deep_view().guard;
        let mut expander = ContextExpander::new(&rule.guard);
        let ghost total = dnf(gm).len();
        let mut more = expander.advance();
        while more
            invariant
                expander.wf(),
                expander.branch_models() == dnf(gm),
                more ==> 0 < expander.pos <= total && expander.current.deep_view() == dnf(gm)[
                    expander.pos - 1
                ] && (forall|k: int|
                    0 <= k < expander.pos - 1 ==> context_acceptable(og, #[trigger] dnf(gm)[k])),
                !more ==> expander.pos == total && (forall|k: int|
                    0 <= k < total ==> context_acceptable(og, #[trigger] dnf(gm)[k])),
            decreases total - expander.pos + (if more {
                1int
            } else {
                0int
            }),
        {
            let ghost k = (expander.pos - 1) as int;
            let acceptable: bool;
            if !structurally_valid_exec(expander.context()) {
                acceptable = false;
            } else {
                match graph {
                    Option::Some(g) => {
                        let mut memo = Memoization::new(g);
                        acceptable = perform_ok(g, expander.context(), &mut memo);
                    },
                    Option::None => {
                        acceptable = true;
                    },
                }
            }
            if !acceptable {
                assert(!context_acceptable(og, dnf(gm)[k]));
                let err = ContradictionError {
                    rule_index: i,
                    rule_name: clone_bytes(&rule.name),
                    context_index: expander.pos - 1,
                    context: clone_context(expander.context()),
                };
                assert(!rule_acceptable(og, rules[i as int]));
                return Result::Err(err);
            }
            assert(context_acceptable(og, dnf(gm)[k]));
            more = expander.advance();
        }
        assert(rule_acceptable(og, rules[i as int]));
        i = i + 1;
    }
    Result::Ok(())
}

/// Whether the context is satisfiable under the graph, as a plain boolean.
fn perform_ok(g: &ConstraintGraph, ctx: &Vec<CtxValue>, memo: &mut Memoization) -> (r: bool)
    requires
        old(memo).wf(),
        old(memo).graph@ == g.deep_view(),
    ensures
        final(memo).wf(),
        final(memo).graph@ == old(memo).graph@,
        r == satisfiable(g.deep_view(), ctx.deep_view()),
{
    match crate::graph::perform_context_analysis(g, ctx, memo) {
        Result::Ok(_) => true,
        Result::Err(_) => false,
    }
}

} // verus!
