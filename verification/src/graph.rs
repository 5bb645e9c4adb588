//! Constraint graph: a knowledge base of compatibility facts, and the
//! analyzer that decides whether a conjunctive context is satisfiable.
//!
//! Nodes are directory values. An [`Edge::Excludes`] fact makes two asserted
//! values an immediate contradiction; an [`Edge::NeedsAnyOf`] fact demands
//! that, while its anchor is asserted, at least one of the listed values
//! remains possible. A value listed in a requirement becomes impossible
//! ("ruled out") once the context denies it, or asserts a different value for
//! the same key (the Connector key excepted, which may carry several
//! simultaneous candidate assertions).
//!
//! Analysis walks the context in order and reports the first position at
//! which the growing prefix violates a fact. Verdicts are memoized per
//! context; a memo entry is reused only on literal context equality, never on
//! inclusion, so warmed and fresh caches always agree.

use vstd::prelude::*;

use crate::dir::{key_of, DirKey, DirValue, DirValueModel};
use crate::expansion::{clone_context, CtxValue, CtxValueModel};

verus! {

/// One compatibility fact between directory values.
#[derive(Debug)]
pub enum Edge {
    /// The two values may never be asserted together.
    Excludes(DirValue, DirValue),
    /// While the first value is asserted, at least one of the listed values
    /// must remain possible.
    NeedsAnyOf(DirValue, Vec<DirValue>),
}

/// Mathematical model of an [`Edge`].
pub enum EdgeModel {
    Excludes(DirValueModel, DirValueModel),
    NeedsAnyOf(DirValueModel, Seq<DirValueModel>),
}

impl DeepView for Edge {
    type V = EdgeModel;

    open spec fn deep_view(&self) -> EdgeModel {
        match self {
            Edge::Excludes(a, b) => EdgeModel::Excludes(a.deep_view(), b.deep_view()),
            Edge::NeedsAnyOf(a, s) => EdgeModel::NeedsAnyOf(a.deep_view(), s.deep_view()),
        }
    }
}

/// An immutable knowledge base of compatibility facts.
#[derive(Debug)]
pub struct ConstraintGraph {
    pub edges: Vec<Edge>,
}

/// Mathematical model of a [`ConstraintGraph`].
pub struct ConstraintGraphModel {
    pub edges: Seq<EdgeModel>,
}

impl DeepView for ConstraintGraph {
    type V = ConstraintGraphModel;

    open spec fn deep_view(&self) -> ConstraintGraphModel {
        ConstraintGraphModel { edges: self.edges.deep_view() }
    }
}

/// Whether context entry `c` makes value `b` impossible: `b` is denied
/// outright, or a different value is asserted for `b`'s key (except for the
/// Connector key, which admits several simultaneous assertions).
pub open spec fn rules_out(c: CtxValueModel, b: DirValueModel) -> bool {
    ||| (!c.polarity && c.value == b)
    ||| (c.polarity && key_of(c.value) == key_of(b) && c.value != b && key_of(b)
        != DirKey::Connector)
}

/// Whether the first `n` context entries make value `b` impossible.
pub open spec fn ruled_out(ctx: Seq<CtxValueModel>, n: int, b: DirValueModel) -> bool {
    exists|j: int| 0 <= j < n && rules_out(#[trigger] ctx[j], b)
}

/// Whether the first `n` context entries assert value `a`.
pub open spec fn asserted_in(ctx: Seq<CtxValueModel>, n: int, a: DirValueModel) -> bool {
    exists|j: int| 0 <= j < n && (#[trigger] ctx[j]).polarity && ctx[j].value == a
}

/// Whether at least one of the values in `s` is still possible under the
/// first `n` context entries.
pub open spec fn needs_met(ctx: Seq<CtxValueModel>, n: int, s: Seq<DirValueModel>) -> bool {
    exists|b: int| 0 <= b < s.len() && !ruled_out(ctx, n, #[trigger] s[b])
}

/// Whether the first `n` context entries respect one fact.
pub open spec fn edge_respected(ctx: Seq<CtxValueModel>, n: int, e: EdgeModel) -> bool {
    match e {
        EdgeModel::Excludes(a, b) => !(asserted_in(ctx, n, a) && asserted_in(ctx, n, b)),
        EdgeModel::NeedsAnyOf(a, s) => asserted_in(ctx, n, a) ==> needs_met(ctx, n, s),
    }
}

/// Whether the first `n` context entries never both assert and deny one
/// value.
pub open spec fn no_direct_clash(ctx: Seq<CtxValueModel>, n: int) -> bool {
    forall|i: int, j: int|
        #![trigger ctx[i], ctx[j]]
        0 <= i < n && 0 <= j < n && ctx[i].polarity && !ctx[j].polarity ==> ctx[i].value
            != ctx[j].value
}

/// Whether the first `n` context entries are jointly satisfiable under the
/// graph's facts.
pub open spec fn prefix_ok(g: ConstraintGraphModel, ctx: Seq<CtxValueModel>, n: int) -> bool {
    &&& no_direct_clash(ctx, n)
    &&& forall|e: int| 0 <= e < g.edges.len() ==> edge_respected(ctx, n, #[trigger] g.edges[e])
}

/// Whether the whole context is jointly satisfiable under the graph's facts.
pub open spec fn satisfiable(g: ConstraintGraphModel, ctx: Seq<CtxValueModel>) -> bool {
    prefix_ok(g, ctx, ctx.len() as int)
}

/// Growing a prefix never repairs a violation: satisfiability of a longer
/// prefix implies satisfiability of every shorter one.
pub proof fn lemma_prefix_ok_antitone(
    g: ConstraintGraphModel,
    ctx: Seq<CtxValueModel>,
    m: int,
    n: int,
)
    requires
        0 <= m <= n,
        prefix_ok(g, ctx, n),
    ensures
        prefix_ok(g, ctx, m),
{
    assert forall|e: int| 0 <= e < g.edges.len() implies edge_respected(
        ctx,
        m,
        #[trigger] g.edges[e],
    ) by {
        assert(edge_respected(ctx, n, g.edges[e]));
        match g.edges[e] {
            EdgeModel::Excludes(a, b) => {
                assert(asserted_in(ctx, m, a) ==> asserted_in(ctx, n, a));
                assert(asserted_in(ctx, m, b) ==> asserted_in(ctx, n, b));
            },
            EdgeModel::NeedsAnyOf(a, s) => {
                if asserted_in(ctx, m, a) {
                    assert(asserted_in(ctx, n, a));
                    assert(needs_met(ctx, n, s));
                    let b = choose|b: int| 0 <= b < s.len() && !ruled_out(ctx, n, #[trigger] s[b]);
                    assert(!ruled_out(ctx, m, s[b]));
                    assert(needs_met(ctx, m, s));
                }
            },
        }
    }
}

/// The index of the first context entry whose arrival violates a fact,
/// scanning from position `i`.
pub open spec fn first_violation_from(
    g: ConstraintGraphModel,
    ctx: Seq<CtxValueModel>,
    i: nat,
) -> Option<nat>
    decreases ctx.len() - i,
{
    if i >= ctx.len() {
        None
    } else if !prefix_ok(g, ctx, (i + 1) as int) {
        Some(i)
    } else {
        first_violation_from(g, ctx, (i + 1) as nat)
    }
}

/// The index of the first context entry whose arrival violates a fact, if
/// any.
pub open spec fn first_violation(g: ConstraintGraphModel, ctx: Seq<CtxValueModel>) -> Option<nat> {
    first_violation_from(g, ctx, 0)
}

proof fn lemma_fv_bounds(g: ConstraintGraphModel, ctx: Seq<CtxValueModel>, i: nat, v: nat)
    requires
        first_violation_from(g, ctx, i) == Some(v),
    ensures
        i <= v < ctx.len(),
        !prefix_ok(g, ctx, (v + 1) as int),
    decreases ctx.len() - i,
{
    if i >= ctx.len() {
    } else if !prefix_ok(g, ctx, (i + 1) as int) {
    } else {
        lemma_fv_bounds(g, ctx, (i + 1) as nat, v);
    }
}

/// Scanning may start at any prefix already known to be satisfiable.
proof fn lemma_fv_reach(g: ConstraintGraphModel, ctx: Seq<CtxValueModel>, i: nat)
    requires
        i <= ctx.len(),
        prefix_ok(g, ctx, i as int),
    ensures
        first_violation_from(g, ctx, 0) == first_violation_from(g, ctx, i),
    decreases i,
{
    if i > 0 {
        lemma_prefix_ok_antitone(g, ctx, (i - 1) as int, i as int);
        lemma_fv_reach(g, ctx, (i - 1) as nat);
        assert(prefix_ok(g, ctx, ((i - 1) + 1) as int));
        assert(first_violation_from(g, ctx, (i - 1) as nat) == first_violation_from(g, ctx, i));
    }
}

proof fn lemma_fv_none_of_sat(g: ConstraintGraphModel, ctx: Seq<CtxValueModel>, i: nat)
    requires
        i <= ctx.len(),
        satisfiable(g, ctx),
    ensures
        first_violation_from(g, ctx, i) == None::<nat>,
    decreases ctx.len() - i,
{
    if i < ctx.len() {
        lemma_prefix_ok_antitone(g, ctx, (i + 1) as int, ctx.len() as int);
        lemma_fv_none_of_sat(g, ctx, (i + 1) as nat);
    }
}

/// A context is satisfiable exactly when the scan finds no violation.
pub proof fn lemma_first_violation_none(g: ConstraintGraphModel, ctx: Seq<CtxValueModel>)
    ensures
        (first_violation(g, ctx) == None::<nat>) <==> satisfiable(g, ctx),
{
    if satisfiable(g, ctx) {
        lemma_fv_none_of_sat(g, ctx, 0);
    } else {
        if first_violation(g, ctx) == None::<nat> {
            lemma_fv_none_implies_sat(g, ctx, 0);
        }
    }
}

proof fn lemma_fv_none_implies_sat(g: ConstraintGraphModel, ctx: Seq<CtxValueModel>, i: nat)
    requires
        i <= ctx.len(),
        first_violation_from(g, ctx, i) == None::<nat>,
        prefix_ok(g, ctx, i as int),
    ensures
        satisfiable(g, ctx),
    decreases ctx.len() - i,
{
    if i < ctx.len() {
        lemma_fv_none_implies_sat(g, ctx, (i + 1) as nat);
    }
}

fn rules_out_exec(c: &CtxValue, b: &DirValue) -> (r: bool)
    ensures
        r == rules_out(c.deep_view(), b.deep_view()),
{
    if !c.polarity {
        c.value.equals(b)
    } else {
        let kc = c.value.key();
        let kb = b.key();
        kc == kb && !c.value.equals(b) && !(kb == DirKey::Connector)
    }
}

#[verifier::loop_isolation(false)]
fn ruled_out_exec(ctx: &Vec<CtxValue>, n: usize, b: &DirValue) -> (r: bool)
    requires
        n <= ctx@.len(),
    ensures
        r == ruled_out(ctx.deep_view(), n as int, b.deep_view()),
{
    let mut j: usize = 0;
    while j < n
        invariant
            j <= n,
            forall|k: int| 0 <= k < j ==> !rules_out(ctx.deep_view()[k], b.deep_view()),
        decreases n - j,
    {
        if rules_out_exec(&ctx[j], b) {
            assert(rules_out(ctx.deep_view()[j as int], b.deep_view()));
            return true;
        }
        j = j + 1;
    }
    false
}

#[verifier::loop_isolation(false)]
fn asserted_in_exec(ctx: &Vec<CtxValue>, n: usize, a: &DirValue) -> (r: bool)
    requires
        n <= ctx@.len(),
    ensures
        r == asserted_in(ctx.deep_view(), n as int, a.deep_view()),
{
    let mut j: usize = 0;
    while j < n
        invariant
            j <= n,
            forall|k: int|
                0 <= k < j ==> !((#[trigger] ctx.deep_view()[k]).polarity && ctx.deep_view()[k].value
                    == a.deep_view()),
        decreases n - j,
    {
        if ctx[j].polarity && ctx[j].value.equals(a) {
            assert(ctx.deep_view()[j as int].polarity && ctx.deep_view()[j as int].value
                == a.deep_view());
            return true;
        }
        j = j + 1;
    }
    false
}

#[verifier::loop_isolation(false)]
fn needs_met_exec(ctx: &Vec<CtxValue>, n: usize, s: &Vec<DirValue>) -> (r: bool)
    requires
        n <= ctx@.len(),
    ensures
        r == needs_met(ctx.deep_view(), n as int, s.deep_view()),
{
    let mut b: usize = 0;
    while b < s.len()
        invariant
            b <= s@.len(),
            forall|k: int|
                0 <= k < b ==> ruled_out(ctx.deep_view(), n as int, #[trigger] s.deep_view()[k]),
        decreases s@.len() - b,
    {
        if !ruled_out_exec(ctx, n, &s[b]) {
            assert(!ruled_out(ctx.deep_view(), n as int, s.deep_view()[b as int]));
            return true;
        }
        b = b + 1;
    }
    false
}

fn edge_respected_exec(ctx: &Vec<CtxValue>, n: usize, e: &Edge) -> (r: bool)
    requires
        n <= ctx@.len(),
    ensures
        r == edge_respected(ctx.deep_view(), n as int, e.deep_view()),
{
    match e {
        Edge::Excludes(a, b) => !(asserted_in_exec(ctx, n, a) && asserted_in_exec(ctx, n, b)),
        Edge::NeedsAnyOf(a, s) => !asserted_in_exec(ctx, n, a) || needs_met_exec(ctx, n, s),
    }
}

#[verifier::loop_isolation(false)]
fn no_direct_clash_exec(ctx: &Vec<CtxValue>, n: usize) -> (r: bool)
    requires
        n <= ctx@.len(),
    ensures
        r == no_direct_clash(ctx.deep_view(), n as int),
{
    let mut i: usize = 0;
    while i < n
        invariant
            i <= n,
            forall|p: int, q: int|
                #![trigger ctx.deep_view()[p], ctx.deep_view()[q]]
                0 <= p < i && 0 <= q < n && ctx.deep_view()[p].polarity
                    && !ctx.deep_view()[q].polarity ==> ctx.deep_view()[p].value
                    != ctx.deep_view()[q].value,
        decreases n - i,
    {
        if ctx[i].polarity {
            let mut j: usize = 0;
            while j < n
                invariant
                    j <= n,
                    ctx.deep_view()[i as int].polarity,
                    forall|q: int|
                        0 <= q < j && !(#[trigger] ctx.deep_view()[q]).polarity ==> (ctx.deep_view()[
                            i as int
                        ]).value != ctx.deep_view()[q].value,
                decreases n - j,
            {
                if !ctx[j].polarity && ctx[i].value.equals(&ctx[j].value) {
                    assert(ctx.deep_view()[i as int].polarity && !ctx.deep_view()[j as int].polarity
                        && ctx.deep_view()[i as int].value == ctx.deep_view()[j as int].value);
                    return false;
                }
                j = j + 1;
            }
        }
        i = i + 1;
    }
    true
}

#[verifier::loop_isolation(false)]
fn prefix_ok_exec(g: &ConstraintGraph, ctx: &Vec<CtxValue>, n: usize) -> (r: bool)
    requires
        n <= ctx@.len(),
    ensures
        r == prefix_ok(g.deep_view(), ctx.deep_view(), n as int),
{
    if !no_direct_clash_exec(ctx, n) {
        return false;
    }
    let mut e: usize = 0;
    while e < g.edges.len()
        invariant
            e <= g.edges@.len(),
            forall|k: int|
                0 <= k < e ==> edge_respected(
                    ctx.deep_view(),
                    n as int,
                    #[trigger] g.deep_view().edges[k],
                ),
        decreases g.edges@.len() - e,
    {
        if !edge_respected_exec(ctx, n, &g.edges[e]) {
            assert(!edge_respected(ctx.deep_view(), n as int, g.deep_view().edges[e as int]));
            return false;
        }
        e = e + 1;
    }
    true
}

/// Model-level equality of two contexts.
pub fn eq_context(a: &Vec<CtxValue>, b: &Vec<CtxValue>) -> (r: bool)
    ensures
        r == (a.deep_view() == b.deep_view()),
{
    if a.len() != b.len() {
        assert(a.deep_view().len() != b.deep_view().len());
        return false;
    }
    let mut i: usize = 0;
    while i < a.len()
        invariant
            i <= a@.len(),
            a@.len() == b@.len(),
            forall|j: int| 0 <= j < i ==> a@[j].deep_view() == b@[j].deep_view(),
        decreases a@.len() - i,
    {
        if !(a[i].polarity == b[i].polarity && a[i].value.equals(&b[i].value)) {
            assert(a.deep_view()[i as int] != b.deep_view()[i as int]);
            return false;
        }
        i = i + 1;
    }
    assert(a.deep_view() =~= b.deep_view());
    true
}

/// A context found unsatisfiable: the position of the first entry whose
/// arrival violated a fact, and that entry's value.
#[derive(Debug)]
pub struct AnalysisError {
    pub index: usize,
    pub value: DirValue,
}

/// Whether a stored verdict agrees with the scan of the given context.
pub open spec fn verdict_matches(
    g: ConstraintGraphModel,
    ctx: Seq<CtxValueModel>,
    v: Option<usize>,
) -> bool {
    match v {
        Option::None => first_violation(g, ctx) == None::<nat>,
        Option::Some(i) => first_violation(g, ctx) == Some(i as nat),
    }
}

/// One cache entry: a context and the position of its first violated entry
/// (`None` when the context is satisfiable).
pub struct MemoEntry {
    pub context: Vec<CtxValue>,
    pub verdict: Option<usize>,
}

/// Per-analysis cache of satisfiability verdicts, keyed by literal context
/// equality. Scoped to one graph: entries are never reused across graphs,
/// because the facts may differ.
pub struct Memoization {
    pub entries: Vec<MemoEntry>,
    pub graph: Ghost<ConstraintGraphModel>,
}

impl Memoization {
    /// Every stored verdict agrees with the scan of its context.
    pub open spec fn wf(&self) -> bool {
        forall|k: int|
            0 <= k < self.entries@.len() ==> verdict_matches(
                self.graph@,
                (#[trigger] self.entries@[k]).context.deep_view(),
                self.entries@[k].verdict,
            )
    }

    /// An empty cache scoped to the given graph.
    pub fn new(g: &ConstraintGraph) -> (m: Memoization)
        ensures
            m.wf(),
            m.graph@ == g.deep_view(),
            m.entries@.len() == 0,
    {
        Memoization { entries: Vec::new(), graph: Ghost(g.deep_view()) }
    }
}

/// What analysis promises: `Ok` exactly on satisfiable contexts, and an error
/// naming the first violating entry otherwise. The verdict depends on the
/// graph and the context alone, never on the memoization state.
pub open spec fn analysis_result_matches(
    g: ConstraintGraphModel,
    ctx: Seq<CtxValueModel>,
    r: Result<(), AnalysisError>,
) -> bool {
    match r {
        Result::Ok(_) => satisfiable(g, ctx) && first_violation(g, ctx) == None::<nat>,
        Result::Err(e) => !satisfiable(g, ctx) && first_violation(g, ctx) == Some(e.index as nat)
            && e.index < ctx.len() && e.value.deep_view() == ctx[e.index as int].value,
    }
}

/// Decide whether every assertion in the context is jointly satisfiable
/// under the graph's facts, reusing or filling the memoization cache.
#[verifier::loop_isolation(false)]
pub fn perform_context_analysis(
    g: &ConstraintGraph,
    ctx: &Vec<CtxValue>,
    memo: &mut Memoization,
) -> (r: Result<(), AnalysisError>)
    requires
        old(memo).wf(),
        old(memo).graph@ == g.deep_view(),
    ensures
        final(memo).wf(),
        final(memo).graph@ == old(memo).graph@,
        analysis_result_matches(g.deep_view(), ctx.deep_view(), r),
{
    let ghost gm = g.deep_view();
    let ghost cm = ctx.deep_view();

    let mut k: usize = 0;
    while k < memo.entries.len()
        invariant
            *memo == *old(memo),
            k <= memo.entries@.len(),
        decreases memo.entries@.len() - k,
    {
        if eq_context(&memo.entries[k].context, ctx) {
            assert(verdict_matches(gm, cm, memo.entries@[k as int].verdict));
            match memo.entries[k].verdict {
                Option::None => {
                    proof {
                        lemma_first_violation_none(gm, cm);
                    }
                    return Result::Ok(());
                },
                Option::Some(i) => {
                    proof {
                        lemma_fv_bounds(gm, cm, 0, i as nat);
                        lemma_first_violation_none(gm, cm);
                    }
                    let value = ctx[i].value.duplicate();
                    return Result::Err(AnalysisError { index: i, value });
                },
            }
        }
        k = k + 1;
    }

    let n = ctx.len();
    let mut i: usize = 0;
    let mut bad: Option<usize> = Option::None;
    while i < n && bad.is_none()
        invariant
            *memo == *old(memo),
            i <= n,
            bad is None ==> prefix_ok(gm, cm, i as int),
            match bad {
                Option::None => true,
                Option::Some(v) => first_violation(gm, cm) == Some(v as nat) && (v as int) < cm.len(),
            },
        decreases n - i + (if bad is None { 1int } else { 0int }),
    {
        if prefix_ok_exec(g, ctx, i + 1) {
            i = i + 1;
        } else {
            proof {
                lemma_fv_reach(gm, cm, i as nat);
                assert(first_violation_from(gm, cm, i as nat) == Some(i as nat));
            }
            bad = Option::Some(i);
        }
    }
    proof {
        if bad is None {
            assert(i == n);
            assert(satisfiable(gm, cm));
            lemma_first_violation_none(gm, cm);
        } else {
            lemma_first_violation_none(gm, cm);
        }
    }

    let stored = clone_context(ctx);
    let entry = MemoEntry { context: stored, verdict: bad };
    memo.entries.push(entry);
    proof {
        assert forall|q: int| 0 <= q < memo.entries@.len() implies verdict_matches(
            memo.graph@,
            (#[trigger] memo.entries@[q]).context.deep_view(),
            memo.entries@[q].verdict,
        ) by {
            if q < memo.entries@.len() - 1 {
                assert(verdict_matches(
                    old(memo).graph@,
                    old(memo).entries@[q].context.deep_view(),
                    old(memo).entries@[q].verdict,
                ));
            }
        }
    }

    match bad {
        Option::None => Result::Ok(()),
        Option::Some(v) => {
            let value = ctx[v].value.duplicate();
            Result::Err(AnalysisError { index: v, value })
        },
    }
}

/// Graph analysis is prefix-deterministic: two runs over the same graph and
/// the same unmodified context return the same verdict, whether each run's
/// memoization cache was fresh or warmed.
pub proof fn lemma_analysis_deterministic(
    g: ConstraintGraphModel,
    ctx: Seq<CtxValueModel>,
    r1: Result<(), AnalysisError>,
    r2: Result<(), AnalysisError>,
)
    requires
        analysis_result_matches(g, ctx, r1),
        analysis_result_matches(g, ctx, r2),
    ensures
        r1 is Ok <==> r2 is Ok,
        r1 is Err && r2 is Err ==> (r1->Err_0).index == (r2->Err_0).index
            && (r1->Err_0).value.deep_view() == (r2->Err_0).value.deep_view(),
{
}

/// Whether two facts contradict each other: one forbids a pair of values
/// that the other demands outright (a requirement with exactly one
/// alternative).
pub open spec fn edges_conflict(e1: EdgeModel, e2: EdgeModel) -> bool {
    match (e1, e2) {
        (EdgeModel::Excludes(x, y), EdgeModel::NeedsAnyOf(a, s)) => (a == x && s == seq![y]) || (a
            == y && s == seq![x]),
        (EdgeModel::NeedsAnyOf(a, s), EdgeModel::Excludes(x, y)) => (a == x && s == seq![y]) || (a
            == y && s == seq![x]),
        _ => false,
    }
}

/// Whether two graphs declare contradictory fixed facts.
pub open spec fn graphs_conflict(g1: ConstraintGraphModel, g2: ConstraintGraphModel) -> bool {
    exists|i: int, j: int|
        0 <= i < g1.edges.len() && 0 <= j < g2.edges.len() && edges_conflict(
            #[trigger] g1.edges[i],
            #[trigger] g2.edges[j],
        )
}

/// Two graphs declared contradictory fixed facts: the positions of the two
/// conflicting edges.
#[derive(Clone, Copy, Debug, PartialEq, Eq, Structural)]
pub struct GraphContradiction {
    pub left_index: usize,
    pub right_index: usize,
}

fn needs_contradicts_excludes(a: &DirValue, s: &Vec<DirValue>, x: &DirValue, y: &DirValue) -> (r:
    bool)
    ensures
        r == ((a.deep_view() == x.deep_view() && s.deep_view() == seq![y.deep_view()]) || (
        a.deep_view() == y.deep_view() && s.deep_view() == seq![x.deep_view()])),
{
    if s.len() != 1 {
        proof {
            assert(s.deep_view().len() == s@.len());
        }
        return false;
    }
    let first_x = s[0].equals(x);
    let first_y = s[0].equals(y);
    let ax = a.equals(x);
    let ay = a.equals(y);
    proof {
        assert(s.deep_view() =~= seq![s@[0].deep_view()]);
        if first_y {
            assert(s.deep_view() =~= seq![y.deep_view()]);
        } else {
            assert(s.deep_view()[0] != y.deep_view());
            assert(seq![y.deep_view()][0] == y.deep_view());
        }
        if first_x {
            assert(s.deep_view() =~= seq![x.deep_view()]);
        } else {
            assert(s.deep_view()[0] != x.deep_view());
            assert(seq![x.deep_view()][0] == x.deep_view());
        }
    }
    (ax && first_y) || (ay && first_x)
}

fn edges_conflict_exec(e1: &Edge, e2: &Edge) -> (r: bool)
    ensures
        r == edges_conflict(e1.deep_view(), e2.deep_view()),
{
    match (e1, e2) {
        (Edge::Excludes(x, y), Edge::NeedsAnyOf(a, s)) => needs_contradicts_excludes(a, s, x, y),
        (Edge::NeedsAnyOf(a, s), Edge::Excludes(x, y)) => needs_contradicts_excludes(a, s, x, y),
        _ => false,
    }
}

impl ConstraintGraph {
    /// Merge two knowledge bases, left facts first. Fails, naming the two
    /// offending facts, when the graphs declare contradictory fixed facts.
    #[verifier::loop_isolation(false)]
    pub fn combine(left: &ConstraintGraph, right: &ConstraintGraph) -> (r: Result<
        ConstraintGraph,
        GraphContradiction,
    >)
        ensures
            match r {
                Result::Ok(g) => !graphs_conflict(left.deep_view(), right.deep_view())
                    && g.deep_view().edges == left.deep_view().edges + right.deep_view().edges,
                Result::Err(e) => graphs_conflict(left.deep_view(), right.deep_view())
                    && e.left_index < left.edges@.len() && e.right_index < right.edges@.len()
                    && edges_conflict(
                    left.deep_view().edges[e.left_index as int],
                    right.deep_view().edges[e.right_index as int],
                ),
            },
    {
        let mut i: usize = 0;
        while i < left.edges.len()
            invariant
                i <= left.edges@.len(),
                forall|p: int, q: int|
                    0 <= p < i && 0 <= q < right.edges@.len() ==> !edges_conflict(
                        #[trigger] left.deep_view().edges[p],
                        #[trigger] right.deep_view().edges[q],
                    ),
            decreases left.edges@.len() - i,
        {
            let mut j: usize = 0;
            while j < right.edges.len()
                invariant
                    j <= right.edges@.len(),
                    forall|q: int|
                        0 <= q < j ==> !edges_conflict(
                            left.deep_view().edges[i as int],
                            #[trigger] right.deep_view().edges[q],
                        ),
                decreases right.edges@.len() - j,
            {
                if edges_conflict_exec(&left.edges[i], &right.edges[j]) {
                    proof {
                        assert(left.deep_view().edges[i as int] == left.edges@[i as int].deep_view());
                        assert(right.deep_view().edges[j as int] == right.edges@[
                            j as int
                        ].deep_view());
                        assert(edges_conflict(
                            left.deep_view().edges[i as int],
                            right.deep_view().edges[j as int],
                        ));
                        assert(graphs_conflict(left.deep_view(), right.deep_view()));
                    }
                    return Result::Err(GraphContradiction { left_index: i, right_index: j });
                }
                j = j + 1;
            }
            i = i + 1;
        }
        let mut edges = clone_edges(&left.edges);
        let mut more = clone_edges(&right.edges);
        let ghost le = edges.deep_view();
        let ghost re = more.deep_view();
        edges.append(&mut more);
        assert(edges.deep_view() =~= le + re);
        Result::Ok(ConstraintGraph { edges })
    }
}

fn clone_edges(es: &Vec<Edge>) -> (r: Vec<Edge>)
    ensures
        r.deep_view() == es.deep_view(),
{
    let mut r: Vec<Edge> = Vec::new();
    let mut i: usize = 0;
    while i < es.len()
        invariant
            i <= es@.len(),
            r@.len() == i,
            forall|j: int| 0 <= j < i ==> r@[j].deep_view() == es@[j].deep_view(),
        decreases es@.len() - i,
    {
        let e = match &es[i] {
            Edge::Excludes(a, b) => Edge::Excludes(a.duplicate(), b.duplicate()),
            Edge::NeedsAnyOf(a, s) => Edge::NeedsAnyOf(a.duplicate(), duplicate_value_list(s)),
        };
        r.push(e);
        i = i + 1;
    }
    assert(r.deep_view() =~= es.deep_view());
    r
}

fn duplicate_value_list(vs: &Vec<DirValue>) -> (r: Vec<DirValue>)
    ensures
        r.deep_view() == vs.deep_view(),
{
    let mut r: Vec<DirValue> = Vec::new();
    let mut i: usize = 0;
    while i < vs.len()
        invariant
            i <= vs@.len(),
            r@.len() == i,
            forall|j: int| 0 <= j < i ==> r@[j].deep_view() == vs@[j].deep_view(),
        decreases vs@.len() - i,
    {
        r.push(vs[i].duplicate());
        i = i + 1;
    }
    assert(r.deep_view() =~= vs.deep_view());
    r
}

} // verus!
