//! Context expansion: turning a guard into its conjunctive contexts.
//!
//! A guard with disjunctions represents several concrete AND-only branches.
//! [`dnf`] is the mathematical expansion into disjunctive normal form: a
//! sequence of conjunctive contexts, each an ordered sequence of asserted or
//! denied directory values. [`ContextExpander`] is the state machine that
//! hands the branches out one at a time and lets the caller mutate the
//! currently emitted context in place (push/pop) for elimination checks.

use vstd::arithmetic::div_mod::lemma_fundamental_div_mod_converse;
use vstd::prelude::*;

use crate::ast::{Guard, GuardModel};
use crate::dir::{DirValue, DirValueModel};

verus! {

/// One entry of a conjunctive context: a directory value asserted
/// (`polarity == true`) or denied (`polarity == false`).
#[derive(Debug)]
pub struct CtxValue {
    pub value: DirValue,
    pub polarity: bool,
}

/// Mathematical model of a [`CtxValue`].
pub struct CtxValueModel {
    pub value: DirValueModel,
    pub polarity: bool,
}

impl DeepView for CtxValue {
    type V = CtxValueModel;

    open spec fn deep_view(&self) -> CtxValueModel {
        CtxValueModel { value: self.value.deep_view(), polarity: self.polarity }
    }
}

/// An asserted context entry.
pub open spec fn asserted(v: DirValueModel) -> CtxValueModel {
    CtxValueModel { value: v, polarity: true }
}

/// A denied context entry.
pub open spec fn denied(v: DirValueModel) -> CtxValueModel {
    CtxValueModel { value: v, polarity: false }
}

/// All combinations of one branch from `xs` followed by one branch from `ys`,
/// ordered with the `xs` choice outermost.
pub open spec fn cross(
    xs: Seq<Seq<CtxValueModel>>,
    ys: Seq<Seq<CtxValueModel>>,
) -> Seq<Seq<CtxValueModel>> {
    Seq::new(xs.len() * ys.len(), |k: int| xs[k / ys.len() as int] + ys[k % ys.len() as int])
}

/// The disjunctive normal form of a guard: the ordered sequence of
/// conjunctive contexts the guard represents. The empty guard yields exactly
/// one empty context.
pub open spec fn dnf(g: GuardModel) -> Seq<Seq<CtxValueModel>>
    decreases g,
{
    match g {
        GuardModel::Always => seq![Seq::<CtxValueModel>::empty()],
        GuardModel::Is(v) => seq![seq![asserted(v)]],
        GuardModel::IsNot(v) => seq![seq![denied(v)]],
        GuardModel::AnyOf(vs) => Seq::new(vs.len(), |i: int| seq![asserted(vs[i])]),
        GuardModel::NoneOf(vs) => seq![Seq::new(vs.len(), |i: int| denied(vs[i]))],
        GuardModel::And(a, b) => cross(dnf(*a), dnf(*b)),
        GuardModel::Or(a, b) => dnf(*a) + dnf(*b),
    }
}

proof fn lemma_cross_index(xl: int, n: int, i: int, j: int)
    requires
        0 <= i < xl,
        0 <= j < n,
    ensures
        0 <= i * n + j < xl * n,
        (i * n + j) / n == i,
        (i * n + j) % n == j,
{
    assert(0 <= i * n + j < xl * n) by (nonlinear_arith)
        requires
            0 <= i < xl,
            0 <= j < n,
    ;
    lemma_fundamental_div_mod_converse(i * n + j, n, i, j);
}

/// Structural copy of a context preserving the model.
pub fn clone_context(v: &Vec<CtxValue>) -> (r: Vec<CtxValue>)
    ensures
        r.deep_view() == v.deep_view(),
{
    let mut r: Vec<CtxValue> = Vec::new();
    let mut i: usize = 0;
    while i < v.len()
        invariant
            i <= v.len(),
            r@.len() == i,
            forall|j: int| 0 <= j < i ==> r@[j].deep_view() == v@[j].deep_view(),
        decreases v.len() - i,
    {
        let entry = CtxValue { value: v[i].value.duplicate(), polarity: v[i].polarity };
        r.push(entry);
        i = i + 1;
    }
    assert(r.deep_view() =~= v.deep_view());
    r
}

fn concat_contexts(x: &Vec<CtxValue>, y: &Vec<CtxValue>) -> (r: Vec<CtxValue>)
    ensures
        r.deep_view() == x.deep_view() + y.deep_view(),
{
    let mut r = clone_context(x);
    proof {
        assert(r.deep_view().len() == x.deep_view().len());
        assert(r@.len() == x@.len());
        assert forall|j: int| 0 <= j < x@.len() implies r@[j].deep_view() == x@[j].deep_view() by {
            assert(r.deep_view()[j] == x.deep_view()[j]);
        }
    }
    let mut i: usize = 0;
    while i < y.len()
        invariant
            i <= y.len(),
            r@.len() == x@.len() + i,
            forall|j: int| 0 <= j < x@.len() ==> r@[j].deep_view() == x@[j].deep_view(),
            forall|j: int| 0 <= j < i ==> r@[x@.len() + j].deep_view() == y@[j].deep_view(),
        decreases y.len() - i,
    {
        let entry = CtxValue { value: y[i].value.duplicate(), polarity: y[i].polarity };
        r.push(entry);
        i = i + 1;
    }
    assert(r.deep_view() =~= x.deep_view() + y.deep_view());
    r
}

/// Expand a guard into all of its conjunctive contexts, in DNF order.
pub fn expand_guard(g: &Guard) -> (r: Vec<Vec<CtxValue>>)
    ensures
        r.deep_view() == dnf(g.deep_view()),
    decreases *g,
{
    match g {
        Guard::Always => {
            let mut r: Vec<Vec<CtxValue>> = Vec::new();
            r.push(Vec::new());
            assert(r.deep_view() =~~= dnf(g.deep_view()));
            r
        },
        Guard::Is(v) => {
            let mut branch: Vec<CtxValue> = Vec::new();
            branch.push(CtxValue { value: v.duplicate(), polarity: true });
            let mut r: Vec<Vec<CtxValue>> = Vec::new();
            r.push(branch);
            assert(r.deep_view() =~~= dnf(g.deep_view()));
            r
        },
        Guard::IsNot(v) => {
            let mut branch: Vec<CtxValue> = Vec::new();
            branch.push(CtxValue { value: v.duplicate(), polarity: false });
            let mut r: Vec<Vec<CtxValue>> = Vec::new();
            r.push(branch);
            assert(r.deep_view() =~~= dnf(g.deep_view()));
            r
        },
        Guard::AnyOf(vs) => {
            let mut r: Vec<Vec<CtxValue>> = Vec::new();
            let mut i: usize = 0;
            while i < vs.len()
                invariant
                    i <= vs.len(),
                    r@.len() == i,
                    forall|j: int|
                        0 <= j < i ==> r@[j].deep_view() =~= seq![asserted(vs@[j].deep_view())],
                decreases vs.len() - i,
            {
                let mut branch: Vec<CtxValue> = Vec::new();
                branch.push(CtxValue { value: vs[i].duplicate(), polarity: true });
                r.push(branch);
                i = i + 1;
            }
            assert(r.deep_view() =~~= dnf(g.deep_view()));
            r
        },
        Guard::NoneOf(vs) => {
            let mut branch: Vec<CtxValue> = Vec::new();
            let mut i: usize = 0;
            while i < vs.len()
                invariant
                    i <= vs.len(),
                    branch@.len() == i,
                    forall|j: int|
                        0 <= j < i ==> branch@[j].deep_view() == denied(vs@[j].deep_view()),
                decreases vs.len() - i,
            {
                branch.push(CtxValue { value: vs[i].duplicate(), polarity: false });
                i = i + 1;
            }
            let mut r: Vec<Vec<CtxValue>> = Vec::new();
            r.push(branch);
            assert(r.deep_view() =~~= dnf(g.deep_view()));
            r
        },
        Guard::And(a, b) => {
            let ra = expand_guard(a);
            let rb = expand_guard(b);
            let ghost gx = dnf(a.deep_view());
            let ghost gy = dnf(b.deep_view());
            let mut r: Vec<Vec<CtxValue>> = Vec::new();
            let mut i: usize = 0;
            while i < ra.len()
                invariant
                    i <= ra.len(),
                    ra.deep_view() == gx,
                    rb.deep_view() == gy,
                    rb@.len() == gy.len(),
                    ra@.len() == gx.len(),
                    r@.len() == i * gy.len(),
                    forall|k: int| 0 <= k < r@.len() ==> r@[k].deep_view() == cross(gx, gy)[k],
                decreases ra.len() - i,
            {
                let mut j: usize = 0;
                while j < rb.len()
                    invariant
                        i < ra.len(),
                        j <= rb.len(),
                        ra.deep_view() == gx,
                        rb.deep_view() == gy,
                        rb@.len() == gy.len(),
                        ra@.len() == gx.len(),
                        r@.len() == i * gy.len() + j,
                        forall|k: int| 0 <= k < r@.len() ==> r@[k].deep_view() == cross(gx, gy)[k],
                    decreases rb.len() - j,
                {
                    let branch = concat_contexts(&ra[i], &rb[j]);
                    proof {
                        lemma_cross_index(gx.len() as int, gy.len() as int, i as int, j as int);
                        assert(cross(gx, gy)[i * gy.len() + j] == gx[i as int] + gy[j as int]);
                        let ghost jj = j as int;
                        assert(branch.deep_view() == ra@[i as int].deep_view()
                            + rb@[jj].deep_view());
                        assert(ra@[i as int].deep_view() == gx[i as int]);
                        assert(rb@[j as int].deep_view() == gy[j as int]);
                    }
                    r.push(branch);
                    j = j + 1;
                }
                proof {
                    assert((i + 1) * gy.len() == i * gy.len() + gy.len()) by (nonlinear_arith);
                }
                i = i + 1;
            }
            proof {
                assert(r@.len() == gx.len() * gy.len());
                assert(r.deep_view() =~~= cross(gx, gy));
            }
            r
        },
        Guard::Or(a, b) => {
            let mut r = expand_guard(a);
            let mut rb = expand_guard(b);
            let ghost ga = r.deep_view();
            let ghost gb = rb.deep_view();
            r.append(&mut rb);
            assert(r.deep_view() =~~= ga + gb);
            r
        },
    }
}

/// Position of the expander within the branch sequence.
#[derive(Clone, Copy, Debug, PartialEq, Eq, Structural)]
pub enum ExpanderState {
    /// Not yet started.
    Pending,
    /// Positioned at one expanded branch; the caller may mutate the context.
    Emitting,
    /// No more branches.
    Exhausted,
}

/// State machine handing out a guard's conjunctive contexts one at a time.
///
/// `advance` moves to the next branch (or to `Exhausted`); while `Emitting`,
/// `push` and `pop` mutate the current context in place without changing
/// position, so elimination checks need not rebuild the context per
/// candidate. The branch sequence is finite and not restartable: construct a
/// fresh expander to iterate again.
pub struct ContextExpander {
    pub branches: Vec<Vec<CtxValue>>,
    pub state: ExpanderState,
    pub pos: usize,
    pub current: Vec<CtxValue>,
}

impl ContextExpander {
    /// Internal consistency of state and position.
    pub open spec fn wf(&self) -> bool {
        &&& self.pos <= self.branches@.len()
        &&& match self.state {
            ExpanderState::Pending => self.pos == 0,
            ExpanderState::Emitting => 0 < self.pos,
            ExpanderState::Exhausted => self.pos == self.branches@.len(),
        }
    }

    /// The branches this expander will emit.
    pub open spec fn branch_models(&self) -> Seq<Seq<CtxValueModel>> {
        self.branches.deep_view()
    }

    /// A fresh, pending expander over all branches of the guard.
    pub fn new(guard: &Guard) -> (r: ContextExpander)
        ensures
            r.wf(),
            r.state == ExpanderState::Pending,
            r.pos == 0,
            r.branch_models() == dnf(guard.deep_view()),
    {
        ContextExpander {
            branches: expand_guard(guard),
            state: ExpanderState::Pending,
            pos: 0,
            current: Vec::new(),
        }
    }

    /// Move to the next branch. Returns whether a branch was emitted; after
    /// the last branch the expander becomes `Exhausted`.
    pub fn advance(&mut self) -> (more: bool)
        requires
            old(self).wf(),
        ensures
            final(self).wf(),
            final(self).branches == old(self).branches,
            more == (old(self).pos < old(self).branch_models().len()),
            more ==> final(self).state == ExpanderState::Emitting && final(self).pos == old(
                self,
            ).pos + 1 && final(self).current.deep_view() == old(self).branch_models()[old(
                self,
            ).pos as int],
            !more ==> final(self).state == ExpanderState::Exhausted && final(self).pos == old(
                self,
            ).pos,
    {
        if self.pos < self.branches.len() {
            let branch = clone_context(&self.branches[self.pos]);
            self.current = branch;
            self.pos = self.pos + 1;
            self.state = ExpanderState::Emitting;
            proof {
                assert(self.branches@[old(self).pos as int].deep_view() == self.branch_models()[old(
                    self,
                ).pos as int]);
            }
            true
        } else {
            self.state = ExpanderState::Exhausted;
            false
        }
    }

    /// The currently emitted context.
    pub fn context(&self) -> (r: &Vec<CtxValue>)
        ensures
            r == &self.current,
    {
        &self.current
    }

    /// Assert one more value on the current context, in place.
    pub fn push(&mut self, v: CtxValue)
        ensures
            final(self).current.deep_view() == old(self).current.deep_view().push(v.deep_view()),
            final(self).current@.len() == old(self).current@.len() + 1,
            final(self).branches == old(self).branches,
            final(self).state == old(self).state,
            final(self).pos == old(self).pos,
            final(self).wf() == old(self).wf(),
    {
        self.current.push(v);
        assert(self.current.deep_view() =~= old(self).current.deep_view().push(v.deep_view()));
    }

    /// Remove the most recently pushed value from the current context.
    pub fn pop(&mut self)
        requires
            old(self).current@.len() > 0,
        ensures
            final(self).current.deep_view() == old(self).current.deep_view().drop_last(),
            final(self).current@.len() == old(self).current@.len() - 1,
            final(self).branches == old(self).branches,
            final(self).state == old(self).state,
            final(self).pos == old(self).pos,
            final(self).wf() == old(self).wf(),
    {
        let _ = self.current.pop();
        assert(self.current.deep_view() =~= old(self).current.deep_view().drop_last());
    }
}

/// Whether a guard contains no disjunction: neither an `Or` node nor a
/// multi-way membership test.
pub open spec fn or_free(g: GuardModel) -> bool
    decreases g,
{
    match g {
        GuardModel::Always => true,
        GuardModel::Is(_) => true,
        GuardModel::IsNot(_) => true,
        GuardModel::AnyOf(vs) => vs.len() == 1,
        GuardModel::NoneOf(_) => true,
        GuardModel::And(a, b) => or_free(*a) && or_free(*b),
        GuardModel::Or(_, _) => false,
    }
}

/// The assertions an OR-free guard makes directly, in guard order.
pub open spec fn direct_assertions(g: GuardModel) -> Seq<CtxValueModel>
    decreases g,
{
    match g {
        GuardModel::Always => Seq::empty(),
        GuardModel::Is(v) => seq![asserted(v)],
        GuardModel::IsNot(v) => seq![denied(v)],
        GuardModel::AnyOf(vs) => seq![asserted(vs[0])],
        GuardModel::NoneOf(vs) => Seq::new(vs.len(), |i: int| denied(vs[i])),
        GuardModel::And(a, b) => direct_assertions(*a) + direct_assertions(*b),
        GuardModel::Or(_, _) => Seq::empty(),
    }
}

/// Expansion of an OR-free guard yields exactly one conjunctive context,
/// equal to the guard's direct assertions.
pub proof fn lemma_or_free_expansion(g: GuardModel)
    requires
        or_free(g),
    ensures
        dnf(g).len() == 1,
        dnf(g)[0] == direct_assertions(g),
    decreases g,
{
    match g {
        GuardModel::And(a, b) => {
            lemma_or_free_expansion(*a);
            lemma_or_free_expansion(*b);
            assert(dnf(g).len() == 1);
            assert(dnf(g)[0] == dnf(*a)[0int / 1int] + dnf(*b)[0int % 1int]);
        },
        _ => {},
    }
}

/// The top-level disjuncts of a guard: an `Or` tree split at its `Or` nodes,
/// left to right.
pub open spec fn disjuncts(g: GuardModel) -> Seq<GuardModel>
    decreases g,
{
    match g {
        GuardModel::Or(a, b) => disjuncts(*a) + disjuncts(*b),
        _ => seq![g],
    }
}

/// Expansion of a guard whose top-level disjuncts are each OR-free yields
/// exactly one conjunctive context per disjunct, in order: the disjunct's
/// direct assertions.
pub proof fn lemma_or_expansion(g: GuardModel)
    requires
        forall|i: int| 0 <= i < disjuncts(g).len() ==> or_free(#[trigger] disjuncts(g)[i]),
    ensures
        dnf(g).len() == disjuncts(g).len(),
        forall|i: int|
            0 <= i < dnf(g).len() ==> #[trigger] dnf(g)[i] == direct_assertions(disjuncts(g)[i]),
    decreases g,
{
    match g {
        GuardModel::Or(a, b) => {
            assert(disjuncts(g) == disjuncts(*a) + disjuncts(*b));
            assert forall|i: int| 0 <= i < disjuncts(*a).len() implies or_free(
                #[trigger] disjuncts(*a)[i],
            ) by {
                assert(disjuncts(*a)[i] == disjuncts(g)[i]);
            }
            assert forall|i: int| 0 <= i < disjuncts(*b).len() implies or_free(
                #[trigger] disjuncts(*b)[i],
            ) by {
                assert(disjuncts(*b)[i] == disjuncts(g)[disjuncts(*a).len() + i]);
            }
            lemma_or_expansion(*a);
            lemma_or_expansion(*b);
            assert forall|i: int| 0 <= i < dnf(g).len() implies #[trigger] dnf(g)[i]
                == direct_assertions(disjuncts(g)[i]) by {
                if i < dnf(*a).len() {
                    assert(dnf(g)[i] == dnf(*a)[i]);
                    assert(disjuncts(g)[i] == disjuncts(*a)[i]);
                } else {
                    assert(dnf(g)[i] == dnf(*b)[i - dnf(*a).len()]);
                    assert(disjuncts(g)[i] == disjuncts(*b)[i - disjuncts(*a).len()]);
                }
            }
        },
        _ => {
            assert(disjuncts(g) == seq![g]);
            assert(or_free(disjuncts(g)[0]));
            assert(disjuncts(g)[0] == g);
            lemma_or_free_expansion(g);
        },
    }
}

} // verus!
