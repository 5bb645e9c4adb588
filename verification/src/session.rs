//! Knowledge session: the boundary a caller holds a seeded constraint graph
//! and exchange-rate table through.
//!
//! A session starts unseeded. [`KnowledgeSession::seed_graph`] builds a
//! merchant-specific overlay graph from the merchant's connector accounts and
//! their country/currency support filters, combines it with the compiled-in
//! domain knowledge base, and stores the result; a second seeding attempt is
//! rejected with [`SeedError::AlreadySeeded`] and leaves the first data
//! authoritative. The seeded graph is read-only thereafter.
//! [`KnowledgeSession::get_valid_connectors_for_rule`] filters a configured
//! connector set down to the candidates every conjunctive context of a rule
//! admits; [`KnowledgeSession::analyze_program`] statically validates a whole
//! program against the seeded graph.

use vstd::prelude::*;

use crate::analyzer::{analyze, opt_graph_model, rule_acceptable, ContradictionError};
use crate::ast::{Program, Rule};
use crate::currency::ExchangeRates;
use crate::dir::{
    connector_from_name, spec_connector_from_name, clone_bytes, lemma_bytes_deep_view, Connector,
    ConnectorChoice, ConnectorChoiceModel, Country, Currency, DirValue, DirValueModel,
    PaymentMethod,
};
use crate::dir::{CaptureMethod, CardNetwork, MandateType};
use crate::expansion::{asserted, dnf, ContextExpander, CtxValue, CtxValueModel};
use crate::graph::{
    graphs_conflict, perform_context_analysis, satisfiable, AnalysisError, ConstraintGraph,
    ConstraintGraphModel, Edge, EdgeModel, GraphContradiction, Memoization,
};
use crate::interpreter::{execute, execute_result_matches, ExecutionError};

verus! {

/// One merchant connector account: the connector it names, an optional sub
/// label, and the payment methods it is enabled for.
#[derive(Debug)]
pub struct MerchantConnectorAccount {
    pub connector_name: Vec<u8>,
    pub sub_label: Option<Vec<u8>>,
    pub payment_methods: Vec<PaymentMethod>,
}

/// Mathematical model of a [`MerchantConnectorAccount`].
pub struct MerchantConnectorAccountModel {
    pub connector_name: Seq<u8>,
    pub sub_label: Option<Seq<u8>>,
    pub payment_methods: Seq<PaymentMethod>,
}

impl DeepView for MerchantConnectorAccount {
    type V = MerchantConnectorAccountModel;

    open spec fn deep_view(&self) -> MerchantConnectorAccountModel {
        MerchantConnectorAccountModel {
            connector_name: self.connector_name.deep_view(),
            sub_label: self.sub_label.deep_view(),
            payment_methods: self.payment_methods.deep_view(),
        }
    }
}

/// The countries and currencies a connector supports. An empty list means
/// unrestricted.
#[derive(Debug)]
pub struct SupportFilter {
    pub countries: Vec<Country>,
    pub currencies: Vec<Currency>,
}

/// Mathematical model of a [`SupportFilter`].
pub struct SupportFilterModel {
    pub countries: Seq<Country>,
    pub currencies: Seq<Currency>,
}

impl DeepView for SupportFilter {
    type V = SupportFilterModel;

    open spec fn deep_view(&self) -> SupportFilterModel {
        SupportFilterModel {
            countries: self.countries.deep_view(),
            currencies: self.currencies.deep_view(),
        }
    }
}

/// A support filter for one named connector.
#[derive(Debug)]
pub struct ConnectorFilter {
    pub connector: Connector,
    pub filter: SupportFilter,
}

/// Mathematical model of a [`ConnectorFilter`].
pub struct ConnectorFilterModel {
    pub connector: Connector,
    pub filter: SupportFilterModel,
}

impl DeepView for ConnectorFilter {
    type V = ConnectorFilterModel;

    open spec fn deep_view(&self) -> ConnectorFilterModel {
        ConnectorFilterModel { connector: self.connector, filter: self.filter.deep_view() }
    }
}

/// Per-connector country/currency support filters, with an optional default
/// for connectors without an override.
#[derive(Debug)]
pub struct CountryCurrencyFilter {
    pub overrides: Vec<ConnectorFilter>,
    pub default_filter: Option<SupportFilter>,
}

/// Mathematical model of a [`CountryCurrencyFilter`].
pub struct CountryCurrencyFilterModel {
    pub overrides: Seq<ConnectorFilterModel>,
    pub default_filter: Option<SupportFilterModel>,
}

impl DeepView for CountryCurrencyFilter {
    type V = CountryCurrencyFilterModel;

    open spec fn deep_view(&self) -> CountryCurrencyFilterModel {
        CountryCurrencyFilterModel {
            overrides: self.overrides.deep_view(),
            default_filter: self.default_filter.deep_view(),
        }
    }
}

/// The payment-method nodes of a support list.
pub open spec fn payment_method_nodes(pms: Seq<PaymentMethod>) -> Seq<DirValueModel> {
    Seq::new(pms.len(), |i: int| DirValueModel::PaymentMethod(pms[i]))
}

/// The country nodes of a support list.
pub open spec fn country_nodes(cs: Seq<Country>) -> Seq<DirValueModel> {
    Seq::new(cs.len(), |i: int| DirValueModel::Country(cs[i]))
}

/// The currency nodes of a support list.
pub open spec fn currency_nodes(cs: Seq<Currency>) -> Seq<DirValueModel> {
    Seq::new(cs.len(), |i: int| DirValueModel::PaymentCurrency(cs[i]))
}

/// The first filter override listed for connector `c`, scanning from `i`.
pub open spec fn override_from(
    ov: Seq<ConnectorFilterModel>,
    c: Connector,
    i: int,
) -> Option<SupportFilterModel>
    decreases ov.len() - i,
{
    if i < 0 || i >= ov.len() {
        None
    } else if ov[i].connector == c {
        Some(ov[i].filter)
    } else {
        override_from(ov, c, i + 1)
    }
}

/// The support filter in effect for connector `c`: its override when one is
/// listed, else the default filter.
pub open spec fn effective_filter(f: CountryCurrencyFilterModel, c: Connector) -> Option<
    SupportFilterModel,
> {
    match override_from(f.overrides, c, 0) {
        Some(sf) => Some(sf),
        None => f.default_filter,
    }
}

/// The connector choice an account names, when its connector name is known.
pub open spec fn choice_of_account(m: MerchantConnectorAccountModel) -> Option<
    ConnectorChoiceModel,
> {
    match spec_connector_from_name(m.connector_name) {
        Some(c) => Some(ConnectorChoiceModel { connector: c, sub_label: m.sub_label }),
        None => None,
    }
}

/// The capability facts one account contributes: the connector node requires
/// one of its enabled payment methods, supported countries and supported
/// currencies. An empty support list contributes no fact (unrestricted).
pub open spec fn account_edges(
    choice: ConnectorChoiceModel,
    pms: Seq<PaymentMethod>,
    sf: Option<SupportFilterModel>,
) -> Seq<EdgeModel> {
    let node = DirValueModel::Connector(choice);
    (if pms.len() > 0 {
        seq![EdgeModel::NeedsAnyOf(node, payment_method_nodes(pms))]
    } else {
        Seq::empty()
    }) + (match sf {
        Some(sf) => (if sf.countries.len() > 0 {
            seq![EdgeModel::NeedsAnyOf(node, country_nodes(sf.countries))]
        } else {
            Seq::empty()
        }) + (if sf.currencies.len() > 0 {
            seq![EdgeModel::NeedsAnyOf(node, currency_nodes(sf.currencies))]
        } else {
            Seq::empty()
        }),
        None => Seq::empty(),
    })
}

/// The merchant overlay's facts, account by account in order. Accounts with
/// an unknown connector name contribute nothing (seeding rejects them before
/// this matters).
pub open spec fn overlay_edges(
    mcas: Seq<MerchantConnectorAccountModel>,
    f: CountryCurrencyFilterModel,
) -> Seq<EdgeModel>
    decreases mcas.len(),
{
    if mcas.len() == 0 {
        Seq::empty()
    } else {
        overlay_edges(mcas.drop_last(), f) + (match choice_of_account(mcas.last()) {
            Some(ch) => account_edges(
                ch,
                mcas.last().payment_methods,
                effective_filter(f, ch.connector),
            ),
            None => Seq::empty(),
        })
    }
}

/// The connector choices the accounts name, in order.
pub open spec fn seeded_choices(mcas: Seq<MerchantConnectorAccountModel>) -> Seq<
    ConnectorChoiceModel,
>
    decreases mcas.len(),
{
    if mcas.len() == 0 {
        Seq::empty()
    } else {
        seeded_choices(mcas.drop_last()) + (match choice_of_account(mcas.last()) {
            Some(ch) => seq![ch],
            None => Seq::empty(),
        })
    }
}

/// The compiled-in domain knowledge base: generic attribute relationships
/// that hold for every merchant.
pub open spec fn base_knowledge() -> ConstraintGraphModel {
    ConstraintGraphModel {
        edges: seq![
            EdgeModel::NeedsAnyOf(
                DirValueModel::PaymentCurrency(Currency::Inr),
                seq![DirValueModel::Country(Country::India)],
            ),
            EdgeModel::NeedsAnyOf(
                DirValueModel::PaymentCurrency(Currency::Cad),
                seq![DirValueModel::Country(Country::Canada)],
            ),
            EdgeModel::NeedsAnyOf(
                DirValueModel::CardNetwork(CardNetwork::Rupay),
                seq![DirValueModel::PaymentCurrency(Currency::Inr)],
            ),
            EdgeModel::NeedsAnyOf(
                DirValueModel::CaptureMethod(CaptureMethod::Manual),
                seq![DirValueModel::PaymentMethod(PaymentMethod::Card)],
            ),
            EdgeModel::Excludes(
                DirValueModel::PaymentMethod(PaymentMethod::Crypto),
                DirValueModel::MandateType(MandateType::MultiUse),
            ),
        ],
    }
}

fn single_value(v: DirValue) -> (r: Vec<DirValue>)
    ensures
        r.deep_view() =~= seq![v.deep_view()],
{
    let ghost vm = v.deep_view();
    let mut r: Vec<DirValue> = Vec::new();
    r.push(v);
    r
}

/// Build the compiled-in domain knowledge base.
pub fn base_knowledge_graph() -> (g: ConstraintGraph)
    ensures
        g.deep_view() == base_knowledge(),
{
    let mut edges: Vec<Edge> = Vec::new();
    edges.push(
        Edge::NeedsAnyOf(
            DirValue::PaymentCurrency(Currency::Inr),
            single_value(DirValue::Country(Country::India)),
        ),
    );
    edges.push(
        Edge::NeedsAnyOf(
            DirValue::PaymentCurrency(Currency::Cad),
            single_value(DirValue::Country(Country::Canada)),
        ),
    );
    edges.push(
        Edge::NeedsAnyOf(
            DirValue::CardNetwork(CardNetwork::Rupay),
            single_value(DirValue::PaymentCurrency(Currency::Inr)),
        ),
    );
    edges.push(
        Edge::NeedsAnyOf(
            DirValue::CaptureMethod(CaptureMethod::Manual),
            single_value(DirValue::PaymentMethod(PaymentMethod::Card)),
        ),
    );
    edges.push(
        Edge::Excludes(
            DirValue::PaymentMethod(PaymentMethod::Crypto),
            DirValue::MandateType(MandateType::MultiUse),
        ),
    );
    let g = ConstraintGraph { edges };
    assert(g.deep_view().edges =~~= base_knowledge().edges);
    g
}

fn payment_method_nodes_exec(pms: &Vec<PaymentMethod>) -> (r: Vec<DirValue>)
    ensures
        r.deep_view() == payment_method_nodes(pms.deep_view()),
{
    let mut r: Vec<DirValue> = Vec::new();
    let mut i: usize = 0;
    while i < pms.len()
        invariant
            i <= pms@.len(),
            r@.len() == i,
            forall|j: int|
                0 <= j < i ==> r@[j].deep_view() == DirValueModel::PaymentMethod(pms@[j]),
        decreases pms@.len() - i,
    {
        r.push(DirValue::PaymentMethod(pms[i]));
        i = i + 1;
    }
    assert(r.deep_view() =~= payment_method_nodes(pms.deep_view()));
    r
}

fn country_nodes_exec(cs: &Vec<Country>) -> (r: Vec<DirValue>)
    ensures
        r.deep_view() == country_nodes(cs.deep_view()),
{
    let mut r: Vec<DirValue> = Vec::new();
    let mut i: usize = 0;
    while i < cs.len()
        invariant
            i <= cs@.len(),
            r@.len() == i,
            forall|j: int| 0 <= j < i ==> r@[j].deep_view() == DirValueModel::Country(cs@[j]),
        decreases cs@.len() - i,
    {
        r.push(DirValue::Country(cs[i]));
        i = i + 1;
    }
    assert(r.deep_view() =~= country_nodes(cs.deep_view()));
    r
}

fn currency_nodes_exec(cs: &Vec<Currency>) -> (r: Vec<DirValue>)
    ensures
        r.deep_view() == currency_nodes(cs.deep_view()),
{
    let mut r: Vec<DirValue> = Vec::new();
    let mut i: usize = 0;
    while i < cs.len()
        invariant
            i <= cs@.len(),
            r@.len() == i,
            forall|j: int|
                0 <= j < i ==> r@[j].deep_view() == DirValueModel::PaymentCurrency(cs@[j]),
        decreases cs@.len() - i,
    {
        r.push(DirValue::PaymentCurrency(cs[i]));
        i = i + 1;
    }
    assert(r.deep_view() =~= currency_nodes(cs.deep_view()));
    r
}

/// The model of an optional filter reference.
pub open spec fn opt_filter_model(sf: Option<&SupportFilter>) -> Option<SupportFilterModel> {
    match sf {
        Option::Some(f) => Option::Some(f.deep_view()),
        Option::None => Option::None,
    }
}

#[verifier::loop_isolation(false)]
fn effective_filter_exec<'a>(f: &'a CountryCurrencyFilter, c: Connector) -> (r: Option<
    &'a SupportFilter,
>)
    ensures
        opt_filter_model(r) == effective_filter(f.deep_view(), c),
{
    let ghost fm = f.deep_view();
    let mut i: usize = 0;
    while i < f.overrides.len()
        invariant
            i <= f.overrides@.len(),
            override_from(fm.overrides, c, 0) == override_from(fm.overrides, c, i as int),
        decreases f.overrides@.len() - i,
    {
        if f.overrides[i].connector == c {
            return Option::Some(&f.overrides[i].filter);
        }
        i = i + 1;
    }
    match &f.default_filter {
        Option::Some(sf) => Option::Some(sf),
        Option::None => Option::None,
    }
}

fn account_edges_exec(choice: &ConnectorChoice, pms: &Vec<PaymentMethod>, sf: Option<
    &SupportFilter,
>) -> (r: Vec<Edge>)
    ensures
        r.deep_view() == account_edges(choice.deep_view(), pms.deep_view(), opt_filter_model(sf)),
{
    let mut r: Vec<Edge> = Vec::new();
    if pms.len() > 0 {
        r.push(
            Edge::NeedsAnyOf(DirValue::Connector(choice.duplicate()), payment_method_nodes_exec(pms)),
        );
    }
    match sf {
        Option::Some(sf) => {
            if sf.countries.len() > 0 {
                r.push(
                    Edge::NeedsAnyOf(
                        DirValue::Connector(choice.duplicate()),
                        country_nodes_exec(&sf.countries),
                    ),
                );
            }
            if sf.currencies.len() > 0 {
                r.push(
                    Edge::NeedsAnyOf(
                        DirValue::Connector(choice.duplicate()),
                        currency_nodes_exec(&sf.currencies),
                    ),
                );
            }
        },
        Option::None => {},
    }
    assert(r.deep_view() =~~= account_edges(
        choice.deep_view(),
        pms.deep_view(),
        opt_filter_model(sf),
    ));
    r
}

/// The seeded state: the combined constraint graph and the merchant's
/// connector choices.
#[derive(Debug)]
pub struct SeedData {
    pub graph: ConstraintGraph,
    pub connectors: Vec<ConnectorChoice>,
}

/// Why seeding was rejected.
#[derive(Debug, PartialEq, Eq, Structural)]
pub enum SeedError {
    /// The session already holds seeded data; the first data stays
    /// authoritative.
    AlreadySeeded,
    /// An account names no known connector; its position.
    UnknownConnectorName { index: usize },
    /// The merchant overlay contradicts the domain knowledge base.
    Contradiction(GraphContradiction),
}

/// A session's shared, build-once state: the constraint graph with the
/// merchant's connectors, and the exchange-rate table, each seeded at most
/// once.
#[derive(Debug)]
pub struct KnowledgeSession {
    pub seed: Option<SeedData>,
    pub rates: Option<ExchangeRates>,
}

impl KnowledgeSession {
    /// A fresh, unseeded session.
    pub fn new() -> (s: KnowledgeSession)
        ensures
            s.seed is None,
            s.rates is None,
    {
        KnowledgeSession { seed: Option::None, rates: Option::None }
    }

    /// Build the merchant overlay from the accounts and filters, combine it
    /// with the domain knowledge base, and store the result. A second call
    /// is rejected with `AlreadySeeded` and the first call's data remains
    /// authoritative.
    #[verifier::loop_isolation(false)]
    pub fn seed_graph(
        &mut self,
        mcas: &Vec<MerchantConnectorAccount>,
        filters: &CountryCurrencyFilter,
    ) -> (r: Result<(), SeedError>)
        ensures
            final(self).rates == old(self).rates,
            old(self).seed is Some ==> r == Result::<(), SeedError>::Err(SeedError::AlreadySeeded)
                && *final(self) == *old(self),
            old(self).seed is None ==> {
                let mm = mcas.deep_view();
                let overlay = ConstraintGraphModel {
                    edges: overlay_edges(mm, filters.deep_view()),
                };
                match r {
                    Result::Ok(_) => {
                        &&& forall|i: int|
                            0 <= i < mm.len() ==> choice_of_account(#[trigger] mm[i]) is Some
                        &&& !graphs_conflict(overlay, base_knowledge())
                        &&& match final(self).seed {
                            Option::Some(sd) => sd.graph.deep_view().edges == overlay.edges
                                + base_knowledge().edges && sd.connectors.deep_view()
                                == seeded_choices(mm),
                            Option::None => false,
                        }
                    },
                    Result::Err(SeedError::AlreadySeeded) => false,
                    Result::Err(SeedError::UnknownConnectorName { index }) => {
                        &&& *final(self) == *old(self)
                        &&& index < mm.len()
                        &&& choice_of_account(mm[index as int]) is None
                        &&& forall|i: int|
                            0 <= i < index ==> choice_of_account(#[trigger] mm[i]) is Some
                    },
                    Result::Err(SeedError::Contradiction(_)) => {
                        &&& *final(self) == *old(self)
                        &&& graphs_conflict(overlay, base_knowledge())
                    },
                }
            },
    {
        if self.seed.is_some() {
            return Result::Err(SeedError::AlreadySeeded);
        }
        let ghost mm = mcas.deep_view();
        let ghost fm = filters.deep_view();
        let mut choices: Vec<ConnectorChoice> = Vec::new();
        let mut edges: Vec<Edge> = Vec::new();
        let mut i: usize = 0;
        while i < mcas.len()
            invariant
                i <= mcas@.len(),
                forall|j: int| 0 <= j < i ==> choice_of_account(#[trigger] mm[j]) is Some,
                choices.deep_view() == seeded_choices(mm.take(i as int)),
                edges.deep_view() == overlay_edges(mm.take(i as int), fm),
            decreases mcas@.len() - i,
        {
            let mca = &mcas[i];
            let connector = match connector_from_name(&mca.connector_name) {
                Option::Some(c) => c,
                Option::None => {
                    proof {
                        broadcast use lemma_bytes_deep_view;

                        assert(mm[i as int] == mcas@[i as int].deep_view());
                        assert(mm[i as int].connector_name == mcas@[i as int].connector_name@);
                    }
                    return Result::Err(SeedError::UnknownConnectorName { index: i });
                },
            };
            let sub_label = match &mca.sub_label {
                Option::Some(l) => Option::Some(clone_bytes(l)),
                Option::None => Option::None,
            };
            let choice = ConnectorChoice { connector, sub_label };
            let ghost chm = choice.deep_view();
            proof {
                broadcast use lemma_bytes_deep_view;

                assert(chm == match choice_of_account(mm[i as int]) {
                    Option::Some(c) => c,
                    Option::None => chm,
                });
            }
            let sf = effective_filter_exec(filters, connector);
            let mut fresh = account_edges_exec(&choice, &mca.payment_methods, sf);
            let ghost fresh_model = fresh.deep_view();
            edges.append(&mut fresh);
            choices.push(choice);
            proof {
                assert(mm.take(i + 1 as int).drop_last() =~= mm.take(i as int));
                assert(mm.take(i + 1 as int).last() == mm[i as int]);
                assert(choices.deep_view() =~= seeded_choices(mm.take(i + 1 as int)));
                assert(edges.deep_view() =~~= overlay_edges(mm.take(i + 1 as int), fm));
            }
            i = i + 1;
        }
        proof {
            assert(mm.take(mm.len() as int) =~= mm);
        }
        let overlay = ConstraintGraph { edges };
        let base = base_knowledge_graph();
        let combined = match ConstraintGraph::combine(&overlay, &base) {
            Result::Ok(g) => g,
            Result::Err(e) => {
                return Result::Err(SeedError::Contradiction(e));
            },
        };
        self.seed = Option::Some(SeedData { graph: combined, connectors: choices });
        Result::Ok(())
    }

    /// Store the exchange-rate table. A second call is rejected with
    /// `AlreadySeeded` and the first call's table remains authoritative.
    pub fn seed_exchange_rates(&mut self, rates: ExchangeRates) -> (r: Result<(), SeedError>)
        ensures
            final(self).seed == old(self).seed,
            old(self).rates is Some ==> r == Result::<(), SeedError>::Err(SeedError::AlreadySeeded)
                && *final(self) == *old(self),
            old(self).rates is None ==> r == Result::<(), SeedError>::Ok(()) && final(self).rates
                == Option::Some(rates),
    {
        if self.rates.is_some() {
            return Result::Err(SeedError::AlreadySeeded);
        }
        self.rates = Option::Some(rates);
        Result::Ok(())
    }

    /// Statically validate a program, against the seeded graph when one is
    /// present (structural checks alone otherwise).
    pub fn analyze_program(&self, program: &Program) -> (r: Result<(), ContradictionError>)
        ensures
            match r {
                Result::Ok(_) => forall|i: int|
                    0 <= i < program.rules@.len() ==> rule_acceptable(
                        self.session_graph_model(),
                        #[trigger] program.deep_view().rules[i],
                    ),
                Result::Err(e) => {
                    let og = self.session_graph_model();
                    let rules = program.deep_view().rules;
                    &&& e.rule_index < rules.len()
                    &&& !rule_acceptable(og, rules[e.rule_index as int])
                    &&& forall|i: int|
                        0 <= i < e.rule_index ==> rule_acceptable(og, #[trigger] rules[i])
                    &&& e.rule_name.deep_view() == rules[e.rule_index as int].name
                    &&& e.context_index < crate::expansion::dnf(
                        rules[e.rule_index as int].guard,
                    ).len()
                    &&& e.context.deep_view() == crate::expansion::dnf(
                        rules[e.rule_index as int].guard,
                    )[e.context_index as int]
                    &&& !crate::analyzer::context_acceptable(
                        og,
                        crate::expansion::dnf(rules[e.rule_index as int].guard)[
                            e.context_index as int
                        ],
                    )
                },
            },
    {
        match &self.seed {
            Option::Some(sd) => analyze(program, Option::Some(&sd.graph)),
            Option::None => analyze(program, Option::None),
        }
    }

    /// The model of the seeded graph, if any.
    pub open spec fn session_graph_model(&self) -> Option<ConstraintGraphModel> {
        match self.seed {
            Option::Some(sd) => Option::Some(sd.graph.deep_view()),
            Option::None => Option::None,
        }
    }
}

/// The context entry asserting a connector candidate.
pub open spec fn connector_assertion(c: ConnectorChoiceModel) -> CtxValueModel {
    asserted(DirValueModel::Connector(c))
}

/// Whether the candidate is admitted by each of the first `n` conjunctive
/// contexts, each taken with the candidate pushed onto it.
pub open spec fn connector_valid_upto(
    g: ConstraintGraphModel,
    branches: Seq<Seq<CtxValueModel>>,
    n: int,
    c: ConnectorChoiceModel,
) -> bool {
    forall|k: int|
        0 <= k < n ==> satisfiable(g, (#[trigger] branches[k]).push(connector_assertion(c)))
}

/// Whether the candidate is admitted by every conjunctive context of the
/// rule.
pub open spec fn connector_valid(
    g: ConstraintGraphModel,
    branches: Seq<Seq<CtxValueModel>>,
    c: ConnectorChoiceModel,
) -> bool {
    connector_valid_upto(g, branches, branches.len() as int, c)
}

/// The configured connectors that every context admits, in configured order.
pub open spec fn valid_connectors(
    g: ConstraintGraphModel,
    branches: Seq<Seq<CtxValueModel>>,
    conf: Seq<ConnectorChoiceModel>,
) -> Seq<ConnectorChoiceModel>
    decreases conf.len(),
{
    if conf.len() == 0 {
        Seq::empty()
    } else {
        valid_connectors(g, branches, conf.drop_last()) + (if connector_valid(
            g,
            branches,
            conf.last(),
        ) {
            seq![conf.last()]
        } else {
            Seq::empty()
        })
    }
}

/// Why connector elimination could not run.
#[derive(Debug)]
pub enum ValidConnectorsError {
    /// The session holds no seeded graph.
    NotSeeded,
    /// A conjunctive context of the rule is unsatisfiable on its own (an
    /// authoring error, independent of any connector): its position in the
    /// expansion and the analysis failure.
    InvalidContext { context_index: usize, error: AnalysisError },
}

impl KnowledgeSession {
    /// Filter the configured connectors down to those every conjunctive
    /// context of the rule admits. Each context is first validated standalone
    /// (failure there is an authoring error and aborts); then every
    /// still-valid candidate is pushed onto the context, re-analyzed, and
    /// eliminated on failure. A candidate once eliminated is skipped for all
    /// later contexts.
    #[verifier::loop_isolation(false)]
    pub fn get_valid_connectors_for_rule(
        &self,
        rule: &Rule,
        configured: &Vec<ConnectorChoice>,
    ) -> (r: Result<Vec<ConnectorChoice>, ValidConnectorsError>)
        ensures
            match self.seed {
                Option::None => r matches Result::Err(ValidConnectorsError::NotSeeded),
                Option::Some(sd) => {
                    let g = sd.graph.deep_view();
                    let branches = dnf(rule.deep_view().guard);
                    match r {
                        Result::Ok(out) => (forall|k: int|
                            0 <= k < branches.len() ==> satisfiable(g, #[trigger] branches[k]))
                            && out.deep_view() == valid_connectors(
                            g,
                            branches,
                            configured.deep_view(),
                        ),
                        Result::Err(ValidConnectorsError::NotSeeded) => false,
                        Result::Err(
                            ValidConnectorsError::InvalidContext { context_index, error },
                        ) => {
                            &&& context_index < branches.len()
                            &&& !satisfiable(g, branches[context_index as int])
                            &&& forall|k: int|
                                0 <= k < context_index ==> satisfiable(g, #[trigger] branches[k])
                            &&& crate::graph::analysis_result_matches(
                                g,
                                branches[context_index as int],
                                Result::Err(error),
                            )
                        },
                    }
                },
            },
    {
        let sd = match &self.seed {
            Option::Some(sd) => sd,
            Option::None => {
                return Result::Err(ValidConnectorsError::NotSeeded);
            },
        };
        let g = &sd.graph;
        let ghost gm = g.deep_view();
        let ghost branches = dnf(rule.deep_view().guard);
        let ghost confm = configured.deep_view();

        let mut flags: Vec<bool> = Vec::new();
        let mut f: usize = 0;
        while f < configured.len()
            invariant
                f <= configured@.len(),
                flags@.len() == f,
                forall|j: int| 0 <= j < f ==> flags@[j],
            decreases configured@.len() - f,
        {
            flags.push(true);
            f = f + 1;
        }

        let mut expander = ContextExpander::new(&rule.guard);
        let mut more = expander.advance();
        while more
            invariant
                expander.wf(),
                expander.branch_models() == branches,
                flags@.len() == configured@.len(),
                more ==> 0 < expander.pos <= branches.len() && expander.state
                    == crate::expansion::ExpanderState::Emitting && expander.current.deep_view()
                    == branches[expander.pos - 1] && (forall|k: int|
                    0 <= k < expander.pos - 1 ==> satisfiable(gm, #[trigger] branches[k])) && (
                forall|c: int|
                    0 <= c < flags@.len() ==> flags@[c] == connector_valid_upto(
                        gm,
                        branches,
                        expander.pos - 1,
                        confm[c],
                    )),
                !more ==> expander.pos == branches.len() && (forall|k: int|
                    0 <= k < branches.len() ==> satisfiable(gm, #[trigger] branches[k])) && (
                forall|c: int|
                    0 <= c < flags@.len() ==> flags@[c] == connector_valid_upto(
                        gm,
                        branches,
                        branches.len() as int,
                        confm[c],
                    )),
            decreases branches.len() - expander.pos + (if more {
                1int
            } else {
                0int
            }),
        {
            let ghost processed = expander.pos - 1;
            let mut memo = Memoization::new(g);
            match perform_context_analysis(g, expander.context(), &mut memo) {
                Result::Err(e) => {
                    return Result::Err(
                        ValidConnectorsError::InvalidContext {
                            context_index: expander.pos - 1,
                            error: e,
                        },
                    );
                },
                Result::Ok(_) => {},
            }
            assert(satisfiable(gm, branches[processed]));
            let ghost pos0 = expander.pos;
            let mut c: usize = 0;
            while c < configured.len()
                invariant
                    c <= configured@.len(),
                    flags@.len() == configured@.len(),
                    expander.wf(),
                    expander.branch_models() == branches,
                    expander.pos == pos0,
                    expander.state == crate::expansion::ExpanderState::Emitting,
                    expander.current.deep_view() == branches[processed],
                    forall|idx: int|
                        0 <= idx < c ==> flags@[idx] == connector_valid_upto(
                            gm,
                            branches,
                            processed + 1,
                            confm[idx],
                        ),
                    forall|idx: int|
                        c <= idx < flags@.len() ==> flags@[idx] == connector_valid_upto(
                            gm,
                            branches,
                            processed,
                            confm[idx],
                        ),
                decreases configured@.len() - c,
            {
                let ghost pushed_ctx = branches[processed].push(connector_assertion(confm[c as int]));
                if flags[c] {
                    let cand = configured[c].duplicate();
                    proof {
                        assert(cand.deep_view() == confm[c as int]);
                    }
                    expander.push(CtxValue { value: DirValue::Connector(cand), polarity: true });
                    assert(expander.current.deep_view() == pushed_ctx);
                    let mut memo2 = Memoization::new(g);
                    let res = perform_context_analysis(g, expander.context(), &mut memo2);
                    expander.pop();
                    proof {
                        assert(expander.current.deep_view() =~= branches[processed]);
                    }
                    if res.is_err() {
                        flags.set(c, false);
                        proof {
                            assert(!satisfiable(gm, pushed_ctx));
                            assert(!connector_valid_upto(gm, branches, processed + 1, confm[c as int]));
                        }
                    } else {
                        proof {
                            assert(satisfiable(gm, pushed_ctx));
                            assert forall|k: int| 0 <= k < processed + 1 implies satisfiable(
                                gm,
                                (#[trigger] branches[k]).push(connector_assertion(confm[c as int])),
                            ) by {
                                if k < processed {
                                    assert(connector_valid_upto(
                                        gm,
                                        branches,
                                        processed,
                                        confm[c as int],
                                    ));
                                }
                            }
                            assert(connector_valid_upto(gm, branches, processed + 1, confm[c as int]));
                        }
                    }
                } else {
                    proof {
                        assert(!connector_valid_upto(gm, branches, processed, confm[c as int]));
                        let bad = choose|k: int|
                            0 <= k < processed && !satisfiable(
                                gm,
                                (#[trigger] branches[k]).push(connector_assertion(confm[c as int])),
                            );
                        assert(!connector_valid_upto(gm, branches, processed + 1, confm[c as int]));
                    }
                }
                c = c + 1;
            }
            more = expander.advance();
        }

        let mut out: Vec<ConnectorChoice> = Vec::new();
        let mut c2: usize = 0;
        while c2 < configured.len()
            invariant
                c2 <= configured@.len(),
                out.deep_view() == valid_connectors(gm, branches, confm.take(c2 as int)),
            decreases configured@.len() - c2,
        {
            proof {
                assert(confm.take(c2 + 1 as int).drop_last() =~= confm.take(c2 as int));
                assert(confm.take(c2 + 1 as int).last() == confm[c2 as int]);
            }
            if flags[c2] {
                out.push(configured[c2].duplicate());
            }
            proof {
                assert(out.deep_view() =~= valid_connectors(gm, branches, confm.take(c2 + 1 as int)));
            }
            c2 = c2 + 1;
        }
        proof {
            assert(confm.take(confm.len() as int) =~= confm);
        }
        Result::Ok(out)
    }
}

/// Evaluate a program against one concrete transaction: the first rule whose
/// guard the input satisfies decides, else the program's default output.
pub fn run_program(program: &Program, input: &Vec<DirValue>) -> (r: Result<
    ConnectorChoice,
    ExecutionError,
>)
    ensures
        execute_result_matches(program.deep_view(), input.deep_view(), r),
{
    execute(program, input)
}

} // verus!
