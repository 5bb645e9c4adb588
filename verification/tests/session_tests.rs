use routing_core::ast::{Guard, Program, Rule};
use routing_core::currency::{CurrencyFactors, ExchangeRates, Ratio, RateEntry};
use routing_core::dir::{
    Connector, ConnectorChoice, Country, Currency, DirValue, PaymentMethod,
};
use routing_core::currency::{convert_currency, ConversionError};
use routing_core::dir::DirKey;
use routing_core::interpreter::ExecutionError;
use routing_core::session::{
    run_program, ConnectorFilter, CountryCurrencyFilter, KnowledgeSession,
    MerchantConnectorAccount, SeedError, SupportFilter, ValidConnectorsError,
};

fn choice(c: Connector) -> ConnectorChoice {
    ConnectorChoice { connector: c, sub_label: None }
}

fn account(name: &str, pms: Vec<PaymentMethod>) -> MerchantConnectorAccount {
    MerchantConnectorAccount {
        connector_name: name.as_bytes().to_vec(),
        sub_label: None,
        payment_methods: pms,
    }
}

fn support(countries: Vec<Country>, currencies: Vec<Currency>) -> SupportFilter {
    SupportFilter { countries, currencies }
}

fn three_connector_session() -> KnowledgeSession {
    // stripe supports US/Card, adyen supports US/Wallet, checkout supports
    // CA/Card.
    let mcas = vec![
        account("stripe", vec![PaymentMethod::Card]),
        account("adyen", vec![PaymentMethod::Wallet]),
        account("checkout", vec![PaymentMethod::Card]),
    ];
    let filters = CountryCurrencyFilter {
        overrides: vec![
            ConnectorFilter {
                connector: Connector::Stripe,
                filter: support(vec![Country::UnitedStates], vec![]),
            },
            ConnectorFilter {
                connector: Connector::Adyen,
                filter: support(vec![Country::UnitedStates], vec![]),
            },
            ConnectorFilter {
                connector: Connector::Checkout,
                filter: support(vec![Country::Canada], vec![]),
            },
        ],
        default_filter: None,
    };
    let mut session = KnowledgeSession::new();
    session.seed_graph(&mcas, &filters).unwrap();
    session
}

#[test]
fn seeding_twice_returns_already_seeded() {
    let mcas = vec![account("stripe", vec![PaymentMethod::Card])];
    let filters = CountryCurrencyFilter { overrides: vec![], default_filter: None };
    let mut session = KnowledgeSession::new();
    assert!(session.seed_graph(&mcas, &filters).is_ok());
    // The second call is rejected; the first call's data stays authoritative.
    let again = vec![account("adyen", vec![PaymentMethod::Wallet])];
    assert_eq!(session.seed_graph(&again, &filters), Err(SeedError::AlreadySeeded));
    let seed = session.seed.as_ref().unwrap();
    assert_eq!(seed.connectors.len(), 1);
    assert_eq!(seed.connectors[0].connector, Connector::Stripe);
}

#[test]
fn seeding_rejects_unknown_connector_name() {
    let mcas = vec![account("stripe", vec![]), account("nonesuch", vec![])];
    let filters = CountryCurrencyFilter { overrides: vec![], default_filter: None };
    let mut session = KnowledgeSession::new();
    assert_eq!(session.seed_graph(&mcas, &filters), Err(SeedError::UnknownConnectorName {
        index: 1,
    }));
    assert!(session.seed.is_none());
}

#[test]
fn seeding_rates_twice_returns_already_seeded() {
    let rates = ExchangeRates { base: Currency::Usd, entries: vec![] };
    let mut session = KnowledgeSession::new();
    assert!(session.seed_exchange_rates(rates).is_ok());
    let other = ExchangeRates { base: Currency::Eur, entries: vec![] };
    assert_eq!(session.seed_exchange_rates(other), Err(SeedError::AlreadySeeded));
    assert_eq!(session.rates.as_ref().unwrap().base, Currency::Usd);
}

#[test]
fn valid_connectors_for_us_card_rule() {
    // Rule context {Country=US, PaymentMethod=Card}: only stripe (US/Card)
    // survives elimination.
    let session = three_connector_session();
    let rule = Rule {
        name: b"us_card".to_vec(),
        guard: Guard::And(
            Box::new(Guard::Is(DirValue::Country(Country::UnitedStates))),
            Box::new(Guard::Is(DirValue::PaymentMethod(PaymentMethod::Card))),
        ),
        output: choice(Connector::Stripe),
    };
    let configured = vec![
        choice(Connector::Stripe),
        choice(Connector::Adyen),
        choice(Connector::Checkout),
    ];
    let valid = session.get_valid_connectors_for_rule(&rule, &configured).unwrap();
    assert_eq!(valid.len(), 1);
    assert_eq!(valid[0].connector, Connector::Stripe);
}

#[test]
fn unseeded_session_cannot_eliminate() {
    let session = KnowledgeSession::new();
    let rule = Rule {
        name: b"any".to_vec(),
        guard: Guard::Always,
        output: choice(Connector::Stripe),
    };
    let r = session.get_valid_connectors_for_rule(&rule, &vec![choice(Connector::Stripe)]);
    assert!(matches!(r, Err(ValidConnectorsError::NotSeeded)));
}

#[test]
fn self_contradictory_rule_context_is_an_error() {
    // INR requires India in the knowledge base, so a context asserting both
    // INR and US is rejected standalone, before any connector is checked.
    let session = three_connector_session();
    let rule = Rule {
        name: b"bad".to_vec(),
        guard: Guard::And(
            Box::new(Guard::Is(DirValue::PaymentCurrency(Currency::Inr))),
            Box::new(Guard::Is(DirValue::Country(Country::UnitedStates))),
        ),
        output: choice(Connector::Stripe),
    };
    let r = session.get_valid_connectors_for_rule(&rule, &vec![choice(Connector::Stripe)]);
    match r {
        Err(ValidConnectorsError::InvalidContext { context_index, error }) => {
            assert_eq!(context_index, 0);
            assert_eq!(error.index, 1);
        },
        _ => panic!("expected an invalid-context error"),
    }
}

#[test]
fn analyze_program_reports_contradictory_rule() {
    // A rule asserting a country/currency pair the knowledge base declares
    // incompatible is a deploy-time contradiction naming that rule.
    let session = three_connector_session();
    let program = Program {
        default_output: choice(Connector::Stripe),
        rules: vec![
            Rule {
                name: b"fine".to_vec(),
                guard: Guard::Is(DirValue::Country(Country::UnitedStates)),
                output: choice(Connector::Stripe),
            },
            Rule {
                name: b"impossible".to_vec(),
                guard: Guard::And(
                    Box::new(Guard::Is(DirValue::PaymentCurrency(Currency::Inr))),
                    Box::new(Guard::Is(DirValue::Country(Country::UnitedStates))),
                ),
                output: choice(Connector::Adyen),
            },
        ],
        metadata: b"policy under review".to_vec(),
    };
    let err = session.analyze_program(&program).unwrap_err();
    assert_eq!(err.rule_index, 1);
    assert_eq!(err.rule_name, b"impossible".to_vec());
}

#[test]
fn analyze_without_graph_still_checks_structure() {
    // Without a seeded graph, analysis is limited to structural checks: two
    // different values asserted for one key contradict.
    let session = KnowledgeSession::new();
    let program = Program {
        default_output: choice(Connector::Stripe),
        rules: vec![Rule {
            name: b"twice".to_vec(),
            guard: Guard::And(
                Box::new(Guard::Is(DirValue::Country(Country::UnitedStates))),
                Box::new(Guard::Is(DirValue::Country(Country::Canada))),
            ),
            output: choice(Connector::Stripe),
        }],
        metadata: vec![],
    };
    let err = session.analyze_program(&program).unwrap_err();
    assert_eq!(err.rule_index, 0);
    assert_eq!(err.context_index, 0);
}

#[test]
fn run_program_selects_first_matching_rule() {
    // [(Country=US -> stripe)], default adyen: CA input falls through to the
    // default, US input selects stripe.
    let program = Program {
        default_output: choice(Connector::Adyen),
        rules: vec![Rule {
            name: b"us_route".to_vec(),
            guard: Guard::Is(DirValue::Country(Country::UnitedStates)),
            output: choice(Connector::Stripe),
        }],
        metadata: vec![],
    };
    let ca_input = vec![DirValue::Country(Country::Canada)];
    let out = run_program(&program, &ca_input).unwrap();
    assert_eq!(out.connector, Connector::Adyen);

    let us_input = vec![DirValue::Country(Country::UnitedStates)];
    let out = run_program(&program, &us_input).unwrap();
    assert_eq!(out.connector, Connector::Stripe);
}

#[test]
fn run_program_fails_on_missing_attribute() {

    let program = Program {
        default_output: choice(Connector::Adyen),
        rules: vec![Rule {
            name: b"us_route".to_vec(),
            guard: Guard::Is(DirValue::Country(Country::UnitedStates)),
            output: choice(Connector::Stripe),
        }],
        metadata: vec![],
    };
    let empty: Vec<DirValue> = vec![];
    let err = run_program(&program, &empty).unwrap_err();
    assert_eq!(err, ExecutionError::MissingInput(DirKey::Country));
}

#[test]
fn sub_labels_distinguish_connector_candidates() {
    // Two accounts of one connector with different sub labels are separate
    // candidates; a filter only constrains the connector they share.
    let mcas = vec![
        MerchantConnectorAccount {
            connector_name: b"stripe".to_vec(),
            sub_label: Some(b"retail".to_vec()),
            payment_methods: vec![PaymentMethod::Card],
        },
        MerchantConnectorAccount {
            connector_name: b"stripe".to_vec(),
            sub_label: Some(b"online".to_vec()),
            payment_methods: vec![PaymentMethod::Wallet],
        },
    ];
    let filters = CountryCurrencyFilter { overrides: vec![], default_filter: None };
    let mut session = KnowledgeSession::new();
    session.seed_graph(&mcas, &filters).unwrap();
    let rule = Rule {
        name: b"cards".to_vec(),
        guard: Guard::Is(DirValue::PaymentMethod(PaymentMethod::Card)),
        output: choice(Connector::Stripe),
    };
    let configured = vec![
        ConnectorChoice { connector: Connector::Stripe, sub_label: Some(b"retail".to_vec()) },
        ConnectorChoice { connector: Connector::Stripe, sub_label: Some(b"online".to_vec()) },
    ];
    let valid = session.get_valid_connectors_for_rule(&rule, &configured).unwrap();
    assert_eq!(valid.len(), 1);
    assert_eq!(valid[0].sub_label, Some(b"retail".to_vec()));
}

#[test]
fn currency_conversion_goes_through_the_base() {

    // EUR at 11/10 into USD, INR at 1/80 into USD and 80/1 out of it.
    let rates = ExchangeRates {
        base: Currency::Usd,
        entries: vec![
            RateEntry {
                currency: Currency::Eur,
                factors: CurrencyFactors {
                    to_base: Ratio { num: 11, den: 10 },
                    from_base: Ratio { num: 10, den: 11 },
                },
            },
            RateEntry {
                currency: Currency::Inr,
                factors: CurrencyFactors {
                    to_base: Ratio { num: 1, den: 80 },
                    from_base: Ratio { num: 80, den: 1 },
                },
            },
        ],
    };
    // 100 EUR -> 110 USD.
    assert_eq!(convert_currency(&rates, Currency::Eur, Currency::Usd, 100), Ok(110));
    // 100 EUR -> 110 USD -> 8800 INR.
    assert_eq!(convert_currency(&rates, Currency::Eur, Currency::Inr, 100), Ok(8800));
    // Flooring at the first step: 105 EUR -> 115 USD (115.5 floored).
    assert_eq!(convert_currency(&rates, Currency::Eur, Currency::Usd, 105), Ok(115));
}

#[test]
fn currency_conversion_reports_missing_rates() {

    let rates = ExchangeRates { base: Currency::Usd, entries: vec![] };
    assert_eq!(
        convert_currency(&rates, Currency::Eur, Currency::Usd, 100),
        Err(ConversionError::MissingRate(Currency::Eur))
    );
    assert_eq!(
        convert_currency(&rates, Currency::Usd, Currency::Jpy, 100),
        Err(ConversionError::MissingRate(Currency::Jpy))
    );
}

#[test]
fn currency_conversion_rejects_amounts_out_of_range() {

    let rates = ExchangeRates {
        base: Currency::Usd,
        entries: vec![RateEntry {
            currency: Currency::Jpy,
            factors: CurrencyFactors {
                to_base: Ratio { num: u64::MAX, den: 1 },
                from_base: Ratio { num: 1, den: u64::MAX },
            },
        }],
    };
    assert_eq!(
        convert_currency(&rates, Currency::Jpy, Currency::Usd, 2),
        Err(ConversionError::AmountOutOfRange)
    );
}
