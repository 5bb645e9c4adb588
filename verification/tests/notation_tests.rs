use routing_core::ast::{Guard, Rule};
use routing_core::dir::{
    CardNetwork, Connector, ConnectorChoice, Country, Currency, DirValue, MetadataValue,
    NumRefinement, NumValue, PaymentMethod,
};
use routing_core::text::{parse_rule_text, parse_value_text, serialize_rule, serialize_value};

fn roundtrip(rule: &Rule) {
    let text = serialize_rule(rule);
    let parsed = parse_rule_text(&text).unwrap();
    assert!(parsed.equals(rule), "round trip failed for {:?}", String::from_utf8_lossy(&text));
}

#[test]
fn simple_rule_round_trips() {
    let rule = Rule {
        name: b"us_card".to_vec(),
        guard: Guard::And(
            Box::new(Guard::Is(DirValue::Country(Country::UnitedStates))),
            Box::new(Guard::Is(DirValue::PaymentMethod(PaymentMethod::Card))),
        ),
        output: ConnectorChoice { connector: Connector::Stripe, sub_label: None },
    };
    let text = serialize_rule(&rule);
    assert_eq!(
        String::from_utf8_lossy(&text),
        "us_card: (country(US) & payment_method(card)) -> connector(stripe)"
    );
    roundtrip(&rule);
}

#[test]
fn every_value_kind_round_trips() {
    let rule = Rule {
        name: b"everything_0".to_vec(),
        guard: Guard::Or(
            Box::new(Guard::And(
                Box::new(Guard::AnyOf(vec![
                    DirValue::CardNetwork(CardNetwork::Visa),
                    DirValue::CardNetwork(CardNetwork::Rupay),
                ])),
                Box::new(Guard::IsNot(DirValue::PaymentCurrency(Currency::Jpy))),
            )),
            Box::new(Guard::And(
                Box::new(Guard::NoneOf(vec![DirValue::BusinessLabel(b"retail".to_vec())])),
                Box::new(Guard::And(
                    Box::new(Guard::Is(DirValue::PaymentAmount(NumValue {
                        number: 12345,
                        refinement: Some(NumRefinement::GreaterThan),
                    }))),
                    Box::new(Guard::Is(DirValue::MetaData(MetadataValue {
                        key: b"order kind".to_vec(),
                        value: b"subscription".to_vec(),
                    }))),
                )),
            )),
        ),
        output: ConnectorChoice {
            connector: Connector::Braintree,
            sub_label: Some(b"eu west".to_vec()),
        },
    };
    roundtrip(&rule);
}

#[test]
fn always_true_guard_round_trips() {
    let rule = Rule {
        name: b"fallback".to_vec(),
        guard: Guard::Always,
        output: ConnectorChoice { connector: Connector::Paypal, sub_label: None },
    };
    let text = serialize_rule(&rule);
    assert_eq!(String::from_utf8_lossy(&text), "fallback: true -> connector(paypal)");
    roundtrip(&rule);
}

#[test]
fn amount_comparisons_round_trip() {
    for refinement in [None, Some(NumRefinement::GreaterThan), Some(NumRefinement::LessThan)] {
        for number in [0u64, 1, 9, 10, 99, 12345678901234567890, u64::MAX] {
            let rule = Rule {
                name: b"amount_rule".to_vec(),
                guard: Guard::Is(DirValue::PaymentAmount(NumValue { number, refinement })),
                output: ConnectorChoice { connector: Connector::Adyen, sub_label: None },
            };
            roundtrip(&rule);
        }
    }
}

#[test]
fn parse_rejects_malformed_text() {
    for bad in [
        "",
        "no_guard",
        "r: -> connector(stripe)",
        "r: true -> stripe",
        "r: true -> connector(nonesuch)",
        "r: country(XX) -> connector(stripe)",
        "r: country(US)",
        "r: country(US) -> connector(stripe) trailing",
        "r: amount(eq 18446744073709551616) -> connector(stripe)",
        "r: (country(US) & country(CA) -> connector(stripe)",
        ": true -> connector(stripe)",
    ] {
        assert!(parse_rule_text(&bad.as_bytes().to_vec()).is_err(), "accepted {:?}", bad);
    }
    // The error points near the offending byte: here the output after the
    // arrow is not written as a connector value.
    let err = parse_rule_text(&b"r: true -> stripe".to_vec()).unwrap_err();
    assert_eq!(err.position, 11);
}

#[test]
fn parse_value_text_reads_single_values() {
    let v = parse_value_text(&b"currency(INR)".to_vec()).unwrap();
    assert!(v.equals(&DirValue::PaymentCurrency(Currency::Inr)));
    let v = parse_value_text(&b"amount(lt 500)".to_vec()).unwrap();
    assert!(v.equals(&DirValue::PaymentAmount(NumValue {
        number: 500,
        refinement: Some(NumRefinement::LessThan),
    })));
    assert!(parse_value_text(&b"currency(INR) ".to_vec()).is_none());
    assert!(parse_value_text(&b"nonsense".to_vec()).is_none());
}

#[test]
fn serialize_value_writes_canonical_notation() {
    let v = DirValue::Connector(ConnectorChoice {
        connector: Connector::Checkout,
        sub_label: Some(b"apac".to_vec()),
    });
    let text = serialize_value(&v);
    assert_eq!(String::from_utf8_lossy(&text), "connector(checkout \"apac\")");
    let back = parse_value_text(&text).unwrap();
    assert!(back.equals(&v));
}
