//! Textual rule notation: serializer and parser.
//!
//! A rule is written `name: guard -> connector(...)` in a canonical ASCII
//! form. Guards are fully parenthesized: `(g & g)`, `(g | g)`, `not(value)`,
//! `in(value, value, ...)`, `not_in(...)`, `true`, or a bare value such as
//! `country(US)` or `amount(gt 100)`. Free-form text (labels, metadata, sub
//! labels) is written `"..."` and may hold printable ASCII except the quote.
//! The parser accepts exactly this canonical form and is the serializer's
//! inverse: parsing a serialized well-formed rule yields the rule back
//! ([`lemma_parse_serialize_rule`]).

use vstd::prelude::*;

use crate::ast::{Guard, GuardModel, Rule, RuleModel};
use crate::dir::{
    connector_name, connector_name_bytes, eq_bytes, key_name, key_name_bytes, key_of,
    spec_connector_from_name, spec_key_from_name, AuthenticationType, CaptureMethod, CardNetwork,
    ConnectorChoice, ConnectorChoiceModel, Country, Currency, DirKey, DirValue, DirValueModel,
    MandateType, MetadataValue, MetadataValueModel, NumRefinement, NumValue, PaymentMethod,
};
use crate::dir::Connector;

verus! {

/// The textual name of a PaymentMethod value in rule notation.
pub open spec fn payment_method_name(x: PaymentMethod) -> Seq<u8> {
    match x {
        // "card"
        PaymentMethod::Card => seq![99u8, 97u8, 114u8, 100u8],
        // "wallet"
        PaymentMethod::Wallet => seq![119u8, 97u8, 108u8, 108u8, 101u8, 116u8],
        // "pay_later"
        PaymentMethod::PayLater => seq![112u8, 97u8, 121u8, 95u8, 108u8, 97u8, 116u8, 101u8, 114u8],
        // "bank_debit"
        PaymentMethod::BankDebit => seq![98u8, 97u8, 110u8, 107u8, 95u8, 100u8, 101u8, 98u8, 105u8, 116u8],
        // "crypto"
        PaymentMethod::Crypto => seq![99u8, 114u8, 121u8, 112u8, 116u8, 111u8],
    }
}

/// The PaymentMethod value a textual name denotes, if any.
pub open spec fn spec_payment_method_from_name(s: Seq<u8>) -> Option<PaymentMethod> {
    if s == payment_method_name(PaymentMethod::Card) {
        Some(PaymentMethod::Card)
    } else if s == payment_method_name(PaymentMethod::Wallet) {
        Some(PaymentMethod::Wallet)
    } else if s == payment_method_name(PaymentMethod::PayLater) {
        Some(PaymentMethod::PayLater)
    } else if s == payment_method_name(PaymentMethod::BankDebit) {
        Some(PaymentMethod::BankDebit)
    } else if s == payment_method_name(PaymentMethod::Crypto) {
        Some(PaymentMethod::Crypto)
    } else {
        None
    }
}

/// Append the textual name of a PaymentMethod value.
fn write_payment_method(out: &mut Vec<u8>, x: PaymentMethod)
    ensures
        final(out)@ == old(out)@ + payment_method_name(x),
{
    match x {
        PaymentMethod::Card => {
            out.push(99);
            out.push(97);
            out.push(114);
            out.push(100);
        },
        PaymentMethod::Wallet => {
            out.push(119);
            out.push(97);
            out.push(108);
            out.push(108);
            out.push(101);
            out.push(116);
        },
        PaymentMethod::PayLater => {
            out.push(112);
            out.push(97);
            out.push(121);
            out.push(95);
            out.push(108);
            out.push(97);
            out.push(116);
            out.push(101);
            out.push(114);
        },
        PaymentMethod::BankDebit => {
            out.push(98);
            out.push(97);
            out.push(110);
            out.push(107);
            out.push(95);
            out.push(100);
            out.push(101);
            out.push(98);
            out.push(105);
            out.push(116);
        },
        PaymentMethod::Crypto => {
            out.push(99);
            out.push(114);
            out.push(121);
            out.push(112);
            out.push(116);
            out.push(111);
        },
    }
    assert(out@ =~= old(out)@ + payment_method_name(x));
}

/// Decode a scanned identifier as a PaymentMethod value.
fn payment_method_from_ident(ident: &Vec<u8>) -> (r: Option<PaymentMethod>)
    ensures
        r == spec_payment_method_from_name(ident@),
{
    if matches_name_paymentmethod(ident, PaymentMethod::Card) {
        Option::Some(PaymentMethod::Card)
    } else if matches_name_paymentmethod(ident, PaymentMethod::Wallet) {
        Option::Some(PaymentMethod::Wallet)
    } else if matches_name_paymentmethod(ident, PaymentMethod::PayLater) {
        Option::Some(PaymentMethod::PayLater)
    } else if matches_name_paymentmethod(ident, PaymentMethod::BankDebit) {
        Option::Some(PaymentMethod::BankDebit)
    } else if matches_name_paymentmethod(ident, PaymentMethod::Crypto) {
        Option::Some(PaymentMethod::Crypto)
    } else {
        Option::None
    }
}

fn matches_name_paymentmethod(ident: &Vec<u8>, x: PaymentMethod) -> (r: bool)
    ensures
        r == (ident@ == payment_method_name(x)),
{
    let mut name: Vec<u8> = Vec::new();
    write_payment_method(&mut name, x);
    assert(name@ =~= payment_method_name(x));
    eq_bytes(ident, &name)
}

/// The textual name of a CardNetwork value in rule notation.
pub open spec fn card_network_name(x: CardNetwork) -> Seq<u8> {
    match x {
        // "visa"
        CardNetwork::Visa => seq![118u8, 105u8, 115u8, 97u8],
        // "mastercard"
        CardNetwork::Mastercard => seq![109u8, 97u8, 115u8, 116u8, 101u8, 114u8, 99u8, 97u8, 114u8, 100u8],
        // "amex"
        CardNetwork::Amex => seq![97u8, 109u8, 101u8, 120u8],
        // "discover"
        CardNetwork::Discover => seq![100u8, 105u8, 115u8, 99u8, 111u8, 118u8, 101u8, 114u8],
        // "rupay"
        CardNetwork::Rupay => seq![114u8, 117u8, 112u8, 97u8, 121u8],
    }
}

/// The CardNetwork value a textual name denotes, if any.
pub open spec fn spec_card_network_from_name(s: Seq<u8>) -> Option<CardNetwork> {
    if s == card_network_name(CardNetwork::Visa) {
        Some(CardNetwork::Visa)
    } else if s == card_network_name(CardNetwork::Mastercard) {
        Some(CardNetwork::Mastercard)
    } else if s == card_network_name(CardNetwork::Amex) {
        Some(CardNetwork::Amex)
    } else if s == card_network_name(CardNetwork::Discover) {
        Some(CardNetwork::Discover)
    } else if s == card_network_name(CardNetwork::Rupay) {
        Some(CardNetwork::Rupay)
    } else {
        None
    }
}

/// Append the textual name of a CardNetwork value.
fn write_card_network(out: &mut Vec<u8>, x: CardNetwork)
    ensures
        final(out)@ == old(out)@ + card_network_name(x),
{
    match x {
        CardNetwork::Visa => {
            out.push(118);
            out.push(105);
            out.push(115);
            out.push(97);
        },
        CardNetwork::Mastercard => {
            out.push(109);
            out.push(97);
            out.push(115);
            out.push(116);
            out.push(101);
            out.push(114);
            out.push(99);
            out.push(97);
            out.push(114);
            out.push(100);
        },
        CardNetwork::Amex => {
            out.push(97);
            out.push(109);
            out.push(101);
            out.push(120);
        },
        CardNetwork::Discover => {
            out.push(100);
            out.push(105);
            out.push(115);
            out.push(99);
            out.push(111);
            out.push(118);
            out.push(101);
            out.push(114);
        },
        CardNetwork::Rupay => {
            out.push(114);
            out.push(117);
            out.push(112);
            out.push(97);
            out.push(121);
        },
    }
    assert(out@ =~= old(out)@ + card_network_name(x));
}

/// Decode a scanned identifier as a CardNetwork value.
fn card_network_from_ident(ident: &Vec<u8>) -> (r: Option<CardNetwork>)
    ensures
        r == spec_card_network_from_name(ident@),
{
    if matches_name_cardnetwork(ident, CardNetwork::Visa) {
        Option::Some(CardNetwork::Visa)
    } else if matches_name_cardnetwork(ident, CardNetwork::Mastercard) {
        Option::Some(CardNetwork::Mastercard)
    } else if matches_name_cardnetwork(ident, CardNetwork::Amex) {
        Option::Some(CardNetwork::Amex)
    } else if matches_name_cardnetwork(ident, CardNetwork::Discover) {
        Option::Some(CardNetwork::Discover)
    } else if matches_name_cardnetwork(ident, CardNetwork::Rupay) {
        Option::Some(CardNetwork::Rupay)
    } else {
        Option::None
    }
}

fn matches_name_cardnetwork(ident: &Vec<u8>, x: CardNetwork) -> (r: bool)
    ensures
        r == (ident@ == card_network_name(x)),
{
    let mut name: Vec<u8> = Vec::new();
    write_card_network(&mut name, x);
    assert(name@ =~= card_network_name(x));
    eq_bytes(ident, &name)
}

/// The textual name of a Country value in rule notation.
pub open spec fn country_name(x: Country) -> Seq<u8> {
    match x {
        // "US"
        Country::UnitedStates => seq![85u8, 83u8],
        // "CA"
        Country::Canada => seq![67u8, 65u8],
        // "DE"
        Country::Germany => seq![68u8, 69u8],
        // "FR"
        Country::France => seq![70u8, 82u8],
        // "IN"
        Country::India => seq![73u8, 78u8],
        // "GB"
        Country::UnitedKingdom => seq![71u8, 66u8],
    }
}

/// The Country value a textual name denotes, if any.
pub open spec fn spec_country_from_name(s: Seq<u8>) -> Option<Country> {
    if s == country_name(Country::UnitedStates) {
        Some(Country::UnitedStates)
    } else if s == country_name(Country::Canada) {
        Some(Country::Canada)
    } else if s == country_name(Country::Germany) {
        Some(Country::Germany)
    } else if s == country_name(Country::France) {
        Some(Country::France)
    } else if s == country_name(Country::India) {
        Some(Country::India)
    } else if s == country_name(Country::UnitedKingdom) {
        Some(Country::UnitedKingdom)
    } else {
        None
    }
}

/// Append the textual name of a Country value.
fn write_country(out: &mut Vec<u8>, x: Country)
    ensures
        final(out)@ == old(out)@ + country_name(x),
{
    match x {
        Country::UnitedStates => {
            out.push(85);
            out.push(83);
        },
        Country::Canada => {
            out.push(67);
            out.push(65);
        },
        Country::Germany => {
            out.push(68);
            out.push(69);
        },
        Country::France => {
            out.push(70);
            out.push(82);
        },
        Country::India => {
            out.push(73);
            out.push(78);
        },
        Country::UnitedKingdom => {
            out.push(71);
            out.push(66);
        },
    }
    assert(out@ =~= old(out)@ + country_name(x));
}

/// Decode a scanned identifier as a Country value.
fn country_from_ident(ident: &Vec<u8>) -> (r: Option<Country>)
    ensures
        r == spec_country_from_name(ident@),
{
    if matches_name_country(ident, Country::UnitedStates) {
        Option::Some(Country::UnitedStates)
    } else if matches_name_country(ident, Country::Canada) {
        Option::Some(Country::Canada)
    } else if matches_name_country(ident, Country::Germany) {
        Option::Some(Country::Germany)
    } else if matches_name_country(ident, Country::France) {
        Option::Some(Country::France)
    } else if matches_name_country(ident, Country::India) {
        Option::Some(Country::India)
    } else if matches_name_country(ident, Country::UnitedKingdom) {
        Option::Some(Country::UnitedKingdom)
    } else {
        Option::None
    }
}

fn matches_name_country(ident: &Vec<u8>, x: Country) -> (r: bool)
    ensures
        r == (ident@ == country_name(x)),
{
    let mut name: Vec<u8> = Vec::new();
    write_country(&mut name, x);
    assert(name@ =~= country_name(x));
    eq_bytes(ident, &name)
}

/// The textual name of a Currency value in rule notation.
pub open spec fn currency_name(x: Currency) -> Seq<u8> {
    match x {
        // "USD"
        Currency::Usd => seq![85u8, 83u8, 68u8],
        // "EUR"
        Currency::Eur => seq![69u8, 85u8, 82u8],
        // "GBP"
        Currency::Gbp => seq![71u8, 66u8, 80u8],
        // "INR"
        Currency::Inr => seq![73u8, 78u8, 82u8],
        // "CAD"
        Currency::Cad => seq![67u8, 65u8, 68u8],
        // "JPY"
        Currency::Jpy => seq![74u8, 80u8, 89u8],
    }
}

/// The Currency value a textual name denotes, if any.
pub open spec fn spec_currency_from_name(s: Seq<u8>) -> Option<Currency> {
    if s == currency_name(Currency::Usd) {
        Some(Currency::Usd)
    } else if s == currency_name(Currency::Eur) {
        Some(Currency::Eur)
    } else if s == currency_name(Currency::Gbp) {
        Some(Currency::Gbp)
    } else if s == currency_name(Currency::Inr) {
        Some(Currency::Inr)
    } else if s == currency_name(Currency::Cad) {
        Some(Currency::Cad)
    } else if s == currency_name(Currency::Jpy) {
        Some(Currency::Jpy)
    } else {
        None
    }
}

/// Append the textual name of a Currency value.
fn write_currency(out: &mut Vec<u8>, x: Currency)
    ensures
        final(out)@ == old(out)@ + currency_name(x),
{
    match x {
        Currency::Usd => {
            out.push(85);
            out.push(83);
            out.push(68);
        },
        Currency::Eur => {
            out.push(69);
            out.push(85);
            out.push(82);
        },
        Currency::Gbp => {
            out.push(71);
            out.push(66);
            out.push(80);
        },
        Currency::Inr => {
            out.push(73);
            out.push(78);
            out.push(82);
        },
        Currency::Cad => {
            out.push(67);
            out.push(65);
            out.push(68);
        },
        Currency::Jpy => {
            out.push(74);
            out.push(80);
            out.push(89);
        },
    }
    assert(out@ =~= old(out)@ + currency_name(x));
}

/// Decode a scanned identifier as a Currency value.
fn currency_from_ident(ident: &Vec<u8>) -> (r: Option<Currency>)
    ensures
        r == spec_currency_from_name(ident@),
{
    if matches_name_currency(ident, Currency::Usd) {
        Option::Some(Currency::Usd)
    } else if matches_name_currency(ident, Currency::Eur) {
        Option::Some(Currency::Eur)
    } else if matches_name_currency(ident, Currency::Gbp) {
        Option::Some(Currency::Gbp)
    } else if matches_name_currency(ident, Currency::Inr) {
        Option::Some(Currency::Inr)
    } else if matches_name_currency(ident, Currency::Cad) {
        Option::Some(Currency::Cad)
    } else if matches_name_currency(ident, Currency::Jpy) {
        Option::Some(Currency::Jpy)
    } else {
        Option::None
    }
}

fn matches_name_currency(ident: &Vec<u8>, x: Currency) -> (r: bool)
    ensures
        r == (ident@ == currency_name(x)),
{
    let mut name: Vec<u8> = Vec::new();
    write_currency(&mut name, x);
    assert(name@ =~= currency_name(x));
    eq_bytes(ident, &name)
}

/// The textual name of a CaptureMethod value in rule notation.
pub open spec fn capture_method_name(x: CaptureMethod) -> Seq<u8> {
    match x {
        // "automatic"
        CaptureMethod::Automatic => seq![97u8, 117u8, 116u8, 111u8, 109u8, 97u8, 116u8, 105u8, 99u8],
        // "manual"
        CaptureMethod::Manual => seq![109u8, 97u8, 110u8, 117u8, 97u8, 108u8],
    }
}

/// The CaptureMethod value a textual name denotes, if any.
pub open spec fn spec_capture_method_from_name(s: Seq<u8>) -> Option<CaptureMethod> {
    if s == capture_method_name(CaptureMethod::Automatic) {
        Some(CaptureMethod::Automatic)
    } else if s == capture_method_name(CaptureMethod::Manual) {
        Some(CaptureMethod::Manual)
    } else {
        None
    }
}

/// Append the textual name of a CaptureMethod value.
fn write_capture_method(out: &mut Vec<u8>, x: CaptureMethod)
    ensures
        final(out)@ == old(out)@ + capture_method_name(x),
{
    match x {
        CaptureMethod::Automatic => {
            out.push(97);
            out.push(117);
            out.push(116);
            out.push(111);
            out.push(109);
            out.push(97);
            out.push(116);
            out.push(105);
            out.push(99);
        },
        CaptureMethod::Manual => {
            out.push(109);
            out.push(97);
            out.push(110);
            out.push(117);
            out.push(97);
            out.push(108);
        },
    }
    assert(out@ =~= old(out)@ + capture_method_name(x));
}

/// Decode a scanned identifier as a CaptureMethod value.
fn capture_method_from_ident(ident: &Vec<u8>) -> (r: Option<CaptureMethod>)
    ensures
        r == spec_capture_method_from_name(ident@),
{
    if matches_name_capturemethod(ident, CaptureMethod::Automatic) {
        Option::Some(CaptureMethod::Automatic)
    } else if matches_name_capturemethod(ident, CaptureMethod::Manual) {
        Option::Some(CaptureMethod::Manual)
    } else {
        Option::None
    }
}

fn matches_name_capturemethod(ident: &Vec<u8>, x: CaptureMethod) -> (r: bool)
    ensures
        r == (ident@ == capture_method_name(x)),
{
    let mut name: Vec<u8> = Vec::new();
    write_capture_method(&mut name, x);
    assert(name@ =~= capture_method_name(x));
    eq_bytes(ident, &name)
}

/// The textual name of a AuthenticationType value in rule notation.
pub open spec fn auth_type_name(x: AuthenticationType) -> Seq<u8> {
    match x {
        // "three_ds"
        AuthenticationType::ThreeDs => seq![116u8, 104u8, 114u8, 101u8, 101u8, 95u8, 100u8, 115u8],
        // "no_three_ds"
        AuthenticationType::NoThreeDs => seq![110u8, 111u8, 95u8, 116u8, 104u8, 114u8, 101u8, 101u8, 95u8, 100u8, 115u8],
    }
}

/// The AuthenticationType value a textual name denotes, if any.
pub open spec fn spec_auth_type_from_name(s: Seq<u8>) -> Option<AuthenticationType> {
    if s == auth_type_name(AuthenticationType::ThreeDs) {
        Some(AuthenticationType::ThreeDs)
    } else if s == auth_type_name(AuthenticationType::NoThreeDs) {
        Some(AuthenticationType::NoThreeDs)
    } else {
        None
    }
}

/// Append the textual name of a AuthenticationType value.
fn write_auth_type(out: &mut Vec<u8>, x: AuthenticationType)
    ensures
        final(out)@ == old(out)@ + auth_type_name(x),
{
    match x {
        AuthenticationType::ThreeDs => {
            out.push(116);
            out.push(104);
            out.push(114);
            out.push(101);
            out.push(101);
            out.push(95);
            out.push(100);
            out.push(115);
        },
        AuthenticationType::NoThreeDs => {
            out.push(110);
            out.push(111);
            out.push(95);
            out.push(116);
            out.push(104);
            out.push(114);
            out.push(101);
            out.push(101);
            out.push(95);
            out.push(100);
            out.push(115);
        },
    }
    assert(out@ =~= old(out)@ + auth_type_name(x));
}

/// Decode a scanned identifier as a AuthenticationType value.
fn auth_type_from_ident(ident: &Vec<u8>) -> (r: Option<AuthenticationType>)
    ensures
        r == spec_auth_type_from_name(ident@),
{
    if matches_name_authenticationtype(ident, AuthenticationType::ThreeDs) {
        Option::Some(AuthenticationType::ThreeDs)
    } else if matches_name_authenticationtype(ident, AuthenticationType::NoThreeDs) {
        Option::Some(AuthenticationType::NoThreeDs)
    } else {
        Option::None
    }
}

fn matches_name_authenticationtype(ident: &Vec<u8>, x: AuthenticationType) -> (r: bool)
    ensures
        r == (ident@ == auth_type_name(x)),
{
    let mut name: Vec<u8> = Vec::new();
    write_auth_type(&mut name, x);
    assert(name@ =~= auth_type_name(x));
    eq_bytes(ident, &name)
}

/// The textual name of a MandateType value in rule notation.
pub open spec fn mandate_type_name(x: MandateType) -> Seq<u8> {
    match x {
        // "single_use"
        MandateType::SingleUse => seq![115u8, 105u8, 110u8, 103u8, 108u8, 101u8, 95u8, 117u8, 115u8, 101u8],
        // "multi_use"
        MandateType::MultiUse => seq![109u8, 117u8, 108u8, 116u8, 105u8, 95u8, 117u8, 115u8, 101u8],
    }
}

/// The MandateType value a textual name denotes, if any.
pub open spec fn spec_mandate_type_from_name(s: Seq<u8>) -> Option<MandateType> {
    if s == mandate_type_name(MandateType::SingleUse) {
        Some(MandateType::SingleUse)
    } else if s == mandate_type_name(MandateType::MultiUse) {
        Some(MandateType::MultiUse)
    } else {
        None
    }
}

/// Append the textual name of a MandateType value.
fn write_mandate_type(out: &mut Vec<u8>, x: MandateType)
    ensures
        final(out)@ == old(out)@ + mandate_type_name(x),
{
    match x {
        MandateType::SingleUse => {
            out.push(115);
            out.push(105);
            out.push(110);
            out.push(103);
            out.push(108);
            out.push(101);
            out.push(95);
            out.push(117);
            out.push(115);
            out.push(101);
        },
        MandateType::MultiUse => {
            out.push(109);
            out.push(117);
            out.push(108);
            out.push(116);
            out.push(105);
            out.push(95);
            out.push(117);
            out.push(115);
            out.push(101);
        },
    }
    assert(out@ =~= old(out)@ + mandate_type_name(x));
}

/// Decode a scanned identifier as a MandateType value.
fn mandate_type_from_ident(ident: &Vec<u8>) -> (r: Option<MandateType>)
    ensures
        r == spec_mandate_type_from_name(ident@),
{
    if matches_name_mandatetype(ident, MandateType::SingleUse) {
        Option::Some(MandateType::SingleUse)
    } else if matches_name_mandatetype(ident, MandateType::MultiUse) {
        Option::Some(MandateType::MultiUse)
    } else {
        Option::None
    }
}

fn matches_name_mandatetype(ident: &Vec<u8>, x: MandateType) -> (r: bool)
    ensures
        r == (ident@ == mandate_type_name(x)),
{
    let mut name: Vec<u8> = Vec::new();
    write_mandate_type(&mut name, x);
    assert(name@ =~= mandate_type_name(x));
    eq_bytes(ident, &name)
}


fn matches_name_connector(ident: &Vec<u8>, x: Connector) -> (r: bool)
    ensures
        r == (ident@ == connector_name(x)),
{
    let name = connector_name_bytes(x);
    eq_bytes(ident, &name)
}

/// Decode a scanned identifier as a connector.
fn connector_from_ident(ident: &Vec<u8>) -> (r: Option<Connector>)
    ensures
        r == spec_connector_from_name(ident@),
{
    if matches_name_connector(ident, Connector::Stripe) {
        Option::Some(Connector::Stripe)
    } else if matches_name_connector(ident, Connector::Adyen) {
        Option::Some(Connector::Adyen)
    } else if matches_name_connector(ident, Connector::Checkout) {
        Option::Some(Connector::Checkout)
    } else if matches_name_connector(ident, Connector::Braintree) {
        Option::Some(Connector::Braintree)
    } else if matches_name_connector(ident, Connector::Paypal) {
        Option::Some(Connector::Paypal)
    } else {
        Option::None
    }
}

/// `"true"`
pub open spec fn lit_true() -> Seq<u8> {
    seq![116u8, 114u8, 117u8, 101u8]
}

/// `"not("`
pub open spec fn lit_not() -> Seq<u8> {
    seq![110u8, 111u8, 116u8, 40u8]
}

/// `"not_in("`
pub open spec fn lit_not_in() -> Seq<u8> {
    seq![110u8, 111u8, 116u8, 95u8, 105u8, 110u8, 40u8]
}

/// `"in("`
pub open spec fn lit_in() -> Seq<u8> {
    seq![105u8, 110u8, 40u8]
}

/// `" & "`
pub open spec fn lit_amp() -> Seq<u8> {
    seq![32u8, 38u8, 32u8]
}

/// `" | "`
pub open spec fn lit_pipe() -> Seq<u8> {
    seq![32u8, 124u8, 32u8]
}

/// `", "`
pub open spec fn lit_comma() -> Seq<u8> {
    seq![44u8, 32u8]
}

/// `": "`
pub open spec fn lit_colon() -> Seq<u8> {
    seq![58u8, 32u8]
}

/// `" -> "`
pub open spec fn lit_arrow() -> Seq<u8> {
    seq![32u8, 45u8, 62u8, 32u8]
}

/// The three-byte comparison prefix of an amount payload: `"eq "`, `"gt "`
/// or `"lt "`.
pub open spec fn cmp_name(r: Option<NumRefinement>) -> Seq<u8> {
    match r {
        Option::None => seq![101u8, 113u8, 32u8],
        Option::Some(NumRefinement::GreaterThan) => seq![103u8, 116u8, 32u8],
        Option::Some(NumRefinement::LessThan) => seq![108u8, 116u8, 32u8],
    }
}

/// The byte of one decimal digit.
pub open spec fn digit_byte(d: int) -> u8 {
    if d == 0 {
        48
    } else if d == 1 {
        49
    } else if d == 2 {
        50
    } else if d == 3 {
        51
    } else if d == 4 {
        52
    } else if d == 5 {
        53
    } else if d == 6 {
        54
    } else if d == 7 {
        55
    } else if d == 8 {
        56
    } else {
        57
    }
}

/// The canonical decimal notation of a number, most significant digit
/// first, without leading zeros.
pub open spec fn ser_nat(n: nat) -> Seq<u8>
    decreases n,
{
    if n < 10 {
        seq![digit_byte(n as int)]
    } else {
        ser_nat(n / 10).push(digit_byte((n % 10) as int))
    }
}

/// A quoted text payload.
pub open spec fn ser_quoted(b: Seq<u8>) -> Seq<u8> {
    seq![34u8] + b + seq![34u8]
}

/// The payload of a connector value: the name, then the quoted sub label if
/// one is present.
pub open spec fn ser_choice_payload(c: ConnectorChoiceModel) -> Seq<u8> {
    connector_name(c.connector) + (match c.sub_label {
        Option::Some(l) => seq![32u8] + ser_quoted(l),
        Option::None => Seq::empty(),
    })
}

/// The payload between the parentheses of a value.
pub open spec fn ser_payload(v: DirValueModel) -> Seq<u8> {
    match v {
        DirValueModel::PaymentMethod(x) => payment_method_name(x),
        DirValueModel::CardNetwork(x) => card_network_name(x),
        DirValueModel::Country(x) => country_name(x),
        DirValueModel::PaymentCurrency(x) => currency_name(x),
        DirValueModel::CaptureMethod(x) => capture_method_name(x),
        DirValueModel::AuthenticationType(x) => auth_type_name(x),
        DirValueModel::MandateType(x) => mandate_type_name(x),
        DirValueModel::PaymentAmount(nv) => cmp_name(nv.refinement) + ser_nat(nv.number as nat),
        DirValueModel::BusinessLabel(b) => ser_quoted(b),
        DirValueModel::MetaData(m) => ser_quoted(m.key) + seq![32u8] + ser_quoted(m.value),
        DirValueModel::Connector(c) => ser_choice_payload(c),
    }
}

/// The notation of one value: `key(payload)`.
pub open spec fn ser_value(v: DirValueModel) -> Seq<u8> {
    key_name(key_of(v)) + seq![40u8] + ser_payload(v) + seq![41u8]
}

/// The notation of a value list from position `i` on, comma separated.
pub open spec fn ser_values_from(vs: Seq<DirValueModel>, i: int) -> Seq<u8>
    decreases vs.len() - i,
{
    if i < 0 || i >= vs.len() {
        Seq::empty()
    } else if i == vs.len() - 1 {
        ser_value(vs[i])
    } else {
        ser_value(vs[i]) + lit_comma() + ser_values_from(vs, i + 1)
    }
}

/// The notation of a guard.
pub open spec fn ser_guard(g: GuardModel) -> Seq<u8>
    decreases g,
{
    match g {
        GuardModel::Always => lit_true(),
        GuardModel::Is(v) => ser_value(v),
        GuardModel::IsNot(v) => lit_not() + ser_value(v) + seq![41u8],
        GuardModel::AnyOf(vs) => lit_in() + ser_values_from(vs, 0) + seq![41u8],
        GuardModel::NoneOf(vs) => lit_not_in() + ser_values_from(vs, 0) + seq![41u8],
        GuardModel::And(a, b) => seq![40u8] + ser_guard(*a) + lit_amp() + ser_guard(*b)
            + seq![41u8],
        GuardModel::Or(a, b) => seq![40u8] + ser_guard(*a) + lit_pipe() + ser_guard(*b)
            + seq![41u8],
    }
}

/// The notation of a whole rule: `name: guard -> connector(...)`.
pub open spec fn ser_rule(r: RuleModel) -> Seq<u8> {
    r.name + lit_colon() + ser_guard(r.guard) + lit_arrow() + ser_value(
        DirValueModel::Connector(r.output),
    )
}

/// A byte an identifier may hold: a letter, digit or underscore.
pub open spec fn is_ident_byte(b: u8) -> bool {
    (97 <= b <= 122) || (65 <= b <= 90) || (48 <= b <= 57) || b == 95
}

/// Text a quoted payload may hold: printable ASCII except the quote.
pub open spec fn wf_text(b: Seq<u8>) -> bool {
    forall|i: int| 0 <= i < b.len() ==> 32 <= #[trigger] b[i] <= 126 && b[i] != 34
}

/// A non-empty run of identifier bytes.
pub open spec fn wf_ident(b: Seq<u8>) -> bool {
    b.len() > 0 && (forall|i: int| 0 <= i < b.len() ==> is_ident_byte(#[trigger] b[i]))
}

/// Whether a connector choice can be written in the notation.
pub open spec fn wf_choice(c: ConnectorChoiceModel) -> bool {
    match c.sub_label {
        Option::Some(l) => wf_text(l),
        Option::None => true,
    }
}

/// Whether a value can be written in the notation.
pub open spec fn wf_value(v: DirValueModel) -> bool {
    match v {
        DirValueModel::BusinessLabel(b) => wf_text(b),
        DirValueModel::MetaData(m) => wf_text(m.key) && wf_text(m.value),
        DirValueModel::Connector(c) => wf_choice(c),
        _ => true,
    }
}

/// Whether a value list can be written: non-empty, every value writable.
pub open spec fn wf_values(vs: Seq<DirValueModel>) -> bool {
    vs.len() > 0 && (forall|i: int| 0 <= i < vs.len() ==> wf_value(#[trigger] vs[i]))
}

/// Whether a guard can be written in the notation.
pub open spec fn wf_guard(g: GuardModel) -> bool
    decreases g,
{
    match g {
        GuardModel::Always => true,
        GuardModel::Is(v) => wf_value(v),
        GuardModel::IsNot(v) => wf_value(v),
        GuardModel::AnyOf(vs) => wf_values(vs),
        GuardModel::NoneOf(vs) => wf_values(vs),
        GuardModel::And(a, b) => wf_guard(*a) && wf_guard(*b),
        GuardModel::Or(a, b) => wf_guard(*a) && wf_guard(*b),
    }
}

/// Whether a rule can be written in the notation: an identifier name, a
/// writable guard and output.
pub open spec fn wf_rule(r: RuleModel) -> bool {
    wf_ident(r.name) && wf_guard(r.guard) && wf_choice(r.output)
}

fn append_bytes(out: &mut Vec<u8>, b: &Vec<u8>)
    ensures
        final(out)@ == old(out)@ + b@,
{
    let mut i: usize = 0;
    while i < b.len()
        invariant
            i <= b@.len(),
            out@ == old(out)@ + b@.subrange(0, i as int),
        decreases b@.len() - i,
    {
        out.push(b[i]);
        assert(out@ =~= old(out)@ + b@.subrange(0, i + 1 as int));
        i = i + 1;
    }
    assert(out@ =~= old(out)@ + b@);
}

fn write_quoted(out: &mut Vec<u8>, b: &Vec<u8>)
    ensures
        final(out)@ == old(out)@ + ser_quoted(b@),
{
    out.push(34);
    append_bytes(out, b);
    out.push(34);
    assert(out@ =~= old(out)@ + ser_quoted(b@));
}

fn write_number(out: &mut Vec<u8>, n: u64)
    ensures
        final(out)@ == old(out)@ + ser_nat(n as nat),
    decreases n,
{
    if n < 10 {
        push_digit(out, n);
        assert(out@ =~= old(out)@ + ser_nat(n as nat));
    } else {
        write_number(out, n / 10);
        push_digit(out, n % 10);
        assert(out@ =~= old(out)@ + ser_nat(n as nat));
    }
}

fn push_digit(out: &mut Vec<u8>, d: u64)
    requires
        d < 10,
    ensures
        final(out)@ == old(out)@.push(digit_byte(d as int)),
{
    if d == 0 {
        out.push(48);
    } else if d == 1 {
        out.push(49);
    } else if d == 2 {
        out.push(50);
    } else if d == 3 {
        out.push(51);
    } else if d == 4 {
        out.push(52);
    } else if d == 5 {
        out.push(53);
    } else if d == 6 {
        out.push(54);
    } else if d == 7 {
        out.push(55);
    } else if d == 8 {
        out.push(56);
    } else {
        out.push(57);
    }
}

fn write_cmp(out: &mut Vec<u8>, r: Option<NumRefinement>)
    ensures
        final(out)@ == old(out)@ + cmp_name(r),
{
    match r {
        Option::None => {
            out.push(101);
            out.push(113);
            out.push(32);
        },
        Option::Some(NumRefinement::GreaterThan) => {
            out.push(103);
            out.push(116);
            out.push(32);
        },
        Option::Some(NumRefinement::LessThan) => {
            out.push(108);
            out.push(116);
            out.push(32);
        },
    }
    assert(out@ =~= old(out)@ + cmp_name(r));
}

fn write_connector(out: &mut Vec<u8>, x: Connector)
    ensures
        final(out)@ == old(out)@ + connector_name(x),
{
    let name = connector_name_bytes(x);
    append_bytes(out, &name);
}

fn write_choice_payload(out: &mut Vec<u8>, c: &ConnectorChoice)
    ensures
        final(out)@ == old(out)@ + ser_choice_payload(c.deep_view()),
{
    broadcast use crate::dir::lemma_bytes_deep_view;

    write_connector(out, c.connector);
    match &c.sub_label {
        Option::Some(l) => {
            out.push(32);
            write_quoted(out, l);
        },
        Option::None => {},
    }
    assert(out@ =~= old(out)@ + ser_choice_payload(c.deep_view()));
}

fn write_value(out: &mut Vec<u8>, v: &DirValue)
    ensures
        final(out)@ == old(out)@ + ser_value(v.deep_view()),
{
    broadcast use crate::dir::lemma_bytes_deep_view;

    let k = v.key();
    let kn = key_name_bytes(k);
    append_bytes(out, &kn);
    out.push(40);
    match v {
        DirValue::PaymentMethod(x) => write_payment_method(out, *x),
        DirValue::CardNetwork(x) => write_card_network(out, *x),
        DirValue::Country(x) => write_country(out, *x),
        DirValue::PaymentCurrency(x) => write_currency(out, *x),
        DirValue::CaptureMethod(x) => write_capture_method(out, *x),
        DirValue::AuthenticationType(x) => write_auth_type(out, *x),
        DirValue::MandateType(x) => write_mandate_type(out, *x),
        DirValue::PaymentAmount(nv) => {
            write_cmp(out, nv.refinement);
            write_number(out, nv.number);
        },
        DirValue::BusinessLabel(b) => write_quoted(out, b),
        DirValue::MetaData(m) => {
            write_quoted(out, &m.key);
            out.push(32);
            write_quoted(out, &m.value);
        },
        DirValue::Connector(c) => write_choice_payload(out, c),
    }
    out.push(41);
    assert(out@ =~= old(out)@ + ser_value(v.deep_view()));
}

fn write_values(out: &mut Vec<u8>, vs: &Vec<DirValue>, i: usize)
    requires
        i <= vs@.len(),
    ensures
        final(out)@ == old(out)@ + ser_values_from(vs.deep_view(), i as int),
    decreases vs@.len() - i,
{
    if i < vs.len() {
        write_value(out, &vs[i]);
        if i + 1 < vs.len() {
            out.push(44);
            out.push(32);
            write_values(out, vs, i + 1);
        }
    }
    assert(out@ =~= old(out)@ + ser_values_from(vs.deep_view(), i as int));
}

fn write_guard(out: &mut Vec<u8>, g: &Guard)
    ensures
        final(out)@ == old(out)@ + ser_guard(g.deep_view()),
    decreases *g,
{
    match g {
        Guard::Always => {
            out.push(116);
            out.push(114);
            out.push(117);
            out.push(101);
        },
        Guard::Is(v) => write_value(out, v),
        Guard::IsNot(v) => {
            out.push(110);
            out.push(111);
            out.push(116);
            out.push(40);
            write_value(out, v);
            out.push(41);
        },
        Guard::AnyOf(vs) => {
            out.push(105);
            out.push(110);
            out.push(40);
            write_values(out, vs, 0);
            out.push(41);
        },
        Guard::NoneOf(vs) => {
            out.push(110);
            out.push(111);
            out.push(116);
            out.push(95);
            out.push(105);
            out.push(110);
            out.push(40);
            write_values(out, vs, 0);
            out.push(41);
        },
        Guard::And(a, b) => {
            out.push(40);
            write_guard(out, a);
            out.push(32);
            out.push(38);
            out.push(32);
            write_guard(out, b);
            out.push(41);
        },
        Guard::Or(a, b) => {
            out.push(40);
            write_guard(out, a);
            out.push(32);
            out.push(124);
            out.push(32);
            write_guard(out, b);
            out.push(41);
        },
    }
    assert(out@ =~= old(out)@ + ser_guard(g.deep_view()));
}

/// Write a rule in the canonical textual notation.
pub fn serialize_rule(r: &Rule) -> (out: Vec<u8>)
    ensures
        out@ == ser_rule(r.deep_view()),
{
    broadcast use crate::dir::lemma_bytes_deep_view;

    let mut out: Vec<u8> = Vec::new();
    append_bytes(&mut out, &r.name);
    out.push(58);
    out.push(32);
    write_guard(&mut out, &r.guard);
    out.push(32);
    out.push(45);
    out.push(62);
    out.push(32);
    let conn = DirValue::Connector(r.output.duplicate());
    write_value(&mut out, &conn);
    assert(out@ =~= ser_rule(r.deep_view()));
    out
}


/// Whether the text holds exactly `lit` at position `pos`.
pub open spec fn match_lit(s: Seq<u8>, pos: int, lit: Seq<u8>) -> bool {
    0 <= pos && pos + lit.len() <= s.len() && s.subrange(pos, pos + lit.len() as int) == lit
}

/// A decimal digit byte.
pub open spec fn is_digit_byte(b: u8) -> bool {
    48 <= b <= 57
}

/// The value of one decimal digit byte.
pub open spec fn digit_val(b: u8) -> int {
    b - 48
}

/// The first position at or after `pos` holding no identifier byte.
pub open spec fn scan_ident(s: Seq<u8>, pos: int) -> int
    decreases s.len() - pos,
{
    if pos < 0 || pos >= s.len() {
        pos
    } else if is_ident_byte(s[pos]) {
        scan_ident(s, pos + 1)
    } else {
        pos
    }
}

/// The first position at or after `pos` holding no digit byte.
pub open spec fn scan_digits(s: Seq<u8>, pos: int) -> int
    decreases s.len() - pos,
{
    if pos < 0 || pos >= s.len() {
        pos
    } else if is_digit_byte(s[pos]) {
        scan_digits(s, pos + 1)
    } else {
        pos
    }
}

/// The first position at or after `pos` holding a quote, or the text's end.
pub open spec fn scan_quote(s: Seq<u8>, pos: int) -> int
    decreases s.len() - pos,
{
    if pos < 0 || pos >= s.len() {
        pos
    } else if s[pos] == 34 {
        pos
    } else {
        scan_quote(s, pos + 1)
    }
}

/// The value of the digit run `s[from..to]`, most significant digit first.
pub open spec fn digits_val(s: Seq<u8>, from: int, to: int) -> int
    decreases to - from,
{
    if to <= from {
        0
    } else {
        digits_val(s, from, to - 1) * 10 + digit_val(s[to - 1])
    }
}

/// Parse a quoted text payload: `"` content `"`.
pub open spec fn parse_quoted(s: Seq<u8>, pos: int) -> Option<(Seq<u8>, int)> {
    if pos < 0 || pos >= s.len() || s[pos] != 34 {
        None
    } else {
        let e = scan_quote(s, pos + 1);
        if e >= s.len() {
            None
        } else {
            Some((s.subrange(pos + 1, e), e + 1))
        }
    }
}

/// Parse a decimal number that fits a minor-unit amount.
pub open spec fn parse_number(s: Seq<u8>, pos: int) -> Option<(u64, int)> {
    if pos < 0 {
        None
    } else {
        let e = scan_digits(s, pos);
        if e <= pos {
            None
        } else {
            let n = digits_val(s, pos, e);
            if n > u64::MAX {
                None
            } else {
                Some((n as u64, e))
            }
        }
    }
}

/// Parse the payload between a value's parentheses, the closing parenthesis
/// included, for the given key.
pub open spec fn parse_payload(s: Seq<u8>, pos: int, k: DirKey) -> Option<(DirValueModel, int)> {
    if pos < 0 {
        None
    } else {
        match k {
            DirKey::PaymentMethod => {
                let e = scan_ident(s, pos);
                if e < s.len() && s[e] == 41 {
                    match spec_payment_method_from_name(s.subrange(pos, e)) {
                        Some(x) => Some((DirValueModel::PaymentMethod(x), e + 1)),
                        None => None,
                    }
                } else {
                    None
                }
            },
            DirKey::CardNetwork => {
                let e = scan_ident(s, pos);
                if e < s.len() && s[e] == 41 {
                    match spec_card_network_from_name(s.subrange(pos, e)) {
                        Some(x) => Some((DirValueModel::CardNetwork(x), e + 1)),
                        None => None,
                    }
                } else {
                    None
                }
            },
            DirKey::Country => {
                let e = scan_ident(s, pos);
                if e < s.len() && s[e] == 41 {
                    match spec_country_from_name(s.subrange(pos, e)) {
                        Some(x) => Some((DirValueModel::Country(x), e + 1)),
                        None => None,
                    }
                } else {
                    None
                }
            },
            DirKey::PaymentCurrency => {
                let e = scan_ident(s, pos);
                if e < s.len() && s[e] == 41 {
                    match spec_currency_from_name(s.subrange(pos, e)) {
                        Some(x) => Some((DirValueModel::PaymentCurrency(x), e + 1)),
                        None => None,
                    }
                } else {
                    None
                }
            },
            DirKey::CaptureMethod => {
                let e = scan_ident(s, pos);
                if e < s.len() && s[e] == 41 {
                    match spec_capture_method_from_name(s.subrange(pos, e)) {
                        Some(x) => Some((DirValueModel::CaptureMethod(x), e + 1)),
                        None => None,
                    }
                } else {
                    None
                }
            },
            DirKey::AuthenticationType => {
                let e = scan_ident(s, pos);
                if e < s.len() && s[e] == 41 {
                    match spec_auth_type_from_name(s.subrange(pos, e)) {
                        Some(x) => Some((DirValueModel::AuthenticationType(x), e + 1)),
                        None => None,
                    }
                } else {
                    None
                }
            },
            DirKey::MandateType => {
                let e = scan_ident(s, pos);
                if e < s.len() && s[e] == 41 {
                    match spec_mandate_type_from_name(s.subrange(pos, e)) {
                        Some(x) => Some((DirValueModel::MandateType(x), e + 1)),
                        None => None,
                    }
                } else {
                    None
                }
            },
            DirKey::PaymentAmount => {
                let c: Option<Option<NumRefinement>> = if match_lit(s, pos, cmp_name(Option::None)) {
                    Some(Option::None)
                } else if match_lit(s, pos, cmp_name(Option::Some(NumRefinement::GreaterThan))) {
                    Some(Option::Some(NumRefinement::GreaterThan))
                } else if match_lit(s, pos, cmp_name(Option::Some(NumRefinement::LessThan))) {
                    Some(Option::Some(NumRefinement::LessThan))
                } else {
                    None
                };
                match c {
                    None => None,
                    Some(refinement) => match parse_number(s, pos + 3) {
                        None => None,
                        Some((n, p)) => if p < s.len() && s[p] == 41 {
                            Some(
                                (
                                    DirValueModel::PaymentAmount(
                                        NumValue { number: n, refinement },
                                    ),
                                    p + 1,
                                ),
                            )
                        } else {
                            None
                        },
                    },
                }
            },
            DirKey::BusinessLabel => match parse_quoted(s, pos) {
                Some((b, p)) => if p < s.len() && s[p] == 41 {
                    Some((DirValueModel::BusinessLabel(b), p + 1))
                } else {
                    None
                },
                None => None,
            },
            DirKey::MetaData => match parse_quoted(s, pos) {
                Some((kq, p)) => if p < s.len() && s[p] == 32 {
                    match parse_quoted(s, p + 1) {
                        Some((vq, p2)) => if p2 < s.len() && s[p2] == 41 {
                            Some(
                                (
                                    DirValueModel::MetaData(
                                        MetadataValueModel { key: kq, value: vq },
                                    ),
                                    p2 + 1,
                                ),
                            )
                        } else {
                            None
                        },
                        None => None,
                    }
                } else {
                    None
                },
                None => None,
            },
            DirKey::Connector => {
                let e = scan_ident(s, pos);
                match spec_connector_from_name(s.subrange(pos, e)) {
                    None => None,
                    Some(c) => if e < s.len() && s[e] == 41 {
                        Some(
                            (
                                DirValueModel::Connector(
                                    ConnectorChoiceModel { connector: c, sub_label: Option::None },
                                ),
                                e + 1,
                            ),
                        )
                    } else if e < s.len() && s[e] == 32 {
                        match parse_quoted(s, e + 1) {
                            Some((l, p)) => if p < s.len() && s[p] == 41 {
                                Some(
                                    (
                                        DirValueModel::Connector(
                                            ConnectorChoiceModel {
                                                connector: c,
                                                sub_label: Option::Some(l),
                                            },
                                        ),
                                        p + 1,
                                    ),
                                )
                            } else {
                                None
                            },
                            None => None,
                        }
                    } else {
                        None
                    },
                }
            },
        }
    }
}

/// Parse one value: `key(payload)`.
pub open spec fn parse_value(s: Seq<u8>, pos: int) -> Option<(DirValueModel, int)> {
    if pos < 0 {
        None
    } else {
        let e = scan_ident(s, pos);
        if e >= s.len() || s[e] != 40 {
            None
        } else {
            match spec_key_from_name(s.subrange(pos, e)) {
                None => None,
                Some(k) => parse_payload(s, e + 1, k),
            }
        }
    }
}

/// Parse a non-empty comma-separated value list.
pub open spec fn parse_values(s: Seq<u8>, pos: int) -> Option<(Seq<DirValueModel>, int)>
    decreases s.len() - pos,
{
    match parse_value(s, pos) {
        None => None,
        Some((v, p)) => if p <= pos {
            None
        } else if match_lit(s, p, lit_comma()) {
            match parse_values(s, p + 2) {
                Some((vs, p2)) => Some((seq![v] + vs, p2)),
                None => None,
            }
        } else {
            Some((seq![v], p))
        },
    }
}

/// Parse a guard in the canonical notation.
pub open spec fn parse_guard(s: Seq<u8>, pos: int) -> Option<(GuardModel, int)>
    decreases s.len() - pos,
{
    if match_lit(s, pos, lit_true()) {
        Some((GuardModel::Always, pos + 4))
    } else if match_lit(s, pos, lit_not_in()) {
        match parse_values(s, pos + 7) {
            Some((vs, p)) => if p < s.len() && s[p] == 41 {
                Some((GuardModel::NoneOf(vs), p + 1))
            } else {
                None
            },
            None => None,
        }
    } else if match_lit(s, pos, lit_not()) {
        match parse_value(s, pos + 4) {
            Some((v, p)) => if p < s.len() && s[p] == 41 {
                Some((GuardModel::IsNot(v), p + 1))
            } else {
                None
            },
            None => None,
        }
    } else if match_lit(s, pos, lit_in()) {
        match parse_values(s, pos + 3) {
            Some((vs, p)) => if p < s.len() && s[p] == 41 {
                Some((GuardModel::AnyOf(vs), p + 1))
            } else {
                None
            },
            None => None,
        }
    } else if 0 <= pos && pos < s.len() && s[pos] == 40 {
        match parse_guard(s, pos + 1) {
            None => None,
            Some((g1, p1)) => if p1 <= pos {
                None
            } else if match_lit(s, p1, lit_amp()) {
                match parse_guard(s, p1 + 3) {
                    None => None,
                    Some((g2, p2)) => if p2 < s.len() && s[p2] == 41 {
                        Some((GuardModel::And(Box::new(g1), Box::new(g2)), p2 + 1))
                    } else {
                        None
                    },
                }
            } else if match_lit(s, p1, lit_pipe()) {
                match parse_guard(s, p1 + 3) {
                    None => None,
                    Some((g2, p2)) => if p2 < s.len() && s[p2] == 41 {
                        Some((GuardModel::Or(Box::new(g1), Box::new(g2)), p2 + 1))
                    } else {
                        None
                    },
                }
            } else {
                None
            },
        }
    } else {
        match parse_value(s, pos) {
            Some((v, p)) => Some((GuardModel::Is(v), p)),
            None => None,
        }
    }
}

/// Parse a whole rule; the text must be consumed exactly.
pub open spec fn spec_parse_rule(s: Seq<u8>) -> Option<RuleModel> {
    let e = scan_ident(s, 0);
    if e <= 0 || !match_lit(s, e, lit_colon()) {
        None
    } else {
        match parse_guard(s, e + 2) {
            None => None,
            Some((g, p)) => if !match_lit(s, p, lit_arrow()) {
                None
            } else {
                match parse_value(s, p + 4) {
                    Some((DirValueModel::Connector(c), p2)) => if p2 == s.len() {
                        Some(RuleModel { name: s.subrange(0, e), guard: g, output: c })
                    } else {
                        None
                    },
                    _ => None,
                }
            },
        }
    }
}




proof fn lemma_match_lit_bytes(s: Seq<u8>, pos: int, lit: Seq<u8>)
    requires
        match_lit(s, pos, lit),
    ensures
        forall|j: int| 0 <= j < lit.len() ==> s[pos + j] == lit[j],
{
    assert forall|j: int| 0 <= j < lit.len() implies s[pos + j] == lit[j] by {
        assert(s.subrange(pos, pos + lit.len() as int)[j] == lit[j]);
    }
}

proof fn lemma_split_match(s: Seq<u8>, pos: int, a: Seq<u8>, b: Seq<u8>)
    requires
        match_lit(s, pos, a + b),
    ensures
        match_lit(s, pos, a),
        match_lit(s, pos + a.len(), b),
{
    assert(s.subrange(pos, pos + a.len() as int) =~= (a + b).subrange(0, a.len() as int));
    assert((a + b).subrange(0, a.len() as int) =~= a);
    assert(s.subrange(pos + a.len(), pos + a.len() + b.len() as int) =~= (a + b).subrange(
        a.len() as int,
        (a + b).len() as int,
    ));
    assert((a + b).subrange(a.len() as int, (a + b).len() as int) =~= b);
}

proof fn lemma_no_match_at(s: Seq<u8>, pos: int, lit: Seq<u8>, i: int)
    requires
        0 <= pos,
        0 <= i < lit.len(),
        pos + i < s.len(),
        s[pos + i] != lit[i],
    ensures
        !match_lit(s, pos, lit),
{
    if match_lit(s, pos, lit) {
        lemma_match_lit_bytes(s, pos, lit);
    }
}

proof fn lemma_scan_ident_run(s: Seq<u8>, pos: int, n: int)
    requires
        0 <= pos,
        0 <= n,
        pos + n < s.len(),
        forall|j: int| pos <= j < pos + n ==> is_ident_byte(#[trigger] s[j]),
        !is_ident_byte(s[pos + n]),
    ensures
        scan_ident(s, pos) == pos + n,
    decreases n,
{
    if n > 0 {
        assert(is_ident_byte(s[pos]));
        lemma_scan_ident_run(s, pos + 1, n - 1);
    }
}

proof fn lemma_scan_digits_run(s: Seq<u8>, pos: int, n: int)
    requires
        0 <= pos,
        0 <= n,
        pos + n < s.len(),
        forall|j: int| pos <= j < pos + n ==> is_digit_byte(#[trigger] s[j]),
        !is_digit_byte(s[pos + n]),
    ensures
        scan_digits(s, pos) == pos + n,
    decreases n,
{
    if n > 0 {
        assert(is_digit_byte(s[pos]));
        lemma_scan_digits_run(s, pos + 1, n - 1);
    }
}

proof fn lemma_scan_quote_run(s: Seq<u8>, pos: int, n: int)
    requires
        0 <= pos,
        0 <= n,
        pos + n < s.len(),
        forall|j: int| pos <= j < pos + n ==> s[j] != 34,
        s[pos + n] == 34,
    ensures
        scan_quote(s, pos) == pos + n,
    decreases n,
{
    if n > 0 {
        lemma_scan_quote_run(s, pos + 1, n - 1);
    }
}

proof fn lemma_parse_quoted_inverse(s: Seq<u8>, pos: int, b: Seq<u8>)
    requires
        wf_text(b),
        match_lit(s, pos, ser_quoted(b)),
    ensures
        parse_quoted(s, pos) == Some((b, pos + ser_quoted(b).len() as int)),
{
    lemma_match_lit_bytes(s, pos, ser_quoted(b));
    assert(s[pos + 0] == ser_quoted(b)[0]);
    assert(s[pos] == 34);
    assert forall|j: int| pos + 1 <= j < pos + 1 + b.len() implies s[j] != 34 by {
        assert(s[j] == ser_quoted(b)[j - pos]);
        assert(ser_quoted(b)[j - pos] == b[j - pos - 1]);
    }
    assert(s[pos + (1 + b.len())] == ser_quoted(b)[(1 + b.len()) as int]);
    assert(ser_quoted(b)[(1 + b.len()) as int] == 34);
    assert(s[pos + 1 + b.len()] == 34);
    lemma_scan_quote_run(s, pos + 1, b.len() as int);
    assert(s.subrange(pos + 1, pos + 1 + b.len() as int) =~= b) by {
        assert forall|j: int| 0 <= j < b.len() implies s.subrange(
            pos + 1,
            pos + 1 + b.len() as int,
        )[j] == b[j] by {
            assert(s[pos + 1 + j] == ser_quoted(b)[1 + j]);
        }
    }
}

proof fn lemma_ser_nat_digits(n: nat)
    ensures
        ser_nat(n).len() >= 1,
        forall|i: int| 0 <= i < ser_nat(n).len() ==> is_digit_byte(#[trigger] ser_nat(n)[i]),
    decreases n,
{
    if n >= 10 {
        lemma_ser_nat_digits(n / 10);
    }
}

proof fn lemma_digits_val_ser_nat(s: Seq<u8>, pos: int, n: nat)
    requires
        match_lit(s, pos, ser_nat(n)),
    ensures
        digits_val(s, pos, pos + ser_nat(n).len() as int) == n,
    decreases n,
{
    lemma_match_lit_bytes(s, pos, ser_nat(n));
    if n < 10 {
        assert(s[pos + 0] == ser_nat(n)[0]);
        assert(s[pos] == digit_byte(n as int));
        assert(digits_val(s, pos, pos) == 0);
        assert(digits_val(s, pos, pos + 1) == digit_val(digit_byte(n as int)));
    } else {
        let prefix = ser_nat(n / 10);
        assert(ser_nat(n) =~= prefix + seq![digit_byte((n % 10) as int)]);
        lemma_split_match(s, pos, prefix, seq![digit_byte((n % 10) as int)]);
        lemma_digits_val_ser_nat(s, pos, n / 10);
        lemma_match_lit_bytes(s, pos + prefix.len(), seq![digit_byte((n % 10) as int)]);
        assert(s[pos + prefix.len() + 0] == seq![digit_byte((n % 10) as int)][0]);
        assert(s[pos + prefix.len()] == digit_byte((n % 10) as int));
        assert(digits_val(s, pos, pos + ser_nat(n).len() as int) == digits_val(
            s,
            pos,
            pos + prefix.len() as int,
        ) * 10 + digit_val(s[pos + prefix.len()]));
        assert(digit_val(digit_byte((n % 10) as int)) == n % 10);
        assert((n / 10) * 10 + (n % 10) == n) by (nonlinear_arith);
    }
}

proof fn lemma_parse_number_inverse(s: Seq<u8>, pos: int, n: u64)
    requires
        match_lit(s, pos, ser_nat(n as nat)),
        pos + ser_nat(n as nat).len() < s.len(),
        !is_digit_byte(s[pos + ser_nat(n as nat).len()]),
    ensures
        parse_number(s, pos) == Some((n, pos + ser_nat(n as nat).len() as int)),
{
    lemma_ser_nat_digits(n as nat);
    lemma_match_lit_bytes(s, pos, ser_nat(n as nat));
    let l = ser_nat(n as nat).len() as int;
    assert forall|j: int| pos <= j < pos + l implies is_digit_byte(#[trigger] s[j]) by {
        assert(s[j] == ser_nat(n as nat)[j - pos]);
    }
    lemma_scan_digits_run(s, pos, l);
    lemma_digits_val_ser_nat(s, pos, n as nat);
}

proof fn lemma_payment_method_name_facts(x: PaymentMethod)
    ensures
        payment_method_name(x).len() > 0,
        forall|i: int| 0 <= i < payment_method_name(x).len() ==> is_ident_byte(#[trigger] payment_method_name(x)[i]),
        spec_payment_method_from_name(payment_method_name(x)) == Some(x),
{
    match x {
        PaymentMethod::Card => {
            assert(forall|i: int| 0 <= i < payment_method_name(x).len() ==> is_ident_byte(#[trigger] payment_method_name(x)[i]));
            assert(spec_payment_method_from_name(payment_method_name(x)) == Some(x));
        },
        PaymentMethod::Wallet => {
            assert(forall|i: int| 0 <= i < payment_method_name(x).len() ==> is_ident_byte(#[trigger] payment_method_name(x)[i]));
            assert(spec_payment_method_from_name(payment_method_name(x)) == Some(x));
        },
        PaymentMethod::PayLater => {
            assert(forall|i: int| 0 <= i < payment_method_name(x).len() ==> is_ident_byte(#[trigger] payment_method_name(x)[i]));
            assert(spec_payment_method_from_name(payment_method_name(x)) == Some(x));
        },
        PaymentMethod::BankDebit => {
            assert(forall|i: int| 0 <= i < payment_method_name(x).len() ==> is_ident_byte(#[trigger] payment_method_name(x)[i]));
            assert(spec_payment_method_from_name(payment_method_name(x)) == Some(x));
        },
        PaymentMethod::Crypto => {
            assert(forall|i: int| 0 <= i < payment_method_name(x).len() ==> is_ident_byte(#[trigger] payment_method_name(x)[i]));
            assert(spec_payment_method_from_name(payment_method_name(x)) == Some(x));
        },
    }
}

proof fn lemma_card_network_name_facts(x: CardNetwork)
    ensures
        card_network_name(x).len() > 0,
        forall|i: int| 0 <= i < card_network_name(x).len() ==> is_ident_byte(#[trigger] card_network_name(x)[i]),
        spec_card_network_from_name(card_network_name(x)) == Some(x),
{
    match x {
        CardNetwork::Visa => {
            assert(forall|i: int| 0 <= i < card_network_name(x).len() ==> is_ident_byte(#[trigger] card_network_name(x)[i]));
            assert(spec_card_network_from_name(card_network_name(x)) == Some(x));
        },
        CardNetwork::Mastercard => {
            assert(forall|i: int| 0 <= i < card_network_name(x).len() ==> is_ident_byte(#[trigger] card_network_name(x)[i]));
            assert(spec_card_network_from_name(card_network_name(x)) == Some(x));
        },
        CardNetwork::Amex => {
            assert(forall|i: int| 0 <= i < card_network_name(x).len() ==> is_ident_byte(#[trigger] card_network_name(x)[i]));
            assert(spec_card_network_from_name(card_network_name(x)) == Some(x));
        },
        CardNetwork::Discover => {
            assert(forall|i: int| 0 <= i < card_network_name(x).len() ==> is_ident_byte(#[trigger] card_network_name(x)[i]));
            assert(spec_card_network_from_name(card_network_name(x)) == Some(x));
        },
        CardNetwork::Rupay => {
            assert(forall|i: int| 0 <= i < card_network_name(x).len() ==> is_ident_byte(#[trigger] card_network_name(x)[i]));
            assert(spec_card_network_from_name(card_network_name(x)) == Some(x));
        },
    }
}

proof fn lemma_country_name_facts(x: Country)
    ensures
        country_name(x).len() > 0,
        forall|i: int| 0 <= i < country_name(x).len() ==> is_ident_byte(#[trigger] country_name(x)[i]),
        spec_country_from_name(country_name(x)) == Some(x),
{
    match x {
        Country::UnitedStates => {
            assert(forall|i: int| 0 <= i < country_name(x).len() ==> is_ident_byte(#[trigger] country_name(x)[i]));
            assert(spec_country_from_name(country_name(x)) == Some(x));
        },
        Country::Canada => {
            assert(forall|i: int| 0 <= i < country_name(x).len() ==> is_ident_byte(#[trigger] country_name(x)[i]));
            assert(spec_country_from_name(country_name(x)) == Some(x));
        },
        Country::Germany => {
            assert(forall|i: int| 0 <= i < country_name(x).len() ==> is_ident_byte(#[trigger] country_name(x)[i]));
            assert(spec_country_from_name(country_name(x)) == Some(x));
        },
        Country::France => {
            assert(forall|i: int| 0 <= i < country_name(x).len() ==> is_ident_byte(#[trigger] country_name(x)[i]));
            assert(spec_country_from_name(country_name(x)) == Some(x));
        },
        Country::India => {
            assert(forall|i: int| 0 <= i < country_name(x).len() ==> is_ident_byte(#[trigger] country_name(x)[i]));
            assert(spec_country_from_name(country_name(x)) == Some(x));
        },
        Country::UnitedKingdom => {
            assert(forall|i: int| 0 <= i < country_name(x).len() ==> is_ident_byte(#[trigger] country_name(x)[i]));
            assert(spec_country_from_name(country_name(x)) == Some(x));
        },
    }
}

proof fn lemma_currency_name_facts(x: Currency)
    ensures
        currency_name(x).len() > 0,
        forall|i: int| 0 <= i < currency_name(x).len() ==> is_ident_byte(#[trigger] currency_name(x)[i]),
        spec_currency_from_name(currency_name(x)) == Some(x),
{
    match x {
        Currency::Usd => {
            assert(forall|i: int| 0 <= i < currency_name(x).len() ==> is_ident_byte(#[trigger] currency_name(x)[i]));
            assert(spec_currency_from_name(currency_name(x)) == Some(x));
        },
        Currency::Eur => {
            assert(forall|i: int| 0 <= i < currency_name(x).len() ==> is_ident_byte(#[trigger] currency_name(x)[i]));
            assert(spec_currency_from_name(currency_name(x)) == Some(x));
        },
        Currency::Gbp => {
            assert(forall|i: int| 0 <= i < currency_name(x).len() ==> is_ident_byte(#[trigger] currency_name(x)[i]));
            assert(spec_currency_from_name(currency_name(x)) == Some(x));
        },
        Currency::Inr => {
            assert(forall|i: int| 0 <= i < currency_name(x).len() ==> is_ident_byte(#[trigger] currency_name(x)[i]));
            assert(spec_currency_from_name(currency_name(x)) == Some(x));
        },
        Currency::Cad => {
            assert(forall|i: int| 0 <= i < currency_name(x).len() ==> is_ident_byte(#[trigger] currency_name(x)[i]));
            assert(spec_currency_from_name(currency_name(x)) == Some(x));
        },
        Currency::Jpy => {
            assert(forall|i: int| 0 <= i < currency_name(x).len() ==> is_ident_byte(#[trigger] currency_name(x)[i]));
            assert(spec_currency_from_name(currency_name(x)) == Some(x));
        },
    }
}

proof fn lemma_capture_method_name_facts(x: CaptureMethod)
    ensures
        capture_method_name(x).len() > 0,
        forall|i: int| 0 <= i < capture_method_name(x).len() ==> is_ident_byte(#[trigger] capture_method_name(x)[i]),
        spec_capture_method_from_name(capture_method_name(x)) == Some(x),
{
    match x {
        CaptureMethod::Automatic => {
            assert(forall|i: int| 0 <= i < capture_method_name(x).len() ==> is_ident_byte(#[trigger] capture_method_name(x)[i]));
            assert(spec_capture_method_from_name(capture_method_name(x)) == Some(x));
        },
        CaptureMethod::Manual => {
            assert(forall|i: int| 0 <= i < capture_method_name(x).len() ==> is_ident_byte(#[trigger] capture_method_name(x)[i]));
            assert(spec_capture_method_from_name(capture_method_name(x)) == Some(x));
        },
    }
}

proof fn lemma_auth_type_name_facts(x: AuthenticationType)
    ensures
        auth_type_name(x).len() > 0,
        forall|i: int| 0 <= i < auth_type_name(x).len() ==> is_ident_byte(#[trigger] auth_type_name(x)[i]),
        spec_auth_type_from_name(auth_type_name(x)) == Some(x),
{
    match x {
        AuthenticationType::ThreeDs => {
            assert(forall|i: int| 0 <= i < auth_type_name(x).len() ==> is_ident_byte(#[trigger] auth_type_name(x)[i]));
            assert(spec_auth_type_from_name(auth_type_name(x)) == Some(x));
        },
        AuthenticationType::NoThreeDs => {
            assert(forall|i: int| 0 <= i < auth_type_name(x).len() ==> is_ident_byte(#[trigger] auth_type_name(x)[i]));
            assert(spec_auth_type_from_name(auth_type_name(x)) == Some(x));
        },
    }
}

proof fn lemma_mandate_type_name_facts(x: MandateType)
    ensures
        mandate_type_name(x).len() > 0,
        forall|i: int| 0 <= i < mandate_type_name(x).len() ==> is_ident_byte(#[trigger] mandate_type_name(x)[i]),
        spec_mandate_type_from_name(mandate_type_name(x)) == Some(x),
{
    match x {
        MandateType::SingleUse => {
            assert(forall|i: int| 0 <= i < mandate_type_name(x).len() ==> is_ident_byte(#[trigger] mandate_type_name(x)[i]));
            assert(spec_mandate_type_from_name(mandate_type_name(x)) == Some(x));
        },
        MandateType::MultiUse => {
            assert(forall|i: int| 0 <= i < mandate_type_name(x).len() ==> is_ident_byte(#[trigger] mandate_type_name(x)[i]));
            assert(spec_mandate_type_from_name(mandate_type_name(x)) == Some(x));
        },
    }
}

proof fn lemma_connector_name_facts(x: Connector)
    ensures
        connector_name(x).len() > 0,
        forall|i: int| 0 <= i < connector_name(x).len() ==> is_ident_byte(#[trigger] connector_name(x)[i]),
        spec_connector_from_name(connector_name(x)) == Some(x),
{
    match x {
        Connector::Stripe => {
            assert(forall|i: int| 0 <= i < connector_name(x).len() ==> is_ident_byte(#[trigger] connector_name(x)[i]));
            assert(spec_connector_from_name(connector_name(x)) == Some(x));
        },
        Connector::Adyen => {
            assert(forall|i: int| 0 <= i < connector_name(x).len() ==> is_ident_byte(#[trigger] connector_name(x)[i]));
            assert(spec_connector_from_name(connector_name(x)) == Some(x));
        },
        Connector::Checkout => {
            assert(forall|i: int| 0 <= i < connector_name(x).len() ==> is_ident_byte(#[trigger] connector_name(x)[i]));
            assert(spec_connector_from_name(connector_name(x)) == Some(x));
        },
        Connector::Braintree => {
            assert(forall|i: int| 0 <= i < connector_name(x).len() ==> is_ident_byte(#[trigger] connector_name(x)[i]));
            assert(spec_connector_from_name(connector_name(x)) == Some(x));
        },
        Connector::Paypal => {
            assert(forall|i: int| 0 <= i < connector_name(x).len() ==> is_ident_byte(#[trigger] connector_name(x)[i]));
            assert(spec_connector_from_name(connector_name(x)) == Some(x));
        },
    }
}

proof fn lemma_key_name_facts(k: DirKey)
    ensures
        key_name(k).len() > 0,
        forall|i: int| 0 <= i < key_name(k).len() ==> is_ident_byte(#[trigger] key_name(k)[i]),
        spec_key_from_name(key_name(k)) == Some(k),
        key_name(k)[0] != 116 && key_name(k)[0] != 110 && key_name(k)[0] != 105 && key_name(k)[0] != 40,
{
    match k {
        DirKey::PaymentMethod => {
            assert(forall|i: int| 0 <= i < key_name(k).len() ==> is_ident_byte(#[trigger] key_name(k)[i]));
            assert(spec_key_from_name(key_name(k)) == Some(k));
        },
        DirKey::CardNetwork => {
            assert(forall|i: int| 0 <= i < key_name(k).len() ==> is_ident_byte(#[trigger] key_name(k)[i]));
            assert(spec_key_from_name(key_name(k)) == Some(k));
        },
        DirKey::Country => {
            assert(forall|i: int| 0 <= i < key_name(k).len() ==> is_ident_byte(#[trigger] key_name(k)[i]));
            assert(spec_key_from_name(key_name(k)) == Some(k));
        },
        DirKey::PaymentCurrency => {
            assert(forall|i: int| 0 <= i < key_name(k).len() ==> is_ident_byte(#[trigger] key_name(k)[i]));
            assert(spec_key_from_name(key_name(k)) == Some(k));
        },
        DirKey::CaptureMethod => {
            assert(forall|i: int| 0 <= i < key_name(k).len() ==> is_ident_byte(#[trigger] key_name(k)[i]));
            assert(spec_key_from_name(key_name(k)) == Some(k));
        },
        DirKey::AuthenticationType => {
            assert(forall|i: int| 0 <= i < key_name(k).len() ==> is_ident_byte(#[trigger] key_name(k)[i]));
            assert(spec_key_from_name(key_name(k)) == Some(k));
        },
        DirKey::MandateType => {
            assert(forall|i: int| 0 <= i < key_name(k).len() ==> is_ident_byte(#[trigger] key_name(k)[i]));
            assert(spec_key_from_name(key_name(k)) == Some(k));
        },
        DirKey::PaymentAmount => {
            assert(forall|i: int| 0 <= i < key_name(k).len() ==> is_ident_byte(#[trigger] key_name(k)[i]));
            assert(spec_key_from_name(key_name(k)) == Some(k));
        },
        DirKey::BusinessLabel => {
            assert(forall|i: int| 0 <= i < key_name(k).len() ==> is_ident_byte(#[trigger] key_name(k)[i]));
            assert(spec_key_from_name(key_name(k)) == Some(k));
        },
        DirKey::MetaData => {
            assert(forall|i: int| 0 <= i < key_name(k).len() ==> is_ident_byte(#[trigger] key_name(k)[i]));
            assert(spec_key_from_name(key_name(k)) == Some(k));
        },
        DirKey::Connector => {
            assert(forall|i: int| 0 <= i < key_name(k).len() ==> is_ident_byte(#[trigger] key_name(k)[i]));
            assert(spec_key_from_name(key_name(k)) == Some(k));
        },
    }
}



#[verifier::rlimit(100)]
proof fn lemma_parse_value_inverse(s: Seq<u8>, pos: int, v: DirValueModel)
    requires
        wf_value(v),
        match_lit(s, pos, ser_value(v)),
    ensures
        parse_value(s, pos) == Some((v, pos + ser_value(v).len() as int)),
{
    let k = key_of(v);
    let kn = key_name(k);
    let payload = ser_payload(v);
    let tail = seq![40u8] + payload + seq![41u8];
    assert(ser_value(v) =~= kn + tail);
    lemma_split_match(s, pos, kn, tail);
    let p1 = pos + kn.len() as int;
    assert(tail =~= seq![40u8] + (payload + seq![41u8]));
    lemma_split_match(s, p1, seq![40u8], payload + seq![41u8]);
    let p2 = p1 + 1;
    lemma_split_match(s, p2, payload, seq![41u8]);
    lemma_match_lit_bytes(s, p1, seq![40u8]);
    assert(s[p1 + 0] == seq![40u8][0]);
    assert(s[p1] == 40);
    let pr = p2 + payload.len() as int;
    lemma_match_lit_bytes(s, pr, seq![41u8]);
    assert(s[pr + 0] == seq![41u8][0]);
    assert(s[pr] == 41);
    lemma_key_name_facts(k);
    lemma_match_lit_bytes(s, pos, kn);
    assert forall|j: int| pos <= j < p1 implies is_ident_byte(#[trigger] s[j]) by {
        assert(s[pos + (j - pos)] == kn[j - pos]);
    }
    assert(!is_ident_byte(40));
    lemma_scan_ident_run(s, pos, kn.len() as int);
    assert(s.subrange(pos, p1) =~= kn) by {
        assert forall|j: int| 0 <= j < kn.len() implies s.subrange(pos, p1)[j] == kn[j] by {
            assert(s[pos + j] == kn[j]);
        }
    }
    assert(spec_key_from_name(s.subrange(pos, p1)) == Some(k));
    match v {
        DirValueModel::PaymentMethod(x) => {
            lemma_payment_method_name_facts(x);
            let vn = payment_method_name(x);
            assert(payload == vn);
            lemma_match_lit_bytes(s, p2, payload);
            assert forall|j: int| p2 <= j < p2 + vn.len() implies is_ident_byte(
                #[trigger] s[j],
            ) by {
                assert(s[p2 + (j - p2)] == vn[j - p2]);
            }
            assert(!is_ident_byte(41));
            lemma_scan_ident_run(s, p2, vn.len() as int);
            assert(s.subrange(p2, pr) =~= vn) by {
                assert forall|j: int| 0 <= j < vn.len() implies s.subrange(p2, pr)[j] == vn[j] by {
                    assert(s[p2 + j] == vn[j]);
                }
            }
            assert(spec_payment_method_from_name(vn) == Some(x));
            assert(parse_payload(s, p2, k) == Some((v, pr + 1)));
        },
        DirValueModel::CardNetwork(x) => {
            lemma_card_network_name_facts(x);
            let vn = card_network_name(x);
            assert(payload == vn);
            lemma_match_lit_bytes(s, p2, payload);
            assert forall|j: int| p2 <= j < p2 + vn.len() implies is_ident_byte(
                #[trigger] s[j],
            ) by {
                assert(s[p2 + (j - p2)] == vn[j - p2]);
            }
            assert(!is_ident_byte(41));
            lemma_scan_ident_run(s, p2, vn.len() as int);
            assert(s.subrange(p2, pr) =~= vn) by {
                assert forall|j: int| 0 <= j < vn.len() implies s.subrange(p2, pr)[j] == vn[j] by {
                    assert(s[p2 + j] == vn[j]);
                }
            }
            assert(spec_card_network_from_name(vn) == Some(x));
            assert(parse_payload(s, p2, k) == Some((v, pr + 1)));
        },
        DirValueModel::Country(x) => {
            lemma_country_name_facts(x);
            let vn = country_name(x);
            assert(payload == vn);
            lemma_match_lit_bytes(s, p2, payload);
            assert forall|j: int| p2 <= j < p2 + vn.len() implies is_ident_byte(
                #[trigger] s[j],
            ) by {
                assert(s[p2 + (j - p2)] == vn[j - p2]);
            }
            assert(!is_ident_byte(41));
            lemma_scan_ident_run(s, p2, vn.len() as int);
            assert(s.subrange(p2, pr) =~= vn) by {
                assert forall|j: int| 0 <= j < vn.len() implies s.subrange(p2, pr)[j] == vn[j] by {
                    assert(s[p2 + j] == vn[j]);
                }
            }
            assert(spec_country_from_name(vn) == Some(x));
            assert(parse_payload(s, p2, k) == Some((v, pr + 1)));
        },
        DirValueModel::PaymentCurrency(x) => {
            lemma_currency_name_facts(x);
            let vn = currency_name(x);
            assert(payload == vn);
            lemma_match_lit_bytes(s, p2, payload);
            assert forall|j: int| p2 <= j < p2 + vn.len() implies is_ident_byte(
                #[trigger] s[j],
            ) by {
                assert(s[p2 + (j - p2)] == vn[j - p2]);
            }
            assert(!is_ident_byte(41));
            lemma_scan_ident_run(s, p2, vn.len() as int);
            assert(s.subrange(p2, pr) =~= vn) by {
                assert forall|j: int| 0 <= j < vn.len() implies s.subrange(p2, pr)[j] == vn[j] by {
                    assert(s[p2 + j] == vn[j]);
                }
            }
            assert(spec_currency_from_name(vn) == Some(x));
            assert(parse_payload(s, p2, k) == Some((v, pr + 1)));
        },
        DirValueModel::CaptureMethod(x) => {
            lemma_capture_method_name_facts(x);
            let vn = capture_method_name(x);
            assert(payload == vn);
            lemma_match_lit_bytes(s, p2, payload);
            assert forall|j: int| p2 <= j < p2 + vn.len() implies is_ident_byte(
                #[trigger] s[j],
            ) by {
                assert(s[p2 + (j - p2)] == vn[j - p2]);
            }
            assert(!is_ident_byte(41));
            lemma_scan_ident_run(s, p2, vn.len() as int);
            assert(s.subrange(p2, pr) =~= vn) by {
                assert forall|j: int| 0 <= j < vn.len() implies s.subrange(p2, pr)[j] == vn[j] by {
                    assert(s[p2 + j] == vn[j]);
                }
            }
            assert(spec_capture_method_from_name(vn) == Some(x));
            assert(parse_payload(s, p2, k) == Some((v, pr + 1)));
        },
        DirValueModel::AuthenticationType(x) => {
            lemma_auth_type_name_facts(x);
            let vn = auth_type_name(x);
            assert(payload == vn);
            lemma_match_lit_bytes(s, p2, payload);
            assert forall|j: int| p2 <= j < p2 + vn.len() implies is_ident_byte(
                #[trigger] s[j],
            ) by {
                assert(s[p2 + (j - p2)] == vn[j - p2]);
            }
            assert(!is_ident_byte(41));
            lemma_scan_ident_run(s, p2, vn.len() as int);
            assert(s.subrange(p2, pr) =~= vn) by {
                assert forall|j: int| 0 <= j < vn.len() implies s.subrange(p2, pr)[j] == vn[j] by {
                    assert(s[p2 + j] == vn[j]);
                }
            }
            assert(spec_auth_type_from_name(vn) == Some(x));
            assert(parse_payload(s, p2, k) == Some((v, pr + 1)));
        },
        DirValueModel::MandateType(x) => {
            lemma_mandate_type_name_facts(x);
            let vn = mandate_type_name(x);
            assert(payload == vn);
            lemma_match_lit_bytes(s, p2, payload);
            assert forall|j: int| p2 <= j < p2 + vn.len() implies is_ident_byte(
                #[trigger] s[j],
            ) by {
                assert(s[p2 + (j - p2)] == vn[j - p2]);
            }
            assert(!is_ident_byte(41));
            lemma_scan_ident_run(s, p2, vn.len() as int);
            assert(s.subrange(p2, pr) =~= vn) by {
                assert forall|j: int| 0 <= j < vn.len() implies s.subrange(p2, pr)[j] == vn[j] by {
                    assert(s[p2 + j] == vn[j]);
                }
            }
            assert(spec_mandate_type_from_name(vn) == Some(x));
            assert(parse_payload(s, p2, k) == Some((v, pr + 1)));
        },
        DirValueModel::PaymentAmount(nv) => {
            let cmp = cmp_name(nv.refinement);
            let num = ser_nat(nv.number as nat);
            assert(payload =~= cmp + num);
            lemma_split_match(s, p2, cmp, num);
            lemma_match_lit_bytes(s, p2, cmp);
            assert(s[p2 + 0] == cmp[0]);
            match nv.refinement {
                Option::None => {
                    assert(match_lit(s, p2, cmp_name(Option::None)));
                },
                Option::Some(NumRefinement::GreaterThan) => {
                    assert(s[p2] == 103);
                    lemma_no_match_at(s, p2, cmp_name(Option::None), 0);
                },
                Option::Some(NumRefinement::LessThan) => {
                    assert(s[p2] == 108);
                    lemma_no_match_at(s, p2, cmp_name(Option::None), 0);
                    lemma_no_match_at(s, p2, cmp_name(Option::Some(NumRefinement::GreaterThan)), 0);
                },
            }
            let p3 = p2 + 3;
            assert(!is_digit_byte(41));
            lemma_parse_number_inverse(s, p3, nv.number);
            assert(parse_payload(s, p2, k) == Some((v, pr + 1)));
        },
        DirValueModel::BusinessLabel(b) => {
            lemma_parse_quoted_inverse(s, p2, b);
            assert(parse_payload(s, p2, k) == Some((v, pr + 1)));
        },
        DirValueModel::MetaData(m) => {
            assert(payload =~= ser_quoted(m.key) + (seq![32u8] + ser_quoted(m.value)));
            lemma_split_match(s, p2, ser_quoted(m.key), seq![32u8] + ser_quoted(m.value));
            lemma_parse_quoted_inverse(s, p2, m.key);
            let q1 = p2 + ser_quoted(m.key).len() as int;
            lemma_split_match(s, q1, seq![32u8], ser_quoted(m.value));
            lemma_match_lit_bytes(s, q1, seq![32u8]);
            assert(s[q1 + 0] == seq![32u8][0]);
            assert(s[q1] == 32);
            lemma_parse_quoted_inverse(s, q1 + 1, m.value);
            assert(parse_payload(s, p2, k) == Some((v, pr + 1)));
        },
        DirValueModel::Connector(c) => {
            lemma_connector_name_facts(c.connector);
            let cn = connector_name(c.connector);
            match c.sub_label {
                Option::None => {
                    assert(payload == cn);
                    lemma_match_lit_bytes(s, p2, payload);
                    assert forall|j: int| p2 <= j < p2 + cn.len() implies is_ident_byte(
                        #[trigger] s[j],
                    ) by {
                        assert(s[p2 + (j - p2)] == cn[j - p2]);
                    }
                    assert(!is_ident_byte(41));
                    lemma_scan_ident_run(s, p2, cn.len() as int);
                    assert(s.subrange(p2, pr) =~= cn) by {
                        assert forall|j: int| 0 <= j < cn.len() implies s.subrange(p2, pr)[j]
                            == cn[j] by {
                            assert(s[p2 + j] == cn[j]);
                        }
                    }
                    assert(spec_connector_from_name(cn) == Some(c.connector));
                    assert(parse_payload(s, p2, k) == Some((v, pr + 1)));
                },
                Option::Some(l) => {
                    assert(payload =~= cn + (seq![32u8] + ser_quoted(l)));
                    lemma_split_match(s, p2, cn, seq![32u8] + ser_quoted(l));
                    let e = p2 + cn.len() as int;
                    lemma_split_match(s, e, seq![32u8], ser_quoted(l));
                    lemma_match_lit_bytes(s, e, seq![32u8]);
                    assert(s[e + 0] == seq![32u8][0]);
                    assert(s[e] == 32);
                    lemma_match_lit_bytes(s, p2, cn);
                    assert forall|j: int| p2 <= j < e implies is_ident_byte(#[trigger] s[j]) by {
                        assert(s[p2 + (j - p2)] == cn[j - p2]);
                    }
                    assert(!is_ident_byte(32));
                    lemma_scan_ident_run(s, p2, cn.len() as int);
                    assert(s.subrange(p2, e) =~= cn) by {
                        assert forall|j: int| 0 <= j < cn.len() implies s.subrange(p2, e)[j]
                            == cn[j] by {
                            assert(s[p2 + j] == cn[j]);
                        }
                    }
                    assert(spec_connector_from_name(cn) == Some(c.connector));
                    lemma_parse_quoted_inverse(s, e + 1, l);
                    assert(parse_payload(s, p2, k) == Some((v, pr + 1)));
                },
            }
        },
    }
    assert(pr + 1 == pos + ser_value(v).len());
}


proof fn lemma_parse_values_inverse(s: Seq<u8>, pos: int, vs: Seq<DirValueModel>, i: int)
    requires
        0 <= i < vs.len(),
        forall|j: int| 0 <= j < vs.len() ==> wf_value(#[trigger] vs[j]),
        match_lit(s, pos, ser_values_from(vs, i)),
        pos + ser_values_from(vs, i).len() < s.len(),
        s[pos + ser_values_from(vs, i).len()] == 41,
    ensures
        parse_values(s, pos) == Some(
            (vs.subrange(i, vs.len() as int), pos + ser_values_from(vs, i).len() as int),
        ),
    decreases vs.len() - i,
{
    lemma_key_name_facts(key_of(vs[i]));
    if i == vs.len() - 1 {
        assert(ser_values_from(vs, i) == ser_value(vs[i]));
        lemma_parse_value_inverse(s, pos, vs[i]);
        let p = pos + ser_value(vs[i]).len() as int;
        assert(ser_value(vs[i]).len() > 0);
        assert(lit_comma()[0] == 44);
        lemma_no_match_at(s, p, lit_comma(), 0);
        assert(seq![vs[i]] =~= vs.subrange(i, vs.len() as int));
    } else {
        assert(ser_values_from(vs, i) =~= ser_value(vs[i]) + (lit_comma() + ser_values_from(
            vs,
            i + 1,
        )));
        lemma_split_match(s, pos, ser_value(vs[i]), lit_comma() + ser_values_from(vs, i + 1));
        lemma_parse_value_inverse(s, pos, vs[i]);
        let p = pos + ser_value(vs[i]).len() as int;
        assert(ser_value(vs[i]).len() > 0);
        lemma_split_match(s, p, lit_comma(), ser_values_from(vs, i + 1));
        lemma_parse_values_inverse(s, p + 2, vs, i + 1);
        assert(seq![vs[i]] + vs.subrange(i + 1, vs.len() as int) =~= vs.subrange(
            i,
            vs.len() as int,
        ));
    }
}

proof fn lemma_refute_keywords(s: Seq<u8>, pos: int)
    requires
        0 <= pos < s.len(),
    ensures
        s[pos] != 116 ==> !match_lit(s, pos, lit_true()),
        s[pos] != 110 ==> !match_lit(s, pos, lit_not_in()),
        s[pos] != 110 ==> !match_lit(s, pos, lit_not()),
        s[pos] != 105 ==> !match_lit(s, pos, lit_in()),
{
    if s[pos] != 116 {
        lemma_no_match_at(s, pos, lit_true(), 0);
    }
    if s[pos] != 110 {
        lemma_no_match_at(s, pos, lit_not_in(), 0);
        lemma_no_match_at(s, pos, lit_not(), 0);
    }
    if s[pos] != 105 {
        lemma_no_match_at(s, pos, lit_in(), 0);
    }
}

#[verifier::rlimit(100)]
#[verifier::spinoff_prover]
proof fn lemma_parse_guard_inverse(s: Seq<u8>, pos: int, g: GuardModel)
    requires
        wf_guard(g),
        match_lit(s, pos, ser_guard(g)),
    ensures
        parse_guard(s, pos) == Some((g, pos + ser_guard(g).len() as int)),
    decreases g,
{
    lemma_match_lit_bytes(s, pos, ser_guard(g));
    assert(s[pos + 0] == ser_guard(g)[0]);
    match g {
        GuardModel::Always => {
            assert(match_lit(s, pos, lit_true()));
        },
        GuardModel::Is(v) => {
            let k = key_of(v);
            lemma_key_name_facts(k);
            assert(ser_guard(g)[0] == key_name(k)[0]);
            lemma_refute_keywords(s, pos);
            assert(s[pos] != 40);
            lemma_parse_value_inverse(s, pos, v);
        },
        GuardModel::IsNot(v) => {
            assert(s[pos] == 110);
            lemma_no_match_at(s, pos, lit_true(), 0);
            assert(s[pos + 3] == ser_guard(g)[3]);
            assert(ser_guard(g)[3] == 40);
            assert(lit_not_in()[3] == 95);
            lemma_no_match_at(s, pos, lit_not_in(), 3);
            lemma_split_match(s, pos, lit_not() + ser_value(v), seq![41u8]);
            lemma_split_match(s, pos, lit_not(), ser_value(v));
            let p0 = pos + 4;
            lemma_parse_value_inverse(s, p0, v);
            let p = p0 + ser_value(v).len() as int;
            lemma_match_lit_bytes(s, p, seq![41u8]);
            assert(s[p + 0] == seq![41u8][0]);
            assert(s[p] == 41);
        },
        GuardModel::AnyOf(vs) => {
            assert(s[pos] == 105);
            lemma_no_match_at(s, pos, lit_true(), 0);
            lemma_no_match_at(s, pos, lit_not_in(), 0);
            lemma_no_match_at(s, pos, lit_not(), 0);
            lemma_split_match(s, pos, lit_in() + ser_values_from(vs, 0), seq![41u8]);
            lemma_split_match(s, pos, lit_in(), ser_values_from(vs, 0));
            let p0 = pos + 3;
            let p = p0 + ser_values_from(vs, 0).len() as int;
            lemma_match_lit_bytes(s, p, seq![41u8]);
            assert(s[p + 0] == seq![41u8][0]);
            assert(s[p] == 41);
            lemma_parse_values_inverse(s, p0, vs, 0);
            assert(vs.subrange(0, vs.len() as int) =~= vs);
        },
        GuardModel::NoneOf(vs) => {
            assert(s[pos] == 110);
            lemma_no_match_at(s, pos, lit_true(), 0);
            lemma_split_match(s, pos, lit_not_in() + ser_values_from(vs, 0), seq![41u8]);
            lemma_split_match(s, pos, lit_not_in(), ser_values_from(vs, 0));
            let p0 = pos + 7;
            let p = p0 + ser_values_from(vs, 0).len() as int;
            lemma_match_lit_bytes(s, p, seq![41u8]);
            assert(s[p + 0] == seq![41u8][0]);
            assert(s[p] == 41);
            lemma_parse_values_inverse(s, p0, vs, 0);
            assert(vs.subrange(0, vs.len() as int) =~= vs);
        },
        GuardModel::And(a, b) => {
            let sa = ser_guard(*a);
            let sb = ser_guard(*b);
            assert(s[pos] == 40);
            lemma_refute_keywords(s, pos);
            lemma_split_match(s, pos, seq![40u8] + sa + lit_amp() + sb, seq![41u8]);
            lemma_split_match(s, pos, seq![40u8] + sa + lit_amp(), sb);
            lemma_split_match(s, pos, seq![40u8] + sa, lit_amp());
            lemma_split_match(s, pos, seq![40u8], sa);
            lemma_parse_guard_inverse(s, pos + 1, *a);
            let p1 = pos + 1 + sa.len() as int;
            lemma_parse_guard_inverse(s, p1 + 3, *b);
            let p2 = p1 + 3 + sb.len() as int;
            lemma_match_lit_bytes(s, p2, seq![41u8]);
            assert(s[p2 + 0] == seq![41u8][0]);
            assert(s[p2] == 41);
        },
        GuardModel::Or(a, b) => {
            let sa = ser_guard(*a);
            let sb = ser_guard(*b);
            assert(s[pos] == 40);
            lemma_refute_keywords(s, pos);
            lemma_split_match(s, pos, seq![40u8] + sa + lit_pipe() + sb, seq![41u8]);
            lemma_split_match(s, pos, seq![40u8] + sa + lit_pipe(), sb);
            lemma_split_match(s, pos, seq![40u8] + sa, lit_pipe());
            lemma_split_match(s, pos, seq![40u8], sa);
            lemma_parse_guard_inverse(s, pos + 1, *a);
            let p1 = pos + 1 + sa.len() as int;
            lemma_match_lit_bytes(s, p1, lit_pipe());
            assert(s[p1 + 1] == lit_pipe()[1]);
            assert(lit_amp()[1] == 38);
            lemma_no_match_at(s, p1, lit_amp(), 1);
            lemma_parse_guard_inverse(s, p1 + 3, *b);
            let p2 = p1 + 3 + sb.len() as int;
            lemma_match_lit_bytes(s, p2, seq![41u8]);
            assert(s[p2 + 0] == seq![41u8][0]);
            assert(s[p2] == 41);
        },
    }
}

/// Round trip: parsing a serialized rule yields the rule back, for every
/// rule the notation can express (an identifier name, non-empty membership
/// lists, and quotable text payloads). The parser is the serializer's
/// inverse.
proof fn lemma_ident_prefix(s: Seq<u8>, n: Seq<u8>)
    requires
        match_lit(s, 0, n),
        wf_ident(n),
        n.len() < s.len(),
        !is_ident_byte(s[n.len() as int]),
    ensures
        scan_ident(s, 0) == n.len(),
        s.subrange(0, n.len() as int) == n,
{
    lemma_match_lit_bytes(s, 0, n);
    assert forall|j: int| 0 <= j < n.len() implies is_ident_byte(#[trigger] s[j]) by {
        assert(s[0 + j] == n[j]);
    }
    lemma_scan_ident_run(s, 0, n.len() as int);
    assert(s.subrange(0, n.len() as int) =~= n) by {
        assert forall|j: int| 0 <= j < n.len() implies s.subrange(0, n.len() as int)[j] == n[j] by {
            assert(s[0 + j] == n[j]);
        }
    }
}

/// Round trip: parsing a serialized rule yields the rule back, for every
/// rule the notation can express (an identifier name, non-empty membership
/// lists, and quotable text payloads). The parser is the serializer's
/// inverse.
#[verifier::rlimit(100)]
pub proof fn lemma_parse_serialize_rule(r: RuleModel)
    requires
        wf_rule(r),
    ensures
        spec_parse_rule(ser_rule(r)) == Some(r),
{
    let s = ser_rule(r);
    let gl = ser_guard(r.guard);
    let cv = ser_value(DirValueModel::Connector(r.output));
    let e = r.name.len() as int;
    let p = e + 2 + gl.len() as int;
    let p2 = p + 4 + cv.len() as int;
    assert(match_lit(s, 0, r.name + (lit_colon() + (gl + (lit_arrow() + cv))))) by {
        assert(s =~= r.name + (lit_colon() + (gl + (lit_arrow() + cv))));
        assert(s.subrange(0, s.len() as int) =~= s);
    }
    lemma_split_match(s, 0, r.name, lit_colon() + (gl + (lit_arrow() + cv)));
    lemma_split_match(s, e, lit_colon(), gl + (lit_arrow() + cv));
    assert(s[e] == 58) by {
        lemma_match_lit_bytes(s, e, lit_colon());
        assert(s[e + 0] == lit_colon()[0]);
    }
    assert(!is_ident_byte(58));
    lemma_ident_prefix(s, r.name);
    lemma_split_match(s, e + 2, gl, lit_arrow() + cv);
    lemma_parse_guard_inverse(s, e + 2, r.guard);
    lemma_split_match(s, p, lit_arrow(), cv);
    lemma_parse_value_inverse(s, p + 4, DirValueModel::Connector(r.output));
    assert(p2 == s.len());
    assert(spec_parse_rule(s) == Some(RuleModel { name: s.subrange(0, e), guard: r.guard, output: r.output }));
    assert(RuleModel { name: s.subrange(0, e), guard: r.guard, output: r.output } == r);
}


fn is_ident_byte_exec(b: u8) -> (r: bool)
    ensures
        r == is_ident_byte(b),
{
    (97 <= b && b <= 122) || (65 <= b && b <= 90) || (48 <= b && b <= 57) || b == 95
}

#[verifier::loop_isolation(false)]
fn scan_ident_exec(s: &Vec<u8>, pos: usize) -> (e: usize)
    requires
        pos <= s@.len(),
    ensures
        e as int == scan_ident(s@, pos as int),
        pos <= e <= s@.len(),
{
    let mut i = pos;
    while i < s.len() && is_ident_byte_exec(s[i])
        invariant
            pos <= i <= s@.len(),
            scan_ident(s@, pos as int) == scan_ident(s@, i as int),
        decreases s@.len() - i,
    {
        i = i + 1;
    }
    i
}

fn is_digit_byte_exec(b: u8) -> (r: bool)
    ensures
        r == is_digit_byte(b),
{
    48 <= b && b <= 57
}

#[verifier::loop_isolation(false)]
fn scan_digits_exec(s: &Vec<u8>, pos: usize) -> (e: usize)
    requires
        pos <= s@.len(),
    ensures
        e as int == scan_digits(s@, pos as int),
        pos <= e <= s@.len(),
{
    let mut i = pos;
    while i < s.len() && is_digit_byte_exec(s[i])
        invariant
            pos <= i <= s@.len(),
            scan_digits(s@, pos as int) == scan_digits(s@, i as int),
        decreases s@.len() - i,
    {
        i = i + 1;
    }
    i
}

#[verifier::loop_isolation(false)]
fn scan_quote_exec(s: &Vec<u8>, pos: usize) -> (e: usize)
    requires
        pos <= s@.len(),
    ensures
        e as int == scan_quote(s@, pos as int),
        pos <= e <= s@.len(),
{
    let mut i = pos;
    while i < s.len() && s[i] != 34
        invariant
            pos <= i <= s@.len(),
            scan_quote(s@, pos as int) == scan_quote(s@, i as int),
        decreases s@.len() - i,
    {
        i = i + 1;
    }
    i
}

#[verifier::loop_isolation(false)]
fn copy_range(s: &Vec<u8>, from: usize, to: usize) -> (r: Vec<u8>)
    requires
        from <= to <= s@.len(),
    ensures
        r@ == s@.subrange(from as int, to as int),
{
    let mut r: Vec<u8> = Vec::new();
    let mut i = from;
    while i < to
        invariant
            from <= i <= to,
            r@ =~= s@.subrange(from as int, i as int),
        decreases to - i,
    {
        r.push(s[i]);
        assert(r@ =~= s@.subrange(from as int, i + 1 as int));
        i = i + 1;
    }
    r
}

#[verifier::loop_isolation(false)]
fn match_bytes_at(s: &Vec<u8>, pos: usize, lit: &Vec<u8>) -> (r: bool)
    ensures
        r == match_lit(s@, pos as int, lit@),
{
    if pos > s.len() || lit.len() > s.len() - pos {
        return false;
    }
    let mut i: usize = 0;
    while i < lit.len()
        invariant
            i <= lit@.len(),
            pos + lit@.len() <= s@.len(),
            forall|j: int| 0 <= j < i ==> s@[pos + j] == lit@[j],
        decreases lit@.len() - i,
    {
        if s[pos + i] != lit[i] {
            proof {
                lemma_no_match_at(s@, pos as int, lit@, i as int);
            }
            return false;
        }
        i = i + 1;
    }
    assert(s@.subrange(pos as int, pos + lit@.len() as int) =~= lit@);
    true
}

proof fn lemma_scan_digits_range(s: Seq<u8>, pos: int)
    requires
        0 <= pos <= s.len(),
    ensures
        forall|j: int| pos <= j < scan_digits(s, pos) ==> is_digit_byte(#[trigger] s[j]),
        pos <= scan_digits(s, pos) <= s.len(),
    decreases s.len() - pos,
{
    if pos < s.len() && is_digit_byte(s[pos]) {
        lemma_scan_digits_range(s, pos + 1);
    }
}

proof fn lemma_digits_val_bounds(s: Seq<u8>, from: int, to: int)
    requires
        forall|j: int| from <= j < to ==> is_digit_byte(#[trigger] s[j]),
    ensures
        digits_val(s, from, to) >= 0,
        forall|m: int| from <= m <= to ==> digits_val(s, from, to) >= digits_val(s, from, m),
    decreases to - from,
{
    if to <= from {
    } else {
        lemma_digits_val_bounds(s, from, to - 1);
        assert forall|m: int| from <= m <= to implies digits_val(s, from, to) >= digits_val(
            s,
            from,
            m,
        ) by {
            if m < to {
                assert(digits_val(s, from, to - 1) >= digits_val(s, from, m));
                assert(digits_val(s, from, to) == digits_val(s, from, to - 1) * 10 + digit_val(
                    s[to - 1],
                ));
            }
        }
    }
}

#[verifier::loop_isolation(false)]
fn parse_number_exec(s: &Vec<u8>, pos: usize) -> (r: Option<(u64, usize)>)
    requires
        pos <= s@.len(),
    ensures
        match r {
            Option::Some((n, p)) => parse_number(s@, pos as int) == Some((n, p as int)),
            Option::None => parse_number(s@, pos as int) is None,
        },
{
    let e = scan_digits_exec(s, pos);
    if e == pos {
        return Option::None;
    }
    proof {
        lemma_scan_digits_range(s@, pos as int);
    }
    let mut acc: u64 = 0;
    let mut i = pos;
    while i < e
        invariant
            pos <= i <= e,
            e as int == scan_digits(s@, pos as int),
            acc as int == digits_val(s@, pos as int, i as int),
        decreases e - i,
    {
        let d: u64 = (s[i] - 48) as u64;
        assert(d as int == digit_val(s@[i as int]));
        if acc > 0x1999_9999_9999_9999u64 {
            proof {
                assert(digits_val(s@, pos as int, i + 1 as int) == (acc as int) * 10 + d);
                lemma_digits_val_bounds(s@, pos as int, e as int);
                assert(digits_val(s@, pos as int, e as int) > u64::MAX);
            }
            return Option::None;
        }
        let acc10 = acc * 10;
        if d > u64::MAX - acc10 {
            proof {
                assert(digits_val(s@, pos as int, i + 1 as int) == (acc as int) * 10 + d);
                lemma_digits_val_bounds(s@, pos as int, e as int);
                assert(digits_val(s@, pos as int, e as int) > u64::MAX);
            }
            return Option::None;
        }
        acc = acc10 + d;
        i = i + 1;
    }
    Option::Some((acc, e))
}

#[verifier::loop_isolation(false)]
fn parse_quoted_exec(s: &Vec<u8>, pos: usize) -> (r: Option<(Vec<u8>, usize)>)
    requires
        pos <= s@.len(),
    ensures
        match r {
            Option::Some((b, p)) => parse_quoted(s@, pos as int) == Some((b@, p as int)) && p
                <= s@.len(),
            Option::None => parse_quoted(s@, pos as int) is None,
        },
{
    if pos >= s.len() || s[pos] != 34 {
        return Option::None;
    }
    let e = scan_quote_exec(s, pos + 1);
    if e >= s.len() {
        return Option::None;
    }
    let b = copy_range(s, pos + 1, e);
    Option::Some((b, e + 1))
}

fn parse_payload_exec(s: &Vec<u8>, pos: usize, k: DirKey) -> (r: Option<(DirValue, usize)>)
    requires
        pos <= s@.len(),
    ensures
        match r {
            Option::Some((v, p)) => parse_payload(s@, pos as int, k) == Some(
                (v.deep_view(), p as int),
            ) && p <= s@.len(),
            Option::None => parse_payload(s@, pos as int, k) is None,
        },
{
    broadcast use crate::dir::lemma_bytes_deep_view;

    match k {
        DirKey::PaymentMethod => {
            let e = scan_ident_exec(s, pos);
            if e < s.len() && s[e] == 41 {
                let ident = copy_range(s, pos, e);
                match payment_method_from_ident(&ident) {
                    Option::Some(x) => Option::Some((DirValue::PaymentMethod(x), e + 1)),
                    Option::None => Option::None,
                }
            } else {
                Option::None
            }
        },
        DirKey::CardNetwork => {
            let e = scan_ident_exec(s, pos);
            if e < s.len() && s[e] == 41 {
                let ident = copy_range(s, pos, e);
                match card_network_from_ident(&ident) {
                    Option::Some(x) => Option::Some((DirValue::CardNetwork(x), e + 1)),
                    Option::None => Option::None,
                }
            } else {
                Option::None
            }
        },
        DirKey::Country => {
            let e = scan_ident_exec(s, pos);
            if e < s.len() && s[e] == 41 {
                let ident = copy_range(s, pos, e);
                match country_from_ident(&ident) {
                    Option::Some(x) => Option::Some((DirValue::Country(x), e + 1)),
                    Option::None => Option::None,
                }
            } else {
                Option::None
            }
        },
        DirKey::PaymentCurrency => {
            let e = scan_ident_exec(s, pos);
            if e < s.len() && s[e] == 41 {
                let ident = copy_range(s, pos, e);
                match currency_from_ident(&ident) {
                    Option::Some(x) => Option::Some((DirValue::PaymentCurrency(x), e + 1)),
                    Option::None => Option::None,
                }
            } else {
                Option::None
            }
        },
        DirKey::CaptureMethod => {
            let e = scan_ident_exec(s, pos);
            if e < s.len() && s[e] == 41 {
                let ident = copy_range(s, pos, e);
                match capture_method_from_ident(&ident) {
                    Option::Some(x) => Option::Some((DirValue::CaptureMethod(x), e + 1)),
                    Option::None => Option::None,
                }
            } else {
                Option::None
            }
        },
        DirKey::AuthenticationType => {
            let e = scan_ident_exec(s, pos);
            if e < s.len() && s[e] == 41 {
                let ident = copy_range(s, pos, e);
                match auth_type_from_ident(&ident) {
                    Option::Some(x) => Option::Some((DirValue::AuthenticationType(x), e + 1)),
                    Option::None => Option::None,
                }
            } else {
                Option::None
            }
        },
        DirKey::MandateType => {
            let e = scan_ident_exec(s, pos);
            if e < s.len() && s[e] == 41 {
                let ident = copy_range(s, pos, e);
                match mandate_type_from_ident(&ident) {
                    Option::Some(x) => Option::Some((DirValue::MandateType(x), e + 1)),
                    Option::None => Option::None,
                }
            } else {
                Option::None
            }
        },
        DirKey::PaymentAmount => {
            let mut eq_lit: Vec<u8> = Vec::new();
            eq_lit.push(101);
            eq_lit.push(113);
            eq_lit.push(32);
            assert(eq_lit@ =~= cmp_name(Option::None));
            let mut gt_lit: Vec<u8> = Vec::new();
            gt_lit.push(103);
            gt_lit.push(116);
            gt_lit.push(32);
            assert(gt_lit@ =~= cmp_name(Option::Some(NumRefinement::GreaterThan)));
            let mut lt_lit: Vec<u8> = Vec::new();
            lt_lit.push(108);
            lt_lit.push(116);
            lt_lit.push(32);
            assert(lt_lit@ =~= cmp_name(Option::Some(NumRefinement::LessThan)));
            let refinement: Option<NumRefinement>;
            if match_bytes_at(s, pos, &eq_lit) {
                refinement = Option::None;
            } else if match_bytes_at(s, pos, &gt_lit) {
                refinement = Option::Some(NumRefinement::GreaterThan);
            } else if match_bytes_at(s, pos, &lt_lit) {
                refinement = Option::Some(NumRefinement::LessThan);
            } else {
                return Option::None;
            }
            if pos > s.len() || s.len() - pos < 3 {
                return Option::None;
            }
            match parse_number_exec(s, pos + 3) {
                Option::None => Option::None,
                Option::Some((n, p)) => {
                    proof {
                        lemma_scan_digits_range(s@, pos + 3 as int);
                    }
                    if p < s.len() && s[p] == 41 {
                        Option::Some((DirValue::PaymentAmount(NumValue { number: n, refinement }), p + 1))
                    } else {
                        Option::None
                    }
                },
            }
        },
        DirKey::BusinessLabel => match parse_quoted_exec(s, pos) {
            Option::Some((b, p)) => {
                if p < s.len() && s[p] == 41 {
                    Option::Some((DirValue::BusinessLabel(b), p + 1))
                } else {
                    Option::None
                }
            },
            Option::None => Option::None,
        },
        DirKey::MetaData => match parse_quoted_exec(s, pos) {
            Option::Some((kq, p)) => {
                if p < s.len() && s[p] == 32 {
                    match parse_quoted_exec(s, p + 1) {
                        Option::Some((vq, p2)) => {
                            if p2 < s.len() && s[p2] == 41 {
                                Option::Some(
                                    (
                                        DirValue::MetaData(MetadataValue { key: kq, value: vq }),
                                        p2 + 1,
                                    ),
                                )
                            } else {
                                Option::None
                            }
                        },
                        Option::None => Option::None,
                    }
                } else {
                    Option::None
                }
            },
            Option::None => Option::None,
        },
        DirKey::Connector => {
            let e = scan_ident_exec(s, pos);
            let ident = copy_range(s, pos, e);
            match connector_from_ident(&ident) {
                Option::None => Option::None,
                Option::Some(c) => {
                    if e < s.len() && s[e] == 41 {
                        Option::Some(
                            (
                                DirValue::Connector(
                                    ConnectorChoice { connector: c, sub_label: Option::None },
                                ),
                                e + 1,
                            ),
                        )
                    } else if e < s.len() && s[e] == 32 {
                        match parse_quoted_exec(s, e + 1) {
                            Option::Some((l, p)) => {
                                if p < s.len() && s[p] == 41 {
                                    Option::Some(
                                        (
                                            DirValue::Connector(
                                                ConnectorChoice {
                                                    connector: c,
                                                    sub_label: Option::Some(l),
                                                },
                                            ),
                                            p + 1,
                                        ),
                                    )
                                } else {
                                    Option::None
                                }
                            },
                            Option::None => Option::None,
                        }
                    } else {
                        Option::None
                    }
                },
            }
        },
    }
}

fn parse_value_exec(s: &Vec<u8>, pos: usize) -> (r: Option<(DirValue, usize)>)
    requires
        pos <= s@.len(),
    ensures
        match r {
            Option::Some((v, p)) => parse_value(s@, pos as int) == Some((v.deep_view(), p as int))
                && p <= s@.len(),
            Option::None => parse_value(s@, pos as int) is None,
        },
{
    let e = scan_ident_exec(s, pos);
    if e >= s.len() {
        return Option::None;
    }
    if s[e] != 40 {
        return Option::None;
    }
    let ident = copy_range(s, pos, e);
    match crate::dir::key_from_name(&ident) {
        Option::None => Option::None,
        Option::Some(k) => parse_payload_exec(s, e + 1, k),
    }
}


fn lit_true_bytes() -> (r: Vec<u8>)
    ensures
        r@ == lit_true(),
{
    let mut v: Vec<u8> = Vec::new();
    v.push(116);
    v.push(114);
    v.push(117);
    v.push(101);
    assert(v@ =~= lit_true());
    v
}

fn lit_not_bytes() -> (r: Vec<u8>)
    ensures
        r@ == lit_not(),
{
    let mut v: Vec<u8> = Vec::new();
    v.push(110);
    v.push(111);
    v.push(116);
    v.push(40);
    assert(v@ =~= lit_not());
    v
}

fn lit_not_in_bytes() -> (r: Vec<u8>)
    ensures
        r@ == lit_not_in(),
{
    let mut v: Vec<u8> = Vec::new();
    v.push(110);
    v.push(111);
    v.push(116);
    v.push(95);
    v.push(105);
    v.push(110);
    v.push(40);
    assert(v@ =~= lit_not_in());
    v
}

fn lit_in_bytes() -> (r: Vec<u8>)
    ensures
        r@ == lit_in(),
{
    let mut v: Vec<u8> = Vec::new();
    v.push(105);
    v.push(110);
    v.push(40);
    assert(v@ =~= lit_in());
    v
}

fn lit_amp_bytes() -> (r: Vec<u8>)
    ensures
        r@ == lit_amp(),
{
    let mut v: Vec<u8> = Vec::new();
    v.push(32);
    v.push(38);
    v.push(32);
    assert(v@ =~= lit_amp());
    v
}

fn lit_pipe_bytes() -> (r: Vec<u8>)
    ensures
        r@ == lit_pipe(),
{
    let mut v: Vec<u8> = Vec::new();
    v.push(32);
    v.push(124);
    v.push(32);
    assert(v@ =~= lit_pipe());
    v
}

fn lit_comma_bytes() -> (r: Vec<u8>)
    ensures
        r@ == lit_comma(),
{
    let mut v: Vec<u8> = Vec::new();
    v.push(44);
    v.push(32);
    assert(v@ =~= lit_comma());
    v
}

fn lit_colon_bytes() -> (r: Vec<u8>)
    ensures
        r@ == lit_colon(),
{
    let mut v: Vec<u8> = Vec::new();
    v.push(58);
    v.push(32);
    assert(v@ =~= lit_colon());
    v
}

fn lit_arrow_bytes() -> (r: Vec<u8>)
    ensures
        r@ == lit_arrow(),
{
    let mut v: Vec<u8> = Vec::new();
    v.push(32);
    v.push(45);
    v.push(62);
    v.push(32);
    assert(v@ =~= lit_arrow());
    v
}

#[verifier::rlimit(100)]
fn parse_values_exec(s: &Vec<u8>, pos: usize) -> (r: Option<(Vec<DirValue>, usize)>)
    requires
        pos <= s@.len(),
    ensures
        match r {
            Option::Some((vs, p)) => parse_values(s@, pos as int) == Some(
                (vs.deep_view(), p as int),
            ) && p <= s@.len(),
            Option::None => parse_values(s@, pos as int) is None,
        },
    decreases s@.len() - pos,
{
    let slen = s.len();
    let (v, p) = match parse_value_exec(s, pos) {
        Option::Some(x) => x,
        Option::None => {
            return Option::None;
        },
    };
    if p <= pos {
        return Option::None;
    }
    let comma = lit_comma_bytes();
    if match_bytes_at(s, p, &comma) {
        match parse_values_exec(s, p + 2) {
            Option::Some((rest, p2)) => {
                let mut out: Vec<DirValue> = Vec::new();
                out.push(v);
                let mut rest = rest;
                let ghost restm = rest.deep_view();
                out.append(&mut rest);
                proof {
                    let vm = out@[0].deep_view();
                    assert(out.deep_view() =~= seq![vm] + restm);
                }
                Option::Some((out, p2))
            },
            Option::None => Option::None,
        }
    } else {
        let mut out: Vec<DirValue> = Vec::new();
        let ghost vm = v.deep_view();
        out.push(v);
        proof {
            assert(out.deep_view() =~= seq![vm]);
        }
        Option::Some((out, p))
    }
}

#[verifier::rlimit(100)]
fn parse_guard_exec(s: &Vec<u8>, pos: usize) -> (r: Option<(Guard, usize)>)
    requires
        pos <= s@.len(),
    ensures
        match r {
            Option::Some((g, p)) => parse_guard(s@, pos as int) == Some((g.deep_view(), p as int))
                && p <= s@.len(),
            Option::None => parse_guard(s@, pos as int) is None,
        },
    decreases s@.len() - pos,
{
    let slen = s.len();
    let t = lit_true_bytes();
    if match_bytes_at(s, pos, &t) {
        return Option::Some((Guard::Always, pos + 4));
    }
    let not_in = lit_not_in_bytes();
    if match_bytes_at(s, pos, &not_in) {
        return match parse_values_exec(s, pos + 7) {
            Option::Some((vs, p)) => {
                if p < s.len() && s[p] == 41 {
                    Option::Some((Guard::NoneOf(vs), p + 1))
                } else {
                    Option::None
                }
            },
            Option::None => Option::None,
        };
    }
    let not_lit = lit_not_bytes();
    if match_bytes_at(s, pos, &not_lit) {
        return match parse_value_exec(s, pos + 4) {
            Option::Some((v, p)) => {
                if p < s.len() && s[p] == 41 {
                    Option::Some((Guard::IsNot(v), p + 1))
                } else {
                    Option::None
                }
            },
            Option::None => Option::None,
        };
    }
    let in_lit = lit_in_bytes();
    if match_bytes_at(s, pos, &in_lit) {
        return match parse_values_exec(s, pos + 3) {
            Option::Some((vs, p)) => {
                if p < s.len() && s[p] == 41 {
                    Option::Some((Guard::AnyOf(vs), p + 1))
                } else {
                    Option::None
                }
            },
            Option::None => Option::None,
        };
    }
    if pos < s.len() && s[pos] == 40 {
        let (g1, p1) = match parse_guard_exec(s, pos + 1) {
            Option::Some(x) => x,
            Option::None => {
                return Option::None;
            },
        };
        if p1 <= pos {
            return Option::None;
        }
        let amp = lit_amp_bytes();
        let pipe = lit_pipe_bytes();
        if match_bytes_at(s, p1, &amp) {
            match parse_guard_exec(s, p1 + 3) {
                Option::Some((g2, p2)) => {
                    if p2 < s.len() && s[p2] == 41 {
                        Option::Some((Guard::And(Box::new(g1), Box::new(g2)), p2 + 1))
                    } else {
                        Option::None
                    }
                },
                Option::None => Option::None,
            }
        } else if match_bytes_at(s, p1, &pipe) {
            match parse_guard_exec(s, p1 + 3) {
                Option::Some((g2, p2)) => {
                    if p2 < s.len() && s[p2] == 41 {
                        Option::Some((Guard::Or(Box::new(g1), Box::new(g2)), p2 + 1))
                    } else {
                        Option::None
                    }
                },
                Option::None => Option::None,
            }
        } else {
            Option::None
        }
    } else {
        match parse_value_exec(s, pos) {
            Option::Some((v, p)) => Option::Some((Guard::Is(v), p)),
            Option::None => Option::None,
        }
    }
}

/// Rule text that does not follow the canonical notation. `position` is the
/// byte position near which parsing stopped, a diagnostic for the policy
/// author; it does not take part in the parsing contract.
#[derive(Clone, Copy, Debug, PartialEq, Eq, Structural)]
pub struct ParseError {
    pub position: usize,
}

/// Parse one rule from its canonical textual notation. Succeeds exactly on
/// the texts the notation derives, and then returns the rule the text
/// denotes; otherwise the error points near the offending byte.
#[verifier::rlimit(100)]
pub fn parse_rule_text(text: &Vec<u8>) -> (r: Result<Rule, ParseError>)
    ensures
        match spec_parse_rule(text@) {
            Option::Some(rm) => match r {
                Result::Ok(rule) => rule.deep_view() == rm,
                Result::Err(_) => false,
            },
            Option::None => match r {
                Result::Ok(_) => false,
                Result::Err(err) => err.position <= text@.len(),
            },
        },
{
    broadcast use crate::dir::lemma_bytes_deep_view;

    let tlen = text.len();
    let e = scan_ident_exec(text, 0);
    if e == 0 {
        return Result::Err(ParseError { position: 0 });
    }
    let colon = lit_colon_bytes();
    if !match_bytes_at(text, e, &colon) {
        return Result::Err(ParseError { position: e });
    }
    let (guard, p) = match parse_guard_exec(text, e + 2) {
        Option::Some(x) => x,
        Option::None => {
            return Result::Err(ParseError { position: e + 2 });
        },
    };
    let arrow = lit_arrow_bytes();
    if !match_bytes_at(text, p, &arrow) {
        return Result::Err(ParseError { position: p });
    }
    let (value, p2) = match parse_value_exec(text, p + 4) {
        Option::Some(x) => x,
        Option::None => {
            return Result::Err(ParseError { position: p + 4 });
        },
    };
    let output = match value {
        DirValue::Connector(c) => c,
        _ => {
            return Result::Err(ParseError { position: p + 4 });
        },
    };
    if p2 != text.len() {
        return Result::Err(ParseError { position: p2 });
    }
    let name = copy_range(text, 0, e);
    Result::Ok(Rule { name, guard, output })
}


/// Parse one value written in the notation, requiring the text to be
/// consumed exactly.
pub fn parse_value_text(text: &Vec<u8>) -> (r: Option<DirValue>)
    ensures
        match r {
            Option::Some(v) => parse_value(text@, 0) == Some((v.deep_view(), text@.len() as int)),
            Option::None => match parse_value(text@, 0) {
                Option::Some((vm, p)) => p != text@.len(),
                Option::None => true,
            },
        },
{
    match parse_value_exec(text, 0) {
        Option::Some((v, p)) => {
            if p == text.len() {
                Option::Some(v)
            } else {
                Option::None
            }
        },
        Option::None => Option::None,
    }
}

/// Write one value in the notation.
pub fn serialize_value(v: &DirValue) -> (out: Vec<u8>)
    ensures
        out@ == ser_value(v.deep_view()),
{
    let mut out: Vec<u8> = Vec::new();
    write_value(&mut out, v);
    assert(out@ =~= ser_value(v.deep_view()));
    out
}

} // verus!
