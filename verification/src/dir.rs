//! Directory value model: the closed, typed vocabulary of routing attributes.
//!
//! A [`DirKey`] names one routing attribute category; a [`DirValue`] is a
//! concrete value for one category and always identifies its owning key
//! ([`DirValue::key`]). Values are the nodes of the constraint graph and the
//! atoms of rule guards. Textual payloads (business labels, metadata, sub
//! labels) are byte strings; their mathematical models use `Seq<u8>`.

use vstd::prelude::*;

verus! {

/// Country of the transaction.
#[derive(Clone, Copy, Debug, PartialEq, Eq, Structural)]
pub enum Country {
    UnitedStates,
    Canada,
    Germany,
    France,
    India,
    UnitedKingdom,
}

/// Currency the payment is made in.
#[derive(Clone, Copy, Debug, PartialEq, Eq, Structural)]
pub enum Currency {
    Usd,
    Eur,
    Gbp,
    Inr,
    Cad,
    Jpy,
}

/// Payment method family.
#[derive(Clone, Copy, Debug, PartialEq, Eq, Structural)]
pub enum PaymentMethod {
    Card,
    Wallet,
    PayLater,
    BankDebit,
    Crypto,
}

/// Card network of a card payment.
#[derive(Clone, Copy, Debug, PartialEq, Eq, Structural)]
pub enum CardNetwork {
    Visa,
    Mastercard,
    Amex,
    Discover,
    Rupay,
}

/// How the payment is captured.
#[derive(Clone, Copy, Debug, PartialEq, Eq, Structural)]
pub enum CaptureMethod {
    Automatic,
    Manual,
}

/// Authentication flow demanded for the payment.
#[derive(Clone, Copy, Debug, PartialEq, Eq, Structural)]
pub enum AuthenticationType {
    ThreeDs,
    NoThreeDs,
}

/// Kind of mandate backing the payment.
#[derive(Clone, Copy, Debug, PartialEq, Eq, Structural)]
pub enum MandateType {
    SingleUse,
    MultiUse,
}

/// A known payment connector integration.
#[derive(Clone, Copy, Debug, PartialEq, Eq, Structural)]
pub enum Connector {
    Stripe,
    Adyen,
    Checkout,
    Braintree,
    Paypal,
}

/// Refinement of a numeric comparison: absent means equality.
#[derive(Clone, Copy, Debug, PartialEq, Eq, Structural)]
pub enum NumRefinement {
    GreaterThan,
    LessThan,
}

/// A numeric value (a minor-unit amount) together with the comparison it is
/// used under in a guard. A concrete transaction amount carries no refinement.
#[derive(Clone, Copy, Debug, PartialEq, Eq, Structural)]
pub struct NumValue {
    pub number: u64,
    pub refinement: Option<NumRefinement>,
}

impl DeepView for Country {
    type V = Country;

    #[verifier::inline]
    open spec fn deep_view(&self) -> Country {
        *self
    }
}

impl DeepView for Currency {
    type V = Currency;

    #[verifier::inline]
    open spec fn deep_view(&self) -> Currency {
        *self
    }
}

impl DeepView for PaymentMethod {
    type V = PaymentMethod;

    #[verifier::inline]
    open spec fn deep_view(&self) -> PaymentMethod {
        *self
    }
}

impl DeepView for CardNetwork {
    type V = CardNetwork;

    #[verifier::inline]
    open spec fn deep_view(&self) -> CardNetwork {
        *self
    }
}

impl DeepView for CaptureMethod {
    type V = CaptureMethod;

    #[verifier::inline]
    open spec fn deep_view(&self) -> CaptureMethod {
        *self
    }
}

impl DeepView for AuthenticationType {
    type V = AuthenticationType;

    #[verifier::inline]
    open spec fn deep_view(&self) -> AuthenticationType {
        *self
    }
}

impl DeepView for MandateType {
    type V = MandateType;

    #[verifier::inline]
    open spec fn deep_view(&self) -> MandateType {
        *self
    }
}

impl DeepView for Connector {
    type V = Connector;

    #[verifier::inline]
    open spec fn deep_view(&self) -> Connector {
        *self
    }
}

impl DeepView for NumValue {
    type V = NumValue;

    #[verifier::inline]
    open spec fn deep_view(&self) -> NumValue {
        *self
    }
}

/// A connector name plus an optional disambiguating sub label. Used both as a
/// directory value payload and as the output of routing decisions.
#[derive(Debug)]
pub struct ConnectorChoice {
    pub connector: Connector,
    pub sub_label: Option<Vec<u8>>,
}

/// Mathematical model of a [`ConnectorChoice`].
pub struct ConnectorChoiceModel {
    pub connector: Connector,
    pub sub_label: Option<Seq<u8>>,
}

impl DeepView for ConnectorChoice {
    type V = ConnectorChoiceModel;

    open spec fn deep_view(&self) -> ConnectorChoiceModel {
        ConnectorChoiceModel { connector: self.connector, sub_label: self.sub_label.deep_view() }
    }
}

/// One metadata entry asserted on a transaction.
#[derive(Debug)]
pub struct MetadataValue {
    pub key: Vec<u8>,
    pub value: Vec<u8>,
}

/// Mathematical model of a [`MetadataValue`].
pub struct MetadataValueModel {
    pub key: Seq<u8>,
    pub value: Seq<u8>,
}

impl DeepView for MetadataValue {
    type V = MetadataValueModel;

    open spec fn deep_view(&self) -> MetadataValueModel {
        MetadataValueModel { key: self.key.deep_view(), value: self.value.deep_view() }
    }
}

/// Identifier of one routing attribute category.
#[derive(Clone, Copy, Debug, PartialEq, Eq, Structural)]
pub enum DirKey {
    PaymentMethod,
    CardNetwork,
    Country,
    PaymentCurrency,
    CaptureMethod,
    AuthenticationType,
    MandateType,
    PaymentAmount,
    BusinessLabel,
    MetaData,
    Connector,
}

/// A concrete value for one routing attribute category. The variant fixes the
/// owning [`DirKey`].
#[derive(Debug)]
pub enum DirValue {
    PaymentMethod(PaymentMethod),
    CardNetwork(CardNetwork),
    Country(Country),
    PaymentCurrency(Currency),
    CaptureMethod(CaptureMethod),
    AuthenticationType(AuthenticationType),
    MandateType(MandateType),
    PaymentAmount(NumValue),
    BusinessLabel(Vec<u8>),
    MetaData(MetadataValue),
    Connector(ConnectorChoice),
}

/// Mathematical model of a [`DirValue`].
pub enum DirValueModel {
    PaymentMethod(PaymentMethod),
    CardNetwork(CardNetwork),
    Country(Country),
    PaymentCurrency(Currency),
    CaptureMethod(CaptureMethod),
    AuthenticationType(AuthenticationType),
    MandateType(MandateType),
    PaymentAmount(NumValue),
    BusinessLabel(Seq<u8>),
    MetaData(MetadataValueModel),
    Connector(ConnectorChoiceModel),
}

impl DeepView for DirValue {
    type V = DirValueModel;

    open spec fn deep_view(&self) -> DirValueModel {
        match self {
            DirValue::PaymentMethod(x) => DirValueModel::PaymentMethod(*x),
            DirValue::CardNetwork(x) => DirValueModel::CardNetwork(*x),
            DirValue::Country(x) => DirValueModel::Country(*x),
            DirValue::PaymentCurrency(x) => DirValueModel::PaymentCurrency(*x),
            DirValue::CaptureMethod(x) => DirValueModel::CaptureMethod(*x),
            DirValue::AuthenticationType(x) => DirValueModel::AuthenticationType(*x),
            DirValue::MandateType(x) => DirValueModel::MandateType(*x),
            DirValue::PaymentAmount(x) => DirValueModel::PaymentAmount(*x),
            DirValue::BusinessLabel(x) => DirValueModel::BusinessLabel(x.deep_view()),
            DirValue::MetaData(x) => DirValueModel::MetaData(x.deep_view()),
            DirValue::Connector(x) => DirValueModel::Connector(x.deep_view()),
        }
    }
}

/// The key that owns a directory value.
pub open spec fn key_of(v: DirValueModel) -> DirKey {
    match v {
        DirValueModel::PaymentMethod(_) => DirKey::PaymentMethod,
        DirValueModel::CardNetwork(_) => DirKey::CardNetwork,
        DirValueModel::Country(_) => DirKey::Country,
        DirValueModel::PaymentCurrency(_) => DirKey::PaymentCurrency,
        DirValueModel::CaptureMethod(_) => DirKey::CaptureMethod,
        DirValueModel::AuthenticationType(_) => DirKey::AuthenticationType,
        DirValueModel::MandateType(_) => DirKey::MandateType,
        DirValueModel::PaymentAmount(_) => DirKey::PaymentAmount,
        DirValueModel::BusinessLabel(_) => DirKey::BusinessLabel,
        DirValueModel::MetaData(_) => DirKey::MetaData,
        DirValueModel::Connector(_) => DirKey::Connector,
    }
}

impl DirValue {
    /// The key that owns this value.
    pub fn key(&self) -> (k: DirKey)
        ensures
            k == key_of(self.deep_view()),
    {
        match self {
            DirValue::PaymentMethod(_) => DirKey::PaymentMethod,
            DirValue::CardNetwork(_) => DirKey::CardNetwork,
            DirValue::Country(_) => DirKey::Country,
            DirValue::PaymentCurrency(_) => DirKey::PaymentCurrency,
            DirValue::CaptureMethod(_) => DirKey::CaptureMethod,
            DirValue::AuthenticationType(_) => DirKey::AuthenticationType,
            DirValue::MandateType(_) => DirKey::MandateType,
            DirValue::PaymentAmount(_) => DirKey::PaymentAmount,
            DirValue::BusinessLabel(_) => DirKey::BusinessLabel,
            DirValue::MetaData(_) => DirKey::MetaData,
            DirValue::Connector(_) => DirKey::Connector,
        }
    }
}

/// The textual identifier of a connector.
pub open spec fn connector_name(c: Connector) -> Seq<u8> {
    match c {
        // "stripe"
        Connector::Stripe => seq![115u8, 116u8, 114u8, 105u8, 112u8, 101u8],
        // "adyen"
        Connector::Adyen => seq![97u8, 100u8, 121u8, 101u8, 110u8],
        // "checkout"
        Connector::Checkout => seq![99u8, 104u8, 101u8, 99u8, 107u8, 111u8, 117u8, 116u8],
        // "braintree"
        Connector::Braintree => seq![98u8, 114u8, 97u8, 105u8, 110u8, 116u8, 114u8, 101u8, 101u8],
        // "paypal"
        Connector::Paypal => seq![112u8, 97u8, 121u8, 112u8, 97u8, 108u8],
    }
}

/// The connector a textual identifier names, if any.
pub open spec fn spec_connector_from_name(s: Seq<u8>) -> Option<Connector> {
    if s == connector_name(Connector::Stripe) {
        Some(Connector::Stripe)
    } else     if s == connector_name(Connector::Adyen) {
        Some(Connector::Adyen)
    } else     if s == connector_name(Connector::Checkout) {
        Some(Connector::Checkout)
    } else     if s == connector_name(Connector::Braintree) {
        Some(Connector::Braintree)
    } else     if s == connector_name(Connector::Paypal) {
        Some(Connector::Paypal)
    } else {
        None
    }
}

/// The textual identifier of a connector, as bytes.
pub fn connector_name_bytes(c: Connector) -> (r: Vec<u8>)
    ensures
        r@ == connector_name(c),
{
    let mut v: Vec<u8> = Vec::new();
    match c {
        Connector::Stripe => {
            v.push(115);
            v.push(116);
            v.push(114);
            v.push(105);
            v.push(112);
            v.push(101);
        },
        Connector::Adyen => {
            v.push(97);
            v.push(100);
            v.push(121);
            v.push(101);
            v.push(110);
        },
        Connector::Checkout => {
            v.push(99);
            v.push(104);
            v.push(101);
            v.push(99);
            v.push(107);
            v.push(111);
            v.push(117);
            v.push(116);
        },
        Connector::Braintree => {
            v.push(98);
            v.push(114);
            v.push(97);
            v.push(105);
            v.push(110);
            v.push(116);
            v.push(114);
            v.push(101);
            v.push(101);
        },
        Connector::Paypal => {
            v.push(112);
            v.push(97);
            v.push(121);
            v.push(112);
            v.push(97);
            v.push(108);
        },
    }
    assert(v@ =~= connector_name(c));
    v
}

/// Validate a textual connector identifier against the known connectors.
pub fn connector_from_name(name: &Vec<u8>) -> (r: Option<Connector>)
    ensures
        r == spec_connector_from_name(name@),
{
    if eq_bytes(name, &connector_name_bytes(Connector::Stripe)) {
        Option::Some(Connector::Stripe)
    } else if eq_bytes(name, &connector_name_bytes(Connector::Adyen)) {
        Option::Some(Connector::Adyen)
    } else if eq_bytes(name, &connector_name_bytes(Connector::Checkout)) {
        Option::Some(Connector::Checkout)
    } else if eq_bytes(name, &connector_name_bytes(Connector::Braintree)) {
        Option::Some(Connector::Braintree)
    } else if eq_bytes(name, &connector_name_bytes(Connector::Paypal)) {
        Option::Some(Connector::Paypal)
    } else {
        Option::None
    }
}

/// The mathematical model of a byte string is its sequence of bytes.
pub broadcast proof fn lemma_bytes_deep_view(v: Vec<u8>)
    ensures
        #[trigger] v.deep_view() == v@,
{
    assert(v.deep_view() =~= v@);
}

/// Byte-for-byte copy of a byte string.
pub fn clone_bytes(v: &Vec<u8>) -> (r: Vec<u8>)
    ensures
        r@ == v@,
{
    let mut r: Vec<u8> = Vec::new();
    let mut i: usize = 0;
    while i < v.len()
        invariant
            i <= v.len(),
            r@ == v@.subrange(0, i as int),
        decreases v.len() - i,
    {
        r.push(v[i]);
        assert(r@ == v@.subrange(0, i + 1 as int));
        i = i + 1;
    }
    assert(r@ == v@);
    r
}

/// Byte-for-byte equality of two byte strings.
pub fn eq_bytes(a: &Vec<u8>, b: &Vec<u8>) -> (r: bool)
    ensures
        r == (a@ == b@),
{
    if a.len() != b.len() {
        return false;
    }
    let mut i: usize = 0;
    while i < a.len()
        invariant
            i <= a.len(),
            a@.len() == b@.len(),
            forall|j: int| 0 <= j < i ==> a@[j] == b@[j],
        decreases a.len() - i,
    {
        if a[i] != b[i] {
            return false;
        }
        i = i + 1;
    }
    assert(a@ =~= b@);
    true
}

fn eq_opt_bytes(a: &Option<Vec<u8>>, b: &Option<Vec<u8>>) -> (r: bool)
    ensures
        r == (a.deep_view() == b.deep_view()),
{
    broadcast use lemma_bytes_deep_view;

    match (a, b) {
        (Option::None, Option::None) => true,
        (Option::Some(x), Option::Some(y)) => eq_bytes(x, y),
        _ => false,
    }
}

fn clone_opt_bytes(v: &Option<Vec<u8>>) -> (r: Option<Vec<u8>>)
    ensures
        r.deep_view() == v.deep_view(),
{
    match v {
        Option::None => Option::None,
        Option::Some(x) => Option::Some(clone_bytes(x)),
    }
}

impl ConnectorChoice {
    /// Structural copy preserving the model.
    pub fn duplicate(&self) -> (r: ConnectorChoice)
        ensures
            r.deep_view() == self.deep_view(),
    {
        ConnectorChoice { connector: self.connector, sub_label: clone_opt_bytes(&self.sub_label) }
    }

    /// Model-level equality of two connector choices.
    pub fn equals(&self, other: &ConnectorChoice) -> (r: bool)
        ensures
            r == (self.deep_view() == other.deep_view()),
    {
        self.connector == other.connector && eq_opt_bytes(&self.sub_label, &other.sub_label)
    }
}

impl DirValue {
    /// Structural copy preserving the model.
    pub fn duplicate(&self) -> (r: DirValue)
        ensures
            r.deep_view() == self.deep_view(),
    {
        match self {
            DirValue::PaymentMethod(x) => DirValue::PaymentMethod(*x),
            DirValue::CardNetwork(x) => DirValue::CardNetwork(*x),
            DirValue::Country(x) => DirValue::Country(*x),
            DirValue::PaymentCurrency(x) => DirValue::PaymentCurrency(*x),
            DirValue::CaptureMethod(x) => DirValue::CaptureMethod(*x),
            DirValue::AuthenticationType(x) => DirValue::AuthenticationType(*x),
            DirValue::MandateType(x) => DirValue::MandateType(*x),
            DirValue::PaymentAmount(x) => DirValue::PaymentAmount(*x),
            DirValue::BusinessLabel(x) => DirValue::BusinessLabel(clone_bytes(x)),
            DirValue::MetaData(x) => DirValue::MetaData(
                MetadataValue { key: clone_bytes(&x.key), value: clone_bytes(&x.value) },
            ),
            DirValue::Connector(x) => DirValue::Connector(x.duplicate()),
        }
    }

    /// Model-level equality of two directory values.
    pub fn equals(&self, other: &DirValue) -> (r: bool)
        ensures
            r == (self.deep_view() == other.deep_view()),
    {
        broadcast use lemma_bytes_deep_view;

        match (self, other) {
            (DirValue::PaymentMethod(x), DirValue::PaymentMethod(y)) => x == y,
            (DirValue::CardNetwork(x), DirValue::CardNetwork(y)) => x == y,
            (DirValue::Country(x), DirValue::Country(y)) => x == y,
            (DirValue::PaymentCurrency(x), DirValue::PaymentCurrency(y)) => x == y,
            (DirValue::CaptureMethod(x), DirValue::CaptureMethod(y)) => x == y,
            (DirValue::AuthenticationType(x), DirValue::AuthenticationType(y)) => x == y,
            (DirValue::MandateType(x), DirValue::MandateType(y)) => x == y,
            (DirValue::PaymentAmount(x), DirValue::PaymentAmount(y)) => x == y,
            (DirValue::BusinessLabel(x), DirValue::BusinessLabel(y)) => eq_bytes(x, y),
            (DirValue::MetaData(x), DirValue::MetaData(y)) => eq_bytes(&x.key, &y.key)
                && eq_bytes(&x.value, &y.value),
            (DirValue::Connector(x), DirValue::Connector(y)) => x.equals(y),
            _ => false,
        }
    }
}

/// The textual identifier of a routing attribute key.
pub open spec fn key_name(k: DirKey) -> Seq<u8> {
    match k {
        // "payment_method"
        DirKey::PaymentMethod => seq![112u8, 97u8, 121u8, 109u8, 101u8, 110u8, 116u8, 95u8, 109u8, 101u8, 116u8, 104u8, 111u8, 100u8],
        // "card_network"
        DirKey::CardNetwork => seq![99u8, 97u8, 114u8, 100u8, 95u8, 110u8, 101u8, 116u8, 119u8, 111u8, 114u8, 107u8],
        // "country"
        DirKey::Country => seq![99u8, 111u8, 117u8, 110u8, 116u8, 114u8, 121u8],
        // "currency"
        DirKey::PaymentCurrency => seq![99u8, 117u8, 114u8, 114u8, 101u8, 110u8, 99u8, 121u8],
        // "capture_method"
        DirKey::CaptureMethod => seq![99u8, 97u8, 112u8, 116u8, 117u8, 114u8, 101u8, 95u8, 109u8, 101u8, 116u8, 104u8, 111u8, 100u8],
        // "auth_type"
        DirKey::AuthenticationType => seq![97u8, 117u8, 116u8, 104u8, 95u8, 116u8, 121u8, 112u8, 101u8],
        // "mandate_type"
        DirKey::MandateType => seq![109u8, 97u8, 110u8, 100u8, 97u8, 116u8, 101u8, 95u8, 116u8, 121u8, 112u8, 101u8],
        // "amount"
        DirKey::PaymentAmount => seq![97u8, 109u8, 111u8, 117u8, 110u8, 116u8],
        // "business_label"
        DirKey::BusinessLabel => seq![98u8, 117u8, 115u8, 105u8, 110u8, 101u8, 115u8, 115u8, 95u8, 108u8, 97u8, 98u8, 101u8, 108u8],
        // "metadata"
        DirKey::MetaData => seq![109u8, 101u8, 116u8, 97u8, 100u8, 97u8, 116u8, 97u8],
        // "connector"
        DirKey::Connector => seq![99u8, 111u8, 110u8, 110u8, 101u8, 99u8, 116u8, 111u8, 114u8],
    }
}

/// The routing attribute key a textual identifier names, if any.
pub open spec fn spec_key_from_name(s: Seq<u8>) -> Option<DirKey> {
    if s == key_name(DirKey::PaymentMethod) {
        Some(DirKey::PaymentMethod)
    } else if s == key_name(DirKey::CardNetwork) {
        Some(DirKey::CardNetwork)
    } else if s == key_name(DirKey::Country) {
        Some(DirKey::Country)
    } else if s == key_name(DirKey::PaymentCurrency) {
        Some(DirKey::PaymentCurrency)
    } else if s == key_name(DirKey::CaptureMethod) {
        Some(DirKey::CaptureMethod)
    } else if s == key_name(DirKey::AuthenticationType) {
        Some(DirKey::AuthenticationType)
    } else if s == key_name(DirKey::MandateType) {
        Some(DirKey::MandateType)
    } else if s == key_name(DirKey::PaymentAmount) {
        Some(DirKey::PaymentAmount)
    } else if s == key_name(DirKey::BusinessLabel) {
        Some(DirKey::BusinessLabel)
    } else if s == key_name(DirKey::MetaData) {
        Some(DirKey::MetaData)
    } else if s == key_name(DirKey::Connector) {
        Some(DirKey::Connector)
    } else {
        None
    }
}

/// The textual identifier of a routing attribute key, as bytes.
pub fn key_name_bytes(k: DirKey) -> (r: Vec<u8>)
    ensures
        r@ == key_name(k),
{
    let mut v: Vec<u8> = Vec::new();
    match k {
        DirKey::PaymentMethod => {
            v.push(112);
            v.push(97);
            v.push(121);
            v.push(109);
            v.push(101);
            v.push(110);
            v.push(116);
            v.push(95);
            v.push(109);
            v.push(101);
            v.push(116);
            v.push(104);
            v.push(111);
            v.push(100);
        },
        DirKey::CardNetwork => {
            v.push(99);
            v.push(97);
            v.push(114);
            v.push(100);
            v.push(95);
            v.push(110);
            v.push(101);
            v.push(116);
            v.push(119);
            v.push(111);
            v.push(114);
            v.push(107);
        },
        DirKey::Country => {
            v.push(99);
            v.push(111);
            v.push(117);
            v.push(110);
            v.push(116);
            v.push(114);
            v.push(121);
        },
        DirKey::PaymentCurrency => {
            v.push(99);
            v.push(117);
            v.push(114);
            v.push(114);
            v.push(101);
            v.push(110);
            v.push(99);
            v.push(121);
        },
        DirKey::CaptureMethod => {
            v.push(99);
            v.push(97);
            v.push(112);
            v.push(116);
            v.push(117);
            v.push(114);
            v.push(101);
            v.push(95);
            v.push(109);
            v.push(101);
            v.push(116);
            v.push(104);
            v.push(111);
            v.push(100);
        },
        DirKey::AuthenticationType => {
            v.push(97);
            v.push(117);
            v.push(116);
            v.push(104);
            v.push(95);
            v.push(116);
            v.push(121);
            v.push(112);
            v.push(101);
        },
        DirKey::MandateType => {
            v.push(109);
            v.push(97);
            v.push(110);
            v.push(100);
            v.push(97);
            v.push(116);
            v.push(101);
            v.push(95);
            v.push(116);
            v.push(121);
            v.push(112);
            v.push(101);
        },
        DirKey::PaymentAmount => {
            v.push(97);
            v.push(109);
            v.push(111);
            v.push(117);
            v.push(110);
            v.push(116);
        },
        DirKey::BusinessLabel => {
            v.push(98);
            v.push(117);
            v.push(115);
            v.push(105);
            v.push(110);
            v.push(101);
            v.push(115);
            v.push(115);
            v.push(95);
            v.push(108);
            v.push(97);
            v.push(98);
            v.push(101);
            v.push(108);
        },
        DirKey::MetaData => {
            v.push(109);
            v.push(101);
            v.push(116);
            v.push(97);
            v.push(100);
            v.push(97);
            v.push(116);
            v.push(97);
        },
        DirKey::Connector => {
            v.push(99);
            v.push(111);
            v.push(110);
            v.push(110);
            v.push(101);
            v.push(99);
            v.push(116);
            v.push(111);
            v.push(114);
        },
    }
    assert(v@ =~= key_name(k));
    v
}

/// Validate a textual key identifier against the known keys.
pub fn key_from_name(name: &Vec<u8>) -> (r: Option<DirKey>)
    ensures
        r == spec_key_from_name(name@),
{
    if eq_bytes(name, &key_name_bytes(DirKey::PaymentMethod)) {
        Option::Some(DirKey::PaymentMethod)
    } else if eq_bytes(name, &key_name_bytes(DirKey::CardNetwork)) {
        Option::Some(DirKey::CardNetwork)
    } else if eq_bytes(name, &key_name_bytes(DirKey::Country)) {
        Option::Some(DirKey::Country)
    } else if eq_bytes(name, &key_name_bytes(DirKey::PaymentCurrency)) {
        Option::Some(DirKey::PaymentCurrency)
    } else if eq_bytes(name, &key_name_bytes(DirKey::CaptureMethod)) {
        Option::Some(DirKey::CaptureMethod)
    } else if eq_bytes(name, &key_name_bytes(DirKey::AuthenticationType)) {
        Option::Some(DirKey::AuthenticationType)
    } else if eq_bytes(name, &key_name_bytes(DirKey::MandateType)) {
        Option::Some(DirKey::MandateType)
    } else if eq_bytes(name, &key_name_bytes(DirKey::PaymentAmount)) {
        Option::Some(DirKey::PaymentAmount)
    } else if eq_bytes(name, &key_name_bytes(DirKey::BusinessLabel)) {
        Option::Some(DirKey::BusinessLabel)
    } else if eq_bytes(name, &key_name_bytes(DirKey::MetaData)) {
        Option::Some(DirKey::MetaData)
    } else if eq_bytes(name, &key_name_bytes(DirKey::Connector)) {
        Option::Some(DirKey::Connector)
    } else {
        Option::None
    }
}

/// What kind of values a key carries.
#[derive(Clone, Copy, Debug, PartialEq, Eq, Structural)]
pub enum DirKeyKind {
    /// A closed set of enumerated values.
    EnumVariants,
    /// A numeric amount with a comparison.
    Number,
    /// Free-form text.
    Text,
    /// A free-form key/value pair.
    KeyValue,
}

/// The display category a key is grouped under for authoring tools.
#[derive(Clone, Copy, Debug, PartialEq, Eq, Structural)]
pub enum DirKeyCategory {
    PaymentMethods,
    Payments,
    Merchant,
}

/// What kind of values the key carries.
pub open spec fn key_kind(k: DirKey) -> DirKeyKind {
    match k {
        DirKey::PaymentAmount => DirKeyKind::Number,
        DirKey::BusinessLabel => DirKeyKind::Text,
        DirKey::MetaData => DirKeyKind::KeyValue,
        _ => DirKeyKind::EnumVariants,
    }
}

/// The display category the key is grouped under.
pub open spec fn key_category(k: DirKey) -> DirKeyCategory {
    match k {
        DirKey::PaymentMethod => DirKeyCategory::PaymentMethods,
        DirKey::CardNetwork => DirKeyCategory::PaymentMethods,
        DirKey::MandateType => DirKeyCategory::PaymentMethods,
        DirKey::BusinessLabel => DirKeyCategory::Merchant,
        DirKey::MetaData => DirKeyCategory::Merchant,
        DirKey::Connector => DirKeyCategory::Merchant,
        _ => DirKeyCategory::Payments,
    }
}

impl DirKey {
    /// What kind of values this key carries.
    pub fn kind(&self) -> (r: DirKeyKind)
        ensures
            r == key_kind(*self),
    {
        match self {
            DirKey::PaymentAmount => DirKeyKind::Number,
            DirKey::BusinessLabel => DirKeyKind::Text,
            DirKey::MetaData => DirKeyKind::KeyValue,
            _ => DirKeyKind::EnumVariants,
        }
    }

    /// The display category this key is grouped under.
    pub fn category(&self) -> (r: DirKeyCategory)
        ensures
            r == key_category(*self),
    {
        match self {
            DirKey::PaymentMethod => DirKeyCategory::PaymentMethods,
            DirKey::CardNetwork => DirKeyCategory::PaymentMethods,
            DirKey::MandateType => DirKeyCategory::PaymentMethods,
            DirKey::BusinessLabel => DirKeyCategory::Merchant,
            DirKey::MetaData => DirKeyCategory::Merchant,
            DirKey::Connector => DirKeyCategory::Merchant,
            _ => DirKeyCategory::Payments,
        }
    }
}

/// The description shown beside the key in authoring tools.
pub open spec fn key_description(k: DirKey) -> Seq<char> {
    match k {
        DirKey::PaymentMethod => "Payment method family of the transaction"@,
        DirKey::CardNetwork => "Card network of a card payment"@,
        DirKey::Country => "Country of the transaction"@,
        DirKey::PaymentCurrency => "Currency the payment is made in"@,
        DirKey::CaptureMethod => "How the payment is captured"@,
        DirKey::AuthenticationType => "Authentication flow demanded for the payment"@,
        DirKey::MandateType => "Kind of mandate backing the payment"@,
        DirKey::PaymentAmount => "Minor-unit amount of the payment"@,
        DirKey::BusinessLabel => "Merchant business label of the transaction"@,
        DirKey::MetaData => "Free-form metadata asserted on the transaction"@,
        DirKey::Connector => "Payment connector selected for the transaction"@,
    }
}

/// The description shown beside the key in authoring tools.
pub fn describe_key(k: DirKey) -> (r: &'static str)
    ensures
        r@ == key_description(k),
{
    match k {
        DirKey::PaymentMethod => "Payment method family of the transaction",
        DirKey::CardNetwork => "Card network of a card payment",
        DirKey::Country => "Country of the transaction",
        DirKey::PaymentCurrency => "Currency the payment is made in",
        DirKey::CaptureMethod => "How the payment is captured",
        DirKey::AuthenticationType => "Authentication flow demanded for the payment",
        DirKey::MandateType => "Kind of mandate backing the payment",
        DirKey::PaymentAmount => "Minor-unit amount of the payment",
        DirKey::BusinessLabel => "Merchant business label of the transaction",
        DirKey::MetaData => "Free-form metadata asserted on the transaction",
        DirKey::Connector => "Payment connector selected for the transaction",
    }
}

/// The keys offered to policy authoring tools, in declaration order: every
/// key except Connector, which is the routing decision's output rather than
/// an authorable condition (connectors are enumerated by
/// [`all_connectors`]).
pub open spec fn all_keys() -> Seq<DirKey> {
    seq![
        DirKey::PaymentMethod,
        DirKey::CardNetwork,
        DirKey::Country,
        DirKey::PaymentCurrency,
        DirKey::CaptureMethod,
        DirKey::AuthenticationType,
        DirKey::MandateType,
        DirKey::PaymentAmount,
        DirKey::BusinessLabel,
        DirKey::MetaData,
    ]
}

/// The keys offered to policy authoring tools: every key except Connector
/// (the routing decision's output, not an authorable condition).
pub fn list_keys() -> (r: Vec<DirKey>)
    ensures
        r@ == all_keys(),
{
    let mut v: Vec<DirKey> = Vec::new();
    v.push(DirKey::PaymentMethod);
    v.push(DirKey::CardNetwork);
    v.push(DirKey::Country);
    v.push(DirKey::PaymentCurrency);
    v.push(DirKey::CaptureMethod);
    v.push(DirKey::AuthenticationType);
    v.push(DirKey::MandateType);
    v.push(DirKey::PaymentAmount);
    v.push(DirKey::BusinessLabel);
    v.push(DirKey::MetaData);
    assert(v@ =~= all_keys());
    v
}

/// The authorable keys grouped under one display category, in declaration
/// order.
pub open spec fn category_keys(c: DirKeyCategory) -> Seq<DirKey> {
    match c {
        DirKeyCategory::PaymentMethods => seq![
            DirKey::PaymentMethod,
            DirKey::CardNetwork,
            DirKey::MandateType,
        ],
        DirKeyCategory::Payments => seq![
            DirKey::Country,
            DirKey::PaymentCurrency,
            DirKey::CaptureMethod,
            DirKey::AuthenticationType,
            DirKey::PaymentAmount,
        ],
        DirKeyCategory::Merchant => seq![DirKey::BusinessLabel, DirKey::MetaData],
    }
}

/// The authorable keys grouped under one display category, in declaration
/// order.
pub fn keys_in_category(c: DirKeyCategory) -> (r: Vec<DirKey>)
    ensures
        r@ == category_keys(c),
{
    let mut v: Vec<DirKey> = Vec::new();
    match c {
        DirKeyCategory::PaymentMethods => {
            v.push(DirKey::PaymentMethod);
            v.push(DirKey::CardNetwork);
            v.push(DirKey::MandateType);
        },
        DirKeyCategory::Payments => {
            v.push(DirKey::Country);
            v.push(DirKey::PaymentCurrency);
            v.push(DirKey::CaptureMethod);
            v.push(DirKey::AuthenticationType);
            v.push(DirKey::PaymentAmount);
        },
        DirKeyCategory::Merchant => {
            v.push(DirKey::BusinessLabel);
            v.push(DirKey::MetaData);
        },
    }
    assert(v@ =~= category_keys(c));
    v
}

/// The category buckets partition the authoring key list: a key stands in a
/// bucket exactly when it is an authorable key and the bucket is its own
/// category, so each authorable key appears in exactly one bucket and the
/// Connector key in none.
pub proof fn lemma_category_buckets_partition(c: DirKeyCategory, k: DirKey)
    ensures
        category_keys(c).contains(k) <==> (all_keys().contains(k) && key_category(k) == c),
{
    if category_keys(c).contains(k) {
        let i = choose|i: int| 0 <= i < category_keys(c).len() && category_keys(c)[i] == k;
        assert(all_keys().contains(k)) by {
            match k {
                DirKey::PaymentMethod => assert(all_keys()[0] == k),
                DirKey::CardNetwork => assert(all_keys()[1] == k),
                DirKey::Country => assert(all_keys()[2] == k),
                DirKey::PaymentCurrency => assert(all_keys()[3] == k),
                DirKey::CaptureMethod => assert(all_keys()[4] == k),
                DirKey::AuthenticationType => assert(all_keys()[5] == k),
                DirKey::MandateType => assert(all_keys()[6] == k),
                DirKey::PaymentAmount => assert(all_keys()[7] == k),
                DirKey::BusinessLabel => assert(all_keys()[8] == k),
                DirKey::MetaData => assert(all_keys()[9] == k),
                DirKey::Connector => assert(false),
            }
        }
    }
    if all_keys().contains(k) && key_category(k) == c {
        match k {
            DirKey::PaymentMethod => assert(category_keys(c)[0] == k),
            DirKey::CardNetwork => assert(category_keys(c)[1] == k),
            DirKey::Country => assert(category_keys(c)[0] == k),
            DirKey::PaymentCurrency => assert(category_keys(c)[1] == k),
            DirKey::CaptureMethod => assert(category_keys(c)[2] == k),
            DirKey::AuthenticationType => assert(category_keys(c)[3] == k),
            DirKey::MandateType => assert(category_keys(c)[2] == k),
            DirKey::PaymentAmount => assert(category_keys(c)[4] == k),
            DirKey::BusinessLabel => assert(category_keys(c)[0] == k),
            DirKey::MetaData => assert(category_keys(c)[1] == k),
            DirKey::Connector => {
                assert(forall|i: int|
                    0 <= i < all_keys().len() ==> all_keys()[i] != DirKey::Connector);
            },
        }
    }
}

/// Every known connector, for authoring tools.
pub open spec fn all_connectors() -> Seq<Connector> {
    seq![
        Connector::Stripe,
        Connector::Adyen,
        Connector::Checkout,
        Connector::Braintree,
        Connector::Paypal,
    ]
}

/// Every known connector, for authoring tools.
pub fn list_connectors() -> (r: Vec<Connector>)
    ensures
        r@ == all_connectors(),
{
    let mut v: Vec<Connector> = Vec::new();
    v.push(Connector::Stripe);
    v.push(Connector::Adyen);
    v.push(Connector::Checkout);
    v.push(Connector::Braintree);
    v.push(Connector::Paypal);
    assert(v@ =~= all_connectors());
    v
}

/// Introspection on an unrecognized or non-enumerable key.
#[derive(Clone, Copy, Debug, PartialEq, Eq, Structural)]
pub enum IntrospectionError {
    /// The identifier names no known key.
    UnknownKey,
    /// The key carries no closed set of values (amounts, labels, metadata,
    /// connectors).
    NoEnumeratedValues,
}

/// The closed set of values an enumerable key carries, in declaration order.
pub open spec fn spec_list_values(k: DirKey) -> Option<Seq<DirValueModel>> {
    match k {
        DirKey::PaymentMethod => Some(
            seq![
                DirValueModel::PaymentMethod(PaymentMethod::Card),
                DirValueModel::PaymentMethod(PaymentMethod::Wallet),
                DirValueModel::PaymentMethod(PaymentMethod::PayLater),
                DirValueModel::PaymentMethod(PaymentMethod::BankDebit),
                DirValueModel::PaymentMethod(PaymentMethod::Crypto),
            ],
        ),
        DirKey::CardNetwork => Some(
            seq![
                DirValueModel::CardNetwork(CardNetwork::Visa),
                DirValueModel::CardNetwork(CardNetwork::Mastercard),
                DirValueModel::CardNetwork(CardNetwork::Amex),
                DirValueModel::CardNetwork(CardNetwork::Discover),
                DirValueModel::CardNetwork(CardNetwork::Rupay),
            ],
        ),
        DirKey::Country => Some(
            seq![
                DirValueModel::Country(Country::UnitedStates),
                DirValueModel::Country(Country::Canada),
                DirValueModel::Country(Country::Germany),
                DirValueModel::Country(Country::France),
                DirValueModel::Country(Country::India),
                DirValueModel::Country(Country::UnitedKingdom),
            ],
        ),
        DirKey::PaymentCurrency => Some(
            seq![
                DirValueModel::PaymentCurrency(Currency::Usd),
                DirValueModel::PaymentCurrency(Currency::Eur),
                DirValueModel::PaymentCurrency(Currency::Gbp),
                DirValueModel::PaymentCurrency(Currency::Inr),
                DirValueModel::PaymentCurrency(Currency::Cad),
                DirValueModel::PaymentCurrency(Currency::Jpy),
            ],
        ),
        DirKey::CaptureMethod => Some(
            seq![
                DirValueModel::CaptureMethod(CaptureMethod::Automatic),
                DirValueModel::CaptureMethod(CaptureMethod::Manual),
            ],
        ),
        DirKey::AuthenticationType => Some(
            seq![
                DirValueModel::AuthenticationType(AuthenticationType::ThreeDs),
                DirValueModel::AuthenticationType(AuthenticationType::NoThreeDs),
            ],
        ),
        DirKey::MandateType => Some(
            seq![
                DirValueModel::MandateType(MandateType::SingleUse),
                DirValueModel::MandateType(MandateType::MultiUse),
            ],
        ),
        DirKey::PaymentAmount => None,
        DirKey::BusinessLabel => None,
        DirKey::MetaData => None,
        DirKey::Connector => None,
    }
}

/// The closed set of values an enumerable key carries, looked up by the
/// key's textual identifier; `UnknownKey` for an unrecognized identifier and
/// `NoEnumeratedValues` for a key without a closed value set.
pub fn list_values(key_identifier: &Vec<u8>) -> (r: Result<Vec<DirValue>, IntrospectionError>)
    ensures
        match spec_key_from_name(key_identifier@) {
            Option::None => r == Result::<Vec<DirValue>, IntrospectionError>::Err(
                IntrospectionError::UnknownKey,
            ),
            Option::Some(k) => match spec_list_values(k) {
                Option::None => r == Result::<Vec<DirValue>, IntrospectionError>::Err(
                    IntrospectionError::NoEnumeratedValues,
                ),
                Option::Some(vals) => match r {
                    Result::Ok(vs) => vs.deep_view() == vals,
                    Result::Err(_) => false,
                },
            },
        },
{
    let k = match key_from_name(key_identifier) {
        Option::Some(k) => k,
        Option::None => {
            return Result::Err(IntrospectionError::UnknownKey);
        },
    };
    let mut v: Vec<DirValue> = Vec::new();
    match k {
        DirKey::PaymentMethod => {
            v.push(DirValue::PaymentMethod(PaymentMethod::Card));
            v.push(DirValue::PaymentMethod(PaymentMethod::Wallet));
            v.push(DirValue::PaymentMethod(PaymentMethod::PayLater));
            v.push(DirValue::PaymentMethod(PaymentMethod::BankDebit));
            v.push(DirValue::PaymentMethod(PaymentMethod::Crypto));
        },
        DirKey::CardNetwork => {
            v.push(DirValue::CardNetwork(CardNetwork::Visa));
            v.push(DirValue::CardNetwork(CardNetwork::Mastercard));
            v.push(DirValue::CardNetwork(CardNetwork::Amex));
            v.push(DirValue::CardNetwork(CardNetwork::Discover));
            v.push(DirValue::CardNetwork(CardNetwork::Rupay));
        },
        DirKey::Country => {
            v.push(DirValue::Country(Country::UnitedStates));
            v.push(DirValue::Country(Country::Canada));
            v.push(DirValue::Country(Country::Germany));
            v.push(DirValue::Country(Country::France));
            v.push(DirValue::Country(Country::India));
            v.push(DirValue::Country(Country::UnitedKingdom));
        },
        DirKey::PaymentCurrency => {
            v.push(DirValue::PaymentCurrency(Currency::Usd));
            v.push(DirValue::PaymentCurrency(Currency::Eur));
            v.push(DirValue::PaymentCurrency(Currency::Gbp));
            v.push(DirValue::PaymentCurrency(Currency::Inr));
            v.push(DirValue::PaymentCurrency(Currency::Cad));
            v.push(DirValue::PaymentCurrency(Currency::Jpy));
        },
        DirKey::CaptureMethod => {
            v.push(DirValue::CaptureMethod(CaptureMethod::Automatic));
            v.push(DirValue::CaptureMethod(CaptureMethod::Manual));
        },
        DirKey::AuthenticationType => {
            v.push(DirValue::AuthenticationType(AuthenticationType::ThreeDs));
            v.push(DirValue::AuthenticationType(AuthenticationType::NoThreeDs));
        },
        DirKey::MandateType => {
            v.push(DirValue::MandateType(MandateType::SingleUse));
            v.push(DirValue::MandateType(MandateType::MultiUse));
        },
        DirKey::PaymentAmount => {
            return Result::Err(IntrospectionError::NoEnumeratedValues);
        },
        DirKey::BusinessLabel => {
            return Result::Err(IntrospectionError::NoEnumeratedValues);
        },
        DirKey::MetaData => {
            return Result::Err(IntrospectionError::NoEnumeratedValues);
        },
        DirKey::Connector => {
            return Result::Err(IntrospectionError::NoEnumeratedValues);
        },
    }
    proof {
        if let Option::Some(vals) = spec_list_values(k) {
            assert(v.deep_view() =~= vals);
        }
    }
    Result::Ok(v)
}

} // verus!
