//! Mandate reference bookkeeping for saved payment methods: the records a
//! payment method keeps, per merchant connector account, about authorized
//! mandates.

use vstd::prelude::*;

use crate::dir::{eq_bytes, lemma_bytes_deep_view, Currency};

verus! {

/// Narrower payment-method type recorded on a mandate.
#[derive(Clone, Copy, Debug, PartialEq, Eq, Structural)]
pub enum PaymentMethodType {
    Credit,
    Debit,
    ApplePay,
    GooglePay,
    Ach,
}

/// The mandate record stored against one merchant connector account.
#[derive(Debug)]
pub struct PaymentsMandateReferenceRecord {
    pub connector_mandate_id: Vec<u8>,
    pub payment_method_type: Option<PaymentMethodType>,
    pub original_payment_authorized_amount: Option<i64>,
    pub original_payment_authorized_currency: Option<Currency>,
}

/// Mathematical model of a [`PaymentsMandateReferenceRecord`].
pub struct MandateRecordModel {
    pub connector_mandate_id: Seq<u8>,
    pub payment_method_type: Option<PaymentMethodType>,
    pub original_payment_authorized_amount: Option<i64>,
    pub original_payment_authorized_currency: Option<Currency>,
}

impl DeepView for PaymentsMandateReferenceRecord {
    type V = MandateRecordModel;

    open spec fn deep_view(&self) -> MandateRecordModel {
        MandateRecordModel {
            connector_mandate_id: self.connector_mandate_id.deep_view(),
            payment_method_type: self.payment_method_type,
            original_payment_authorized_amount: self.original_payment_authorized_amount,
            original_payment_authorized_currency: self.original_payment_authorized_currency,
        }
    }
}

/// One entry of a mandate reference: the merchant connector account id and
/// its record.
#[derive(Debug)]
pub struct PaymentsMandateEntry {
    pub merchant_connector_id: Vec<u8>,
    pub record: PaymentsMandateReferenceRecord,
}

/// Mathematical model of a [`PaymentsMandateEntry`].
pub struct MandateEntryModel {
    pub merchant_connector_id: Seq<u8>,
    pub record: MandateRecordModel,
}

impl DeepView for PaymentsMandateEntry {
    type V = MandateEntryModel;

    open spec fn deep_view(&self) -> MandateEntryModel {
        MandateEntryModel {
            merchant_connector_id: self.merchant_connector_id.deep_view(),
            record: self.record.deep_view(),
        }
    }
}

/// Mandate records keyed by merchant connector account id, in insertion
/// order; at most one entry per account id.
#[derive(Debug)]
pub struct PaymentsMandateReference {
    pub entries: Vec<PaymentsMandateEntry>,
}

/// The record built from the call's arguments.
pub open spec fn spec_record(
    payment_method_type: Option<PaymentMethodType>,
    authorized_amount: Option<i64>,
    authorized_currency: Option<Currency>,
    connector_mandate_id: Seq<u8>,
) -> MandateRecordModel {
    MandateRecordModel {
        connector_mandate_id,
        payment_method_type,
        original_payment_authorized_amount: authorized_amount,
        original_payment_authorized_currency: authorized_currency,
    }
}

/// The position of the entry stored under the account id, scanning from `i`.
pub open spec fn entry_index_from(
    entries: Seq<MandateEntryModel>,
    id: Seq<u8>,
    i: int,
) -> Option<int>
    decreases entries.len() - i,
{
    if i < 0 || i >= entries.len() {
        None
    } else if entries[i].merchant_connector_id == id {
        Some(i)
    } else {
        entry_index_from(entries, id, i + 1)
    }
}

/// Build the mandate reference for a freshly saved payment method: one
/// record under the merchant connector account id, when both the account id
/// and the connector's mandate id are present; nothing otherwise.
pub fn add_connector_mandate_details_in_payment_method(
    payment_method_type: Option<PaymentMethodType>,
    authorized_amount: Option<i64>,
    authorized_currency: Option<Currency>,
    merchant_connector_id: Option<Vec<u8>>,
    connector_mandate_id: Option<Vec<u8>>,
) -> (r: Option<PaymentsMandateReference>)
    ensures
        (r is Some) == (merchant_connector_id is Some && connector_mandate_id is Some),
        match r {
            Option::Some(pr) => {
                &&& pr.entries.deep_view().len() == 1
                &&& match (merchant_connector_id, connector_mandate_id) {
                    (Option::Some(mca_id), Option::Some(cid)) => pr.entries.deep_view()[0]
                        == (MandateEntryModel {
                        merchant_connector_id: mca_id.deep_view(),
                        record: spec_record(
                            payment_method_type,
                            authorized_amount,
                            authorized_currency,
                            cid.deep_view(),
                        ),
                    }),
                    _ => false,
                }
            },
            Option::None => true,
        },
{
    broadcast use lemma_bytes_deep_view;

    match (merchant_connector_id, connector_mandate_id) {
        (Option::Some(mca_id), Option::Some(cid)) => {
            let record = PaymentsMandateReferenceRecord {
                connector_mandate_id: cid,
                payment_method_type,
                original_payment_authorized_amount: authorized_amount,
                original_payment_authorized_currency: authorized_currency,
            };
            let mut entries: Vec<PaymentsMandateEntry> = Vec::new();
            entries.push(PaymentsMandateEntry { merchant_connector_id: mca_id, record });
            assert(entries.deep_view() =~= seq![entries@[0].deep_view()]);
            Option::Some(PaymentsMandateReference { entries })
        },
        _ => Option::None,
    }
}

/// Bring a payment method's stored mandate reference up to date: when both
/// identifiers are present, replace the record stored under the account id,
/// or append one when the account is not yet listed; without stored details
/// the reference is built afresh, and without both identifiers nothing is
/// stored.
#[verifier::loop_isolation(false)]
pub fn update_connector_mandate_details_in_payment_method(
    existing: Option<PaymentsMandateReference>,
    payment_method_type: Option<PaymentMethodType>,
    authorized_amount: Option<i64>,
    authorized_currency: Option<Currency>,
    merchant_connector_id: Option<Vec<u8>>,
    connector_mandate_id: Option<Vec<u8>>,
) -> (r: Option<PaymentsMandateReference>)
    ensures
        (r is Some) == (existing is Some && merchant_connector_id is Some
            && connector_mandate_id is Some || existing is None && merchant_connector_id is Some
            && connector_mandate_id is Some),
        match (r, existing, merchant_connector_id, connector_mandate_id) {
            (Option::Some(pr), Option::Some(old_ref), Option::Some(mca_id), Option::Some(cid)) => {
                let entry = MandateEntryModel {
                    merchant_connector_id: mca_id.deep_view(),
                    record: spec_record(
                        payment_method_type,
                        authorized_amount,
                        authorized_currency,
                        cid.deep_view(),
                    ),
                };
                match entry_index_from(old_ref.entries.deep_view(), mca_id.deep_view(), 0) {
                    Option::Some(idx) => pr.entries.deep_view() == old_ref.entries.deep_view()
                        .update(idx, entry),
                    Option::None => pr.entries.deep_view() == old_ref.entries.deep_view().push(
                        entry,
                    ),
                }
            },
            (Option::Some(pr), Option::None, Option::Some(mca_id), Option::Some(cid)) => {
                &&& pr.entries.deep_view().len() == 1
                &&& pr.entries.deep_view()[0] == (MandateEntryModel {
                    merchant_connector_id: mca_id.deep_view(),
                    record: spec_record(
                        payment_method_type,
                        authorized_amount,
                        authorized_currency,
                        cid.deep_view(),
                    ),
                })
            },
            (Option::None, _, _, _) => true,
            _ => false,
        },
{
    broadcast use lemma_bytes_deep_view;

    let existing = match existing {
        Option::Some(e) => e,
        Option::None => {
            return add_connector_mandate_details_in_payment_method(
                payment_method_type,
                authorized_amount,
                authorized_currency,
                merchant_connector_id,
                connector_mandate_id,
            );
        },
    };
    let (mca_id, cid) = match (merchant_connector_id, connector_mandate_id) {
        (Option::Some(m), Option::Some(c)) => (m, c),
        _ => {
            return Option::None;
        },
    };
    let ghost old_entries = existing.entries.deep_view();
    let ghost entry_model = MandateEntryModel {
        merchant_connector_id: mca_id.deep_view(),
        record: spec_record(
            payment_method_type,
            authorized_amount,
            authorized_currency,
            cid.deep_view(),
        ),
    };
    let record = PaymentsMandateReferenceRecord {
        connector_mandate_id: cid,
        payment_method_type,
        original_payment_authorized_amount: authorized_amount,
        original_payment_authorized_currency: authorized_currency,
    };
    let mut entries = existing.entries;
    let mut i: usize = 0;
    while i < entries.len()
        invariant
            i <= entries@.len(),
            entries.deep_view() == old_entries,
            entry_index_from(old_entries, mca_id@, 0) == entry_index_from(
                old_entries,
                mca_id@,
                i as int,
            ),
        decreases entries@.len() - i,
    {
        if eq_bytes(&entries[i].merchant_connector_id, &mca_id) {
            let updated = PaymentsMandateEntry { merchant_connector_id: mca_id, record };
            proof {
                assert(updated.deep_view() == entry_model);
                assert(entry_index_from(old_entries, mca_id@, i as int) == Some(i as int));
            }
            entries.set(i, updated);
            assert(entries.deep_view() =~= old_entries.update(i as int, entry_model));
            return Option::Some(PaymentsMandateReference { entries });
        }
        i = i + 1;
    }
    let fresh = PaymentsMandateEntry { merchant_connector_id: mca_id, record };
    proof {
        assert(fresh.deep_view() == entry_model);
    }
    entries.push(fresh);
    assert(entries.deep_view() =~= old_entries.push(entry_model));
    Option::Some(PaymentsMandateReference { entries })
}

} // verus!
