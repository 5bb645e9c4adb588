use routing_core::dir::{
    describe_key, key_from_name, keys_in_category, list_connectors, list_keys, list_values,
    Connector, DirKey, DirKeyCategory, DirKeyKind, DirValue, IntrospectionError, PaymentMethod,
};
use routing_core::mandates::{
    add_connector_mandate_details_in_payment_method,
    update_connector_mandate_details_in_payment_method, PaymentMethodType,
};
use routing_core::dir::Currency;

#[test]
fn authoring_keys_exclude_the_connector_key() {
    // The Connector key is the routing decision's output, not an authorable
    // condition: the key listing offers the other ten keys, in declaration
    // order, and connectors are enumerated separately.
    let keys = list_keys();
    assert_eq!(keys.len(), 10);
    assert_eq!(keys[0], DirKey::PaymentMethod);
    assert_eq!(keys[2], DirKey::Country);
    assert_eq!(keys[9], DirKey::MetaData);
    assert!(!keys.contains(&DirKey::Connector));
    let connectors = list_connectors();
    assert_eq!(connectors.len(), 5);
    assert!(connectors.contains(&Connector::Stripe));
}

#[test]
fn category_buckets_partition_the_authoring_keys() {
    let buckets = [
        keys_in_category(DirKeyCategory::PaymentMethods),
        keys_in_category(DirKeyCategory::Payments),
        keys_in_category(DirKeyCategory::Merchant),
    ];
    let mut seen: Vec<DirKey> = Vec::new();
    for bucket in &buckets {
        for k in bucket {
            assert!(!seen.contains(k), "key listed in two buckets: {k:?}");
            seen.push(*k);
        }
    }
    let keys = list_keys();
    assert_eq!(seen.len(), keys.len());
    for k in &keys {
        assert!(seen.contains(k), "key missing from every bucket: {k:?}");
        assert!(keys_in_category(k.category()).contains(k));
    }
    assert!(!seen.contains(&DirKey::Connector));
}

#[test]
fn key_names_resolve_back_to_keys() {
    for k in list_keys() {
        assert_eq!(key_from_name(&routing_core::dir::key_name_bytes(k)), Some(k));
    }
    // The Connector key is not in the authoring listing but its name still
    // resolves (it appears in rule text).
    assert_eq!(
        key_from_name(&routing_core::dir::key_name_bytes(DirKey::Connector)),
        Some(DirKey::Connector)
    );
    assert_eq!(key_from_name(&b"no_such_key".to_vec()), None);
}

#[test]
fn enumerable_keys_list_their_values() {
    let values = list_values(&b"payment_method".to_vec()).unwrap();
    assert_eq!(values.len(), 5);
    assert!(values[0].equals(&DirValue::PaymentMethod(PaymentMethod::Card)));
    let countries = list_values(&b"country".to_vec()).unwrap();
    assert_eq!(countries.len(), 6);
}

#[test]
fn introspection_errors_are_typed() {
    assert_eq!(list_values(&b"no_such_key".to_vec()).unwrap_err(), IntrospectionError::UnknownKey);
    assert_eq!(list_values(&b"amount".to_vec()).unwrap_err(), IntrospectionError::NoEnumeratedValues);
    assert_eq!(
        list_values(&b"business_label".to_vec()).unwrap_err(),
        IntrospectionError::NoEnumeratedValues
    );
    assert_eq!(list_values(&b"connector".to_vec()).unwrap_err(), IntrospectionError::NoEnumeratedValues);
}

#[test]
fn keys_carry_kind_category_and_description() {
    assert_eq!(DirKey::PaymentAmount.kind(), DirKeyKind::Number);
    assert_eq!(DirKey::BusinessLabel.kind(), DirKeyKind::Text);
    assert_eq!(DirKey::MetaData.kind(), DirKeyKind::KeyValue);
    assert_eq!(DirKey::Country.kind(), DirKeyKind::EnumVariants);
    assert_eq!(DirKey::CardNetwork.category(), DirKeyCategory::PaymentMethods);
    assert_eq!(DirKey::Country.category(), DirKeyCategory::Payments);
    assert_eq!(DirKey::Connector.category(), DirKeyCategory::Merchant);
    assert_eq!(describe_key(DirKey::Country), "Country of the transaction");
}

#[test]
fn value_equality_is_structural() {
    let a = DirValue::BusinessLabel(b"retail".to_vec());
    let b = DirValue::BusinessLabel(b"retail".to_vec());
    let c = DirValue::BusinessLabel(b"online".to_vec());
    assert!(a.equals(&b));
    assert!(!a.equals(&c));
    assert!(!a.equals(&DirValue::PaymentMethod(PaymentMethod::Card)));
    let d = a.duplicate();
    assert!(d.equals(&a));
}

#[test]
fn mandate_details_need_both_identifiers() {
    let r = add_connector_mandate_details_in_payment_method(
        Some(PaymentMethodType::Credit),
        Some(1500),
        Some(Currency::Usd),
        Some(b"mca_1".to_vec()),
        Some(b"cm_9".to_vec()),
    );
    let reference = r.unwrap();
    assert_eq!(reference.entries.len(), 1);
    assert_eq!(reference.entries[0].merchant_connector_id, b"mca_1".to_vec());
    assert_eq!(reference.entries[0].record.connector_mandate_id, b"cm_9".to_vec());
    assert_eq!(
        reference.entries[0].record.payment_method_type,
        Some(PaymentMethodType::Credit)
    );
    assert_eq!(reference.entries[0].record.original_payment_authorized_amount, Some(1500));
    assert_eq!(
        reference.entries[0].record.original_payment_authorized_currency,
        Some(Currency::Usd)
    );

    let none = add_connector_mandate_details_in_payment_method(
        None,
        None,
        None,
        None,
        Some(b"cm_9".to_vec()),
    );
    assert!(none.is_none());
    let none = add_connector_mandate_details_in_payment_method(
        None,
        None,
        None,
        Some(b"mca_1".to_vec()),
        None,
    );
    assert!(none.is_none());
}

#[test]
fn mandate_update_replaces_or_appends_records() {
    let stored = add_connector_mandate_details_in_payment_method(
        Some(PaymentMethodType::Credit),
        Some(1500),
        Some(Currency::Usd),
        Some(b"mca_1".to_vec()),
        Some(b"cm_9".to_vec()),
    );
    // Updating the listed account replaces its record in place.
    let updated = update_connector_mandate_details_in_payment_method(
        stored,
        Some(PaymentMethodType::Debit),
        Some(2000),
        Some(Currency::Eur),
        Some(b"mca_1".to_vec()),
        Some(b"cm_10".to_vec()),
    )
    .unwrap();
    assert_eq!(updated.entries.len(), 1);
    assert_eq!(updated.entries[0].record.connector_mandate_id, b"cm_10".to_vec());
    assert_eq!(updated.entries[0].record.original_payment_authorized_amount, Some(2000));

    // Updating an unlisted account appends a second record.
    let extended = update_connector_mandate_details_in_payment_method(
        Some(updated),
        None,
        None,
        None,
        Some(b"mca_2".to_vec()),
        Some(b"cm_11".to_vec()),
    )
    .unwrap();
    assert_eq!(extended.entries.len(), 2);
    assert_eq!(extended.entries[1].merchant_connector_id, b"mca_2".to_vec());

    // Without stored details the reference is built afresh.
    let fresh = update_connector_mandate_details_in_payment_method(
        None,
        None,
        None,
        None,
        Some(b"mca_3".to_vec()),
        Some(b"cm_12".to_vec()),
    )
    .unwrap();
    assert_eq!(fresh.entries.len(), 1);

    // Without both identifiers nothing is stored.
    let none = update_connector_mandate_details_in_payment_method(
        fresh.entries.into_iter().next().map(|e| {
            routing_core::mandates::PaymentsMandateReference { entries: vec![e] }
        }),
        None,
        None,
        None,
        None,
        None,
    );
    assert!(none.is_none());
}
