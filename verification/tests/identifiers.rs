use nautilus_tenant::{AccountId, UUID4};

#[test]
fn random_identifiers_are_canonical_and_differ() {
    let first = UUID4::new();
    let second = UUID4::new();
    assert_ne!(first, second);
    let text = first.to_string();
    assert_eq!(text.len(), 36);
    assert_eq!(&text[14..15], "4");
    assert!(matches!(&text[19..20], "8" | "9" | "a" | "b"));
    assert_eq!(UUID4::from_text(&text), Some(first));
    assert_eq!(text.parse::<nautilus_core::UUID4>().unwrap().to_string(), text);
}

#[test]
fn canonical_texts_are_read_back() {
    let text = "2d89666b-1a1e-4a75-b193-4eb3b454c757";
    assert_eq!(UUID4::from_text(text).unwrap().to_string(), text);
    for text in [
        "",
        "2D89666B-1A1E-4A75-B193-4EB3B454C757",
        "2d89666b-1a1e-4a75-b193-4eb3b454c75",
        "2d89666b-1a1e-4a75-b193-4eb3b454c7577",
        "2d89666b-1a1e-1a75-b193-4eb3b454c757",
        "2d89666b-1a1e-4a75-7193-4eb3b454c757",
        "2d89666b-1a1e-4a75-c193-4eb3b454c757",
        "2d89666b01a1e-4a75-b193-4eb3b454c757",
        "2d89666b-1a1e-4a75-b193-4eb3b454c75g",
        "2d89666b-1a1e-4a75-b193-4eb3b454c7é",
    ] {
        assert_eq!(UUID4::from_text(text), None);
    }
}

#[test]
fn account_ids_join_an_issuer_and_an_account() {
    for text in ["BINANCE-001", "IB-U123456789", "A-B-C", "a-b", " - ", "IB--"] {
        assert_eq!(AccountId::new_checked(text).unwrap().as_str(), text);
    }
    for text in ["", "   ", "123456789", "-123456", "IB-", "-", "--", "é-1", "IB-é"] {
        assert_eq!(AccountId::new_checked(text), None);
    }
    let id = AccountId::new_checked("IB-1").unwrap();
    assert_eq!(id.clone(), id);
}

#[test]
fn account_ids_agree_with_the_model_crate() {
    for text in ["BINANCE-001", "-1", "IB-", "IB--", "a b-c d", "x", "\t-\t", "IB-é"] {
        assert_eq!(
            AccountId::new_checked(text).is_some(),
            nautilus_model::identifiers::AccountId::new_checked(text).is_ok()
        );
    }
}
