use std::str::FromStr;

use nautilus_tenant::{
    encode_namespace_component, AccountId, TenantEnvelope, TenantId, TenantIdError,
    TenantNamespace, TenantScopeError, UUID4,
};

fn tenant(id: &str) -> TenantId {
    TenantId::new(id).unwrap()
}

fn namespace(tenant_id: &str, account_id: &str, runtime: &str) -> TenantNamespace {
    TenantNamespace::new(
        tenant(tenant_id),
        AccountId::new_checked(account_id).unwrap(),
        UUID4::from_text(runtime).unwrap(),
    )
}

#[test]
fn test_tenant_id_rejects_unsafe_values() {
    for value in ["", "tenant id", "tenant:id"] {
        assert!(TenantId::new(value).is_err());
    }
}

#[test]
fn test_namespace_component_encoding_is_unambiguous() {
    assert_eq!(encode_namespace_component("account:one"), "account%3Aone");
    assert_ne!(
        encode_namespace_component("account:one"),
        encode_namespace_component("account/one")
    );
}

#[test]
fn test_namespace_contains_all_ownership_dimensions() {
    let namespace = namespace(
        "tenant-a",
        "BINANCE-001",
        "11111111-1111-4111-8111-111111111111",
    );

    assert_eq!(
        namespace.key_prefix(),
        "nautilus:v1:tenant:tenant-a:account:BINANCE-001:runtime:\
         11111111-1111-4111-8111-111111111111"
    );
}

#[test]
fn test_envelope_scope_rejects_cross_tenant_routing() {
    let tenant_a = tenant("tenant-a");
    let tenant_b = tenant("tenant-b");
    let runtime = UUID4::new();
    let envelope = TenantEnvelope::new(tenant_a.clone(), runtime, "order");

    assert_eq!(
        envelope.validate_scope(&tenant_b, runtime),
        Err(TenantScopeError::TenantMismatch)
    );
    assert!(envelope.validate_scope(&tenant_a, runtime).is_ok());
}

#[test]
fn envelope_scope_rejects_another_runtime() {
    let tenant_a = tenant("tenant-a");
    let envelope = TenantEnvelope::new(tenant_a.clone(), UUID4::new(), 7);
    let other = UUID4::new();
    assert_eq!(
        envelope.validate_scope(&tenant_a, other),
        Err(TenantScopeError::RuntimeMismatch)
    );
    assert_eq!(
        envelope.validate_scope(&tenant("tenant-b"), other),
        Err(TenantScopeError::TenantMismatch)
    );
}

#[test]
fn envelope_map_keeps_scope_and_correlation() {
    let runtime = UUID4::new();
    let envelope = TenantEnvelope::new(tenant("tenant-a"), runtime, 20u32);
    let correlation_id = envelope.correlation_id;
    let mapped = envelope.map(|payload| payload + 1);
    assert_eq!(mapped.tenant_id, tenant("tenant-a"));
    assert_eq!(mapped.runtime_instance_id, runtime);
    assert_eq!(mapped.correlation_id, correlation_id);
    assert_eq!(mapped.payload, 21);
}

#[test]
fn envelopes_have_their_own_correlation_ids() {
    let runtime = UUID4::new();
    let first = TenantEnvelope::new(tenant("tenant-a"), runtime, ());
    let second = TenantEnvelope::new(tenant("tenant-a"), runtime, ());
    assert_ne!(first.correlation_id, second.correlation_id);
}

#[test]
fn tenant_id_errors_come_in_order() {
    assert_eq!(TenantId::new(""), Err(TenantIdError::Empty));
    let longest = "a".repeat(128);
    assert_eq!(tenant(&longest).as_str(), longest);
    let too_long = "a".repeat(129);
    assert_eq!(
        TenantId::new(&too_long),
        Err(TenantIdError::TooLong { max: 128 })
    );
    let too_long_and_unsafe = " ".repeat(129);
    assert_eq!(
        TenantId::new(&too_long_and_unsafe),
        Err(TenantIdError::TooLong { max: 128 })
    );
    let too_many_bytes = "é".repeat(65);
    assert_eq!(
        TenantId::new(&too_many_bytes),
        Err(TenantIdError::TooLong { max: 128 })
    );
    for value in ["a/b", "é", "a%b", "a\u{0}", "a@", "[", "`", "{", "a,"] {
        assert_eq!(TenantId::new(value), Err(TenantIdError::InvalidCharacter));
    }
    assert_eq!(tenant("AZaz09-_.").as_str(), "AZaz09-_.");
}

#[test]
fn tenant_id_error_messages() {
    assert_eq!(TenantIdError::Empty.to_string(), "tenant ID cannot be empty");
    assert_eq!(
        TenantIdError::TooLong { max: 128 }.to_string(),
        "tenant ID exceeds the maximum length of 128 characters"
    );
    assert_eq!(
        TenantIdError::TooLong { max: 0 }.to_string(),
        "tenant ID exceeds the maximum length of 0 characters"
    );
    assert_eq!(
        TenantIdError::TooLong { max: usize::MAX }.to_string(),
        format!("tenant ID exceeds the maximum length of {} characters", usize::MAX)
    );
    assert_eq!(
        TenantIdError::InvalidCharacter.to_string(),
        "tenant ID contains an invalid character"
    );
}

#[test]
fn tenant_id_conversions_agree() {
    let id = tenant("tenant-a");
    assert_eq!(TenantId::from_str("tenant-a"), Ok(id.clone()));
    assert_eq!(TenantId::try_from("tenant-a"), Ok(id.clone()));
    assert_eq!(TenantId::try_from(String::from("tenant-a")), Ok(id.clone()));
    assert_eq!(TenantId::try_from("tenant a"), Err(TenantIdError::InvalidCharacter));
    assert_eq!(TenantId::from_str(""), Err(TenantIdError::Empty));
    let text: &str = id.as_ref();
    assert_eq!(text, "tenant-a");
    assert_eq!(id.to_string(), "tenant-a");
    assert_eq!(String::from(id), "tenant-a");
}

#[test]
fn tenant_ids_are_ordered_by_text() {
    assert!(tenant("a") < tenant("b"));
    assert!(tenant("a") < tenant("aa"));
    assert_eq!(tenant("a"), tenant("a"));
}

#[test]
fn encoding_escapes_every_unsafe_byte() {
    assert_eq!(encode_namespace_component(""), "");
    assert_eq!(encode_namespace_component("AZaz09-_."), "AZaz09-_.");
    assert_eq!(encode_namespace_component("a b%"), "a%20b%25");
    assert_eq!(encode_namespace_component("é€"), "%C3%A9%E2%82%AC");
    assert_eq!(encode_namespace_component("\u{0}\u{7f}"), "%00%7F");
    assert_eq!(encode_namespace_component("%3A"), "%253A");
    for byte in 0u8..128 {
        let text = char::from(byte).to_string();
        let expected = if byte.is_ascii_alphanumeric() || matches!(byte, b'-' | b'_' | b'.') {
            text.clone()
        } else {
            format!("%{byte:02X}")
        };
        assert_eq!(encode_namespace_component(&text), expected);
    }
}

#[test]
fn key_prefixes_tell_their_owners_apart() {
    let runtime = "11111111-1111-4111-8111-111111111111";
    let other = "11111111-1111-4111-8111-111111111112";
    let prefixes = [
        namespace("tenant-a", "IB-1", runtime).key_prefix(),
        namespace("tenant-b", "IB-1", runtime).key_prefix(),
        namespace("tenant-a", "IB-2", runtime).key_prefix(),
        namespace("tenant-a", "IB-1:account:IB-1", runtime).key_prefix(),
        namespace("tenant-a", "IB-1", other).key_prefix(),
    ];
    for i in 0..prefixes.len() {
        for j in 0..i {
            assert_ne!(prefixes[i], prefixes[j]);
        }
    }
    assert_eq!(
        namespace("tenant-a", "IB-1:2", runtime).key_prefix(),
        "nautilus:v1:tenant:tenant-a:account:IB-1%3A2:runtime:\
         11111111-1111-4111-8111-111111111111"
    );
}

#[test]
fn scope_error_messages() {
    assert_eq!(
        TenantScopeError::TenantMismatch.to_string(),
        "tenant envelope does not belong to the target tenant"
    );
    assert_eq!(
        TenantScopeError::RuntimeMismatch.to_string(),
        "tenant envelope does not belong to the target runtime instance"
    );
}
