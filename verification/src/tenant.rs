//! Tenant identity and routing primitives.

use vstd::prelude::*;
use vstd::std_specs::cmp::PartialEqSpecImpl;
use vstd::std_specs::convert::{FromSpecImpl, TryFromSpecImpl};
use vstd::utf8::{encode_utf8, is_ascii_chars};

use crate::identifiers::{is_account_text, is_uuid4_text, AccountId, UUID4};
use crate::text::{decimal, decimal_text, digit, digit_char};

verus! {

/// The maximum length of a tenant identifier in bytes.
pub const MAX_TENANT_ID_LENGTH: usize = 128;

/// Characters that stand for themselves in a durable namespace key.
pub open spec fn is_namespace_safe(c: char) -> bool {
    ||| ('0' <= c && c <= '9')
    ||| ('A' <= c && c <= 'Z')
    ||| ('a' <= c && c <= 'z')
    ||| c == '-'
    ||| c == '_'
    ||| c == '.'
}

/// Every character of the text stands for itself in a durable namespace key.
pub open spec fn all_namespace_safe(text: Seq<char>) -> bool {
    forall|i: int| 0 <= i < text.len() ==> is_namespace_safe(#[trigger] text[i])
}

/// How one byte is written in a durable namespace key: as itself when it is safe, otherwise as
/// `%` and two upper-case hexadecimal digits.
pub open spec fn escaped_byte(byte: u8) -> Seq<char> {
    if is_namespace_safe(byte as char) {
        seq![byte as char]
    } else {
        seq!['%', digit_char((byte / 16) as nat), digit_char((byte % 16) as nat)]
    }
}

/// How a byte string is written in a durable namespace key.
pub open spec fn escaped_bytes(bytes: Seq<u8>) -> Seq<char>
    decreases bytes.len(),
{
    if bytes.len() == 0 {
        Seq::empty()
    } else {
        escaped_byte(bytes[0]) + escaped_bytes(bytes.drop_first())
    }
}

/// How a text is written in a durable namespace key.
pub open spec fn encoded_component(text: Seq<char>) -> Seq<char> {
    escaped_bytes(encode_utf8(text))
}

fn namespace_safe_byte(byte: u8) -> (safe: bool)
    ensures
        safe == is_namespace_safe(byte as char),
{
    (0x30 <= byte && byte <= 0x39) || (0x41 <= byte && byte <= 0x5a) || (0x61 <= byte && byte
        <= 0x7a) || byte == 0x2d || byte == 0x5f || byte == 0x2e
}

/// Encodes an identifier component for use in a durable namespace key.
#[must_use]
pub fn encode_namespace_component(value: &str) -> (encoded: String)
    ensures
        encoded@ == encoded_component(value@),
{
    let bytes = value.as_bytes();
    let mut encoded = String::new();
    let mut i: usize = 0;
    assert(bytes@.skip(0) =~= bytes@);
    while i < bytes.len()
        invariant
            i <= bytes@.len(),
            encoded@ + escaped_bytes(bytes@.skip(i as int)) == escaped_bytes(bytes@),
        decreases bytes@.len() - i,
    {
        let byte = bytes[i];
        let ghost before = encoded@;
        if namespace_safe_byte(byte) {
            encoded.push(byte as char);
        } else {
            encoded.push('%');
            encoded.push(digit(byte / 16));
            encoded.push(digit(byte % 16));
        }
        assert(encoded@ =~= before + escaped_byte(byte));
        assert(bytes@.skip(i as int).drop_first() =~= bytes@.skip(i + 1));
        assert(encoded@ + escaped_bytes(bytes@.skip(i + 1)) =~= before + escaped_bytes(
            bytes@.skip(i as int),
        ));
        i += 1;
    }
    assert(encoded@ + escaped_bytes(bytes@.skip(i as int)) =~= encoded@);
    encoded
}

/// Errors returned while validating a tenant identifier.
#[derive(Clone, Debug, Eq, PartialEq, Structural)]
pub enum TenantIdError {
    /// The identifier was empty.
    Empty,
    /// The identifier exceeded the maximum supported length.
    TooLong { max: usize },
    /// The identifier contained a character unsafe for durable namespaces.
    InvalidCharacter,
}

impl TenantIdError {
    /// The message of the error.
    pub open spec fn message(self) -> Seq<char> {
        match self {
            TenantIdError::Empty => "tenant ID cannot be empty"@,
            TenantIdError::TooLong { max } => "tenant ID exceeds the maximum length of "@
                + decimal(max as nat) + " characters"@,
            TenantIdError::InvalidCharacter => "tenant ID contains an invalid character"@,
        }
    }

    /// Describes the error.
    pub fn to_string(&self) -> (text: String)
        ensures
            text@ == self.message(),
    {
        match self {
            TenantIdError::Empty => "tenant ID cannot be empty".to_owned(),
            TenantIdError::TooLong { max } => {
                "tenant ID exceeds the maximum length of ".to_owned().concat(
                    decimal_text(*max).as_str(),
                ).concat(" characters")
            },
            TenantIdError::InvalidCharacter => "tenant ID contains an invalid character".to_owned(),
        }
    }
}

/// The reason for which a text is no tenant identifier, if there is one. Emptiness is found
/// first, then excess length, then an unsafe character.
pub open spec fn tenant_id_error(text: Seq<char>) -> Option<TenantIdError> {
    if text.len() == 0 {
        Some(TenantIdError::Empty)
    } else if encode_utf8(text).len() > MAX_TENANT_ID_LENGTH {
        Some(TenantIdError::TooLong { max: MAX_TENANT_ID_LENGTH })
    } else if !all_namespace_safe(text) {
        Some(TenantIdError::InvalidCharacter)
    } else {
        None
    }
}

/// What [`TenantId::new`] returns for a text.
pub open spec fn is_tenant_id_of(result: Result<TenantId, TenantIdError>, text: Seq<char>) -> bool {
    match result {
        Ok(id) => tenant_id_error(text) is None && id@ == text,
        Err(error) => tenant_id_error(text) == Some(error),
    }
}

/// An immutable platform tenant identifier.
#[derive(Debug, Eq, Hash, PartialOrd, Ord)]
pub struct TenantId(String);

impl View for TenantId {
    type V = Seq<char>;

    closed spec fn view(&self) -> Seq<char> {
        self.0@
    }
}

impl TenantId {
    #[verifier::type_invariant]
    spec fn well_formed(self) -> bool {
        tenant_id_error(self@) is None
    }

    /// Creates a tenant identifier after validating its namespace-safe form.
    pub fn new(value: &str) -> (result: Result<Self, TenantIdError>)
        ensures
            is_tenant_id_of(result, value@),
    {
        broadcast use vstd::string::is_ascii_spec_bytes;

        if value.is_empty() {
            return Err(TenantIdError::Empty);
        }
        let bytes = value.as_bytes();
        if bytes.len() > MAX_TENANT_ID_LENGTH {
            return Err(TenantIdError::TooLong { max: MAX_TENANT_ID_LENGTH });
        }
        if !value.is_ascii() {
            proof {
                if all_namespace_safe(value@) {
                    lemma_safe_is_ascii(value@);
                }
            }
            return Err(TenantIdError::InvalidCharacter);
        }
        let mut i: usize = 0;
        while i < bytes.len()
            invariant
                i <= bytes@.len(),
                is_ascii_chars(value@),
                bytes@ == Seq::new(value@.len(), |k: int| value@[k] as u8),
                value@.len() > 0,
                encode_utf8(value@).len() <= MAX_TENANT_ID_LENGTH,
                forall|j: int| 0 <= j < i ==> is_namespace_safe(#[trigger] value@[j]),
            decreases bytes@.len() - i,
        {
            let byte = bytes[i];
            assert(byte == value@[i as int] as u8);
            if !namespace_safe_byte(byte) {
                assert(!is_namespace_safe(value@[i as int]));
                return Err(TenantIdError::InvalidCharacter);
            }
            i += 1;
        }
        Ok(TenantId(value.to_owned()))
    }

    /// Returns the tenant identifier as a string slice.
    #[must_use]
    pub fn as_str(&self) -> (text: &str)
        ensures
            text@ == self@,
            tenant_id_error(text@) is None,
    {
        proof {
            use_type_invariant(&*self);
        }
        self.0.as_str()
    }

    /// Returns the text of the tenant identifier.
    pub fn to_string(&self) -> (text: String)
        ensures
            text@ == self@,
    {
        self.0.clone()
    }
}

proof fn lemma_safe_is_ascii(text: Seq<char>)
    requires
        all_namespace_safe(text),
    ensures
        is_ascii_chars(text),
{
    assert forall|i: int| 0 <= i < text.len() implies (#[trigger] text[i] as u32) < 128 by {
        assert(is_namespace_safe(text[i]));
    }
}

impl Clone for TenantId {
    fn clone(&self) -> (id: Self)
        ensures
            id@ == self@,
    {
        proof {
            use_type_invariant(&*self);
        }
        TenantId(self.0.clone())
    }
}

impl PartialEq for TenantId {
    fn eq(&self, other: &Self) -> (r: bool) {
        self.0.eq(&other.0)
    }
}

impl PartialEqSpecImpl for TenantId {
    open spec fn obeys_eq_spec() -> bool {
        true
    }

    open spec fn eq_spec(&self, other: &Self) -> bool {
        self@ == other@
    }
}

impl AsRef<str> for TenantId {
    fn as_ref(&self) -> (text: &str)
        ensures
            text@ == self@,
    {
        self.as_str()
    }
}

impl std::str::FromStr for TenantId {
    type Err = TenantIdError;

    fn from_str(s: &str) -> (result: Result<Self, TenantIdError>)
        ensures
            is_tenant_id_of(result, s@),
    {
        TenantId::new(s)
    }
}

/// The contract of `try_from` describes the result over texts, not as a value.
impl TryFromSpecImpl<String> for TenantId {
    open spec fn obeys_try_from_spec() -> bool {
        false
    }

    open spec fn try_from_spec(value: String) -> Result<Self, TenantIdError> {
        arbitrary()
    }
}

impl TryFrom<String> for TenantId {
    type Error = TenantIdError;

    fn try_from(value: String) -> (result: Result<Self, TenantIdError>)
        ensures
            is_tenant_id_of(result, value@),
    {
        TenantId::new(value.as_str())
    }
}

/// The contract of `try_from` describes the result over texts, not as a value.
impl TryFromSpecImpl<&str> for TenantId {
    open spec fn obeys_try_from_spec() -> bool {
        false
    }

    open spec fn try_from_spec(value: &str) -> Result<Self, TenantIdError> {
        arbitrary()
    }
}

impl TryFrom<&str> for TenantId {
    type Error = TenantIdError;

    fn try_from(value: &str) -> (result: Result<Self, TenantIdError>)
        ensures
            is_tenant_id_of(result, value@),
    {
        TenantId::new(value)
    }
}

/// The contract of `from` describes the result over texts, not as a value.
impl FromSpecImpl<TenantId> for String {
    open spec fn obeys_from_spec() -> bool {
        false
    }

    open spec fn from_spec(value: TenantId) -> String {
        arbitrary()
    }
}

impl From<TenantId> for String {
    fn from(value: TenantId) -> (text: String)
        ensures
            text@ == value@,
    {
        value.0
    }
}

/// The key prefix of the namespace that a tenant, an account and a runtime own together.
pub open spec fn key_prefix_text(
    tenant_id: Seq<char>,
    account_id: Seq<char>,
    runtime_instance_id: Seq<char>,
) -> Seq<char> {
    "nautilus:v1:tenant:"@ + tenant_id + ":account:"@ + encoded_component(account_id)
        + ":runtime:"@ + runtime_instance_id
}

/// The identities behind a [`TenantNamespace`].
pub ghost struct TenantNamespaceView {
    pub tenant_id: Seq<char>,
    pub account_id: Seq<char>,
    pub runtime_instance_id: Seq<char>,
}

impl TenantNamespaceView {
    /// The identities are those of a tenant, an account and a runtime.
    pub open spec fn well_formed(self) -> bool {
        &&& tenant_id_error(self.tenant_id) is None
        &&& is_account_text(self.account_id)
        &&& is_uuid4_text(self.runtime_instance_id)
    }

    /// The key prefix of the namespace.
    pub open spec fn key_prefix(self) -> Seq<char> {
        key_prefix_text(self.tenant_id, self.account_id, self.runtime_instance_id)
    }
}

/// The durable namespace owned by one tenant runtime and broker account.
#[derive(Clone, Debug, Eq, Hash, PartialEq)]
pub struct TenantNamespace {
    /// The platform tenant.
    pub tenant_id: TenantId,
    /// The broker account owned by the tenant.
    pub account_id: AccountId,
    /// The runtime instance.
    pub runtime_instance_id: UUID4,
}

impl View for TenantNamespace {
    type V = TenantNamespaceView;

    open spec fn view(&self) -> TenantNamespaceView {
        TenantNamespaceView {
            tenant_id: self.tenant_id@,
            account_id: self.account_id@,
            runtime_instance_id: self.runtime_instance_id@,
        }
    }
}

impl TenantNamespace {
    /// Creates a tenant namespace.
    #[must_use]
    pub fn new(tenant_id: TenantId, account_id: AccountId, runtime_instance_id: UUID4) -> (namespace:
        Self)
        ensures
            namespace.tenant_id == tenant_id,
            namespace.account_id == account_id,
            namespace.runtime_instance_id == runtime_instance_id,
    {
        Self { tenant_id, account_id, runtime_instance_id }
    }

    /// Returns a stable, collision-resistant key prefix for durable storage.
    #[must_use]
    pub fn key_prefix(&self) -> (prefix: String)
        ensures
            prefix@ == self@.key_prefix(),
            self@.well_formed(),
    {
        let account = encode_namespace_component(self.account_id.as_str());
        let runtime = self.runtime_instance_id.to_string();
        let mut prefix = "nautilus:v1:tenant:".to_owned();
        prefix.append(self.tenant_id.as_str());
        prefix.append(":account:");
        prefix.append(account.as_str());
        prefix.append(":runtime:");
        prefix.append(runtime.as_str());
        prefix
    }
}

/// What a [`TenantEnvelope`] carries.
pub ghost struct TenantEnvelopeView<T> {
    pub tenant_id: Seq<char>,
    pub runtime_instance_id: Seq<char>,
    pub correlation_id: Seq<char>,
    pub payload: T,
}

impl<T> TenantEnvelopeView<T> {
    /// The verdict on routing the envelope to a tenant and a runtime. The tenant is compared
    /// first.
    pub open spec fn scope_error(self, tenant_id: Seq<char>, runtime_instance_id: Seq<char>) -> Option<
        TenantScopeError,
    > {
        if self.tenant_id != tenant_id {
            Some(TenantScopeError::TenantMismatch)
        } else if self.runtime_instance_id != runtime_instance_id {
            Some(TenantScopeError::RuntimeMismatch)
        } else {
            None
        }
    }
}

/// An authenticated tenant envelope for application/runtime messages.
#[derive(Clone, Debug, Eq, PartialEq)]
pub struct TenantEnvelope<T> {
    /// The authenticated tenant scope.
    pub tenant_id: TenantId,
    /// The runtime instance receiving the message.
    pub runtime_instance_id: UUID4,
    /// The request correlation identifier.
    pub correlation_id: UUID4,
    /// The tenant-scoped payload.
    pub payload: T,
}

impl<T> View for TenantEnvelope<T> {
    type V = TenantEnvelopeView<T>;

    open spec fn view(&self) -> TenantEnvelopeView<T> {
        TenantEnvelopeView {
            tenant_id: self.tenant_id@,
            runtime_instance_id: self.runtime_instance_id@,
            correlation_id: self.correlation_id@,
            payload: self.payload,
        }
    }
}

impl<T> TenantEnvelope<T> {
    /// Creates an envelope with a new correlation identifier.
    #[must_use]
    pub fn new(tenant_id: TenantId, runtime_instance_id: UUID4, payload: T) -> (envelope: Self)
        ensures
            envelope.tenant_id == tenant_id,
            envelope.runtime_instance_id == runtime_instance_id,
            is_uuid4_text(envelope.correlation_id@),
            call_ensures(UUID4::new, (), envelope.correlation_id),
            envelope.payload == payload,
    {
        Self { tenant_id, runtime_instance_id, correlation_id: UUID4::new(), payload }
    }

    /// Verifies that this envelope belongs to the expected tenant and runtime.
    pub fn validate_scope(&self, tenant_id: &TenantId, runtime_instance_id: UUID4) -> (result: Result<
        (),
        TenantScopeError,
    >)
        ensures
            match result {
                Ok(()) => self@.scope_error(tenant_id@, runtime_instance_id@) is None,
                Err(error) => self@.scope_error(tenant_id@, runtime_instance_id@) == Some(error),
            },
    {
        if &self.tenant_id != tenant_id {
            return Err(TenantScopeError::TenantMismatch);
        }
        if self.runtime_instance_id != runtime_instance_id {
            return Err(TenantScopeError::RuntimeMismatch);
        }
        Ok(())
    }

    /// Converts the payload while preserving its authenticated scope.
    #[must_use]
    pub fn map<U>(self, f: impl FnOnce(T) -> U) -> (envelope: TenantEnvelope<U>)
        requires
            call_requires(f, (self.payload,)),
        ensures
            envelope.tenant_id == self.tenant_id,
            envelope.runtime_instance_id == self.runtime_instance_id,
            envelope.correlation_id == self.correlation_id,
            call_ensures(f, (self.payload,), envelope.payload),
    {
        TenantEnvelope {
            tenant_id: self.tenant_id,
            runtime_instance_id: self.runtime_instance_id,
            correlation_id: self.correlation_id,
            payload: f(self.payload),
        }
    }
}

/// Errors returned when an envelope is routed to the wrong runtime.
#[derive(Clone, Debug, Eq, PartialEq, Structural)]
pub enum TenantScopeError {
    /// The envelope was authenticated for another tenant.
    TenantMismatch,
    /// The envelope was created for another runtime instance.
    RuntimeMismatch,
}

impl TenantScopeError {
    /// The message of the error.
    pub open spec fn message(self) -> Seq<char> {
        match self {
            TenantScopeError::TenantMismatch =>
                "tenant envelope does not belong to the target tenant"@,
            TenantScopeError::RuntimeMismatch =>
                "tenant envelope does not belong to the target runtime instance"@,
        }
    }

    /// Describes the error.
    pub fn to_string(&self) -> (text: String)
        ensures
            text@ == self.message(),
    {
        match self {
            TenantScopeError::TenantMismatch =>
                "tenant envelope does not belong to the target tenant".to_owned(),
            TenantScopeError::RuntimeMismatch =>
                "tenant envelope does not belong to the target runtime instance".to_owned(),
        }
    }
}

} // verus!
