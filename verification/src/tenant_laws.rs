//! Laws of tenant identifiers, namespace keys and envelopes.

use vstd::prelude::*;
use vstd::std_specs::cmp::PartialEqSpec;
use vstd::utf8::{encode_utf8, is_ascii_chars};

use crate::identifiers::UUID4;
use crate::tenant::{
    all_namespace_safe, encode_namespace_component, encoded_component, escaped_byte, escaped_bytes,
    is_namespace_safe, is_tenant_id_of, tenant_id_error, TenantEnvelope, TenantEnvelopeView, TenantId,
    TenantIdError, TenantNamespace, TenantNamespaceView, TenantScopeError, MAX_TENANT_ID_LENGTH,
};

verus! {

proof fn lemma_escaped_byte_injective(a: u8, b: u8)
    requires
        escaped_byte(a)[0] == escaped_byte(b)[0],
        !is_namespace_safe(a as char) && !is_namespace_safe(b as char) ==> escaped_byte(a)
            == escaped_byte(b),
    ensures
        a == b,
{
    if !is_namespace_safe(a as char) && !is_namespace_safe(b as char) {
        assert(escaped_byte(a)[1] == escaped_byte(b)[1]);
        assert(escaped_byte(a)[2] == escaped_byte(b)[2]);
        assert(a / 16 == b / 16 && a % 16 == b % 16);
    } else {
        assert(is_namespace_safe(a as char) || escaped_byte(a)[0] == '%');
        assert(is_namespace_safe(b as char) || escaped_byte(b)[0] == '%');
    }
}

proof fn lemma_escaped_bytes_injective(a: Seq<u8>, b: Seq<u8>)
    requires
        escaped_bytes(a) == escaped_bytes(b),
    ensures
        a == b,
    decreases a.len(),
{
    if a.len() == 0 || b.len() == 0 {
        assert(a.len() > 0 ==> escaped_bytes(a).len() > 0);
        assert(b.len() > 0 ==> escaped_bytes(b).len() > 0);
        assert(a =~= b);
    } else {
        let head_a = escaped_byte(a[0]);
        let head_b = escaped_byte(b[0]);
        let tail_a = escaped_bytes(a.drop_first());
        let tail_b = escaped_bytes(b.drop_first());
        assert(escaped_bytes(a)[0] == head_a[0]);
        assert(escaped_bytes(b)[0] == head_b[0]);
        if !is_namespace_safe(a[0] as char) && !is_namespace_safe(b[0] as char) {
            assert(head_a =~= escaped_bytes(a).take(3));
            assert(head_b =~= escaped_bytes(b).take(3));
        }
        lemma_escaped_byte_injective(a[0], b[0]);
        assert(tail_a =~= escaped_bytes(a).skip(head_a.len() as int));
        assert(tail_b =~= escaped_bytes(b).skip(head_b.len() as int));
        lemma_escaped_bytes_injective(a.drop_first(), b.drop_first());
        assert(a =~= seq![a[0]] + a.drop_first());
        assert(b =~= seq![b[0]] + b.drop_first());
    }
}

/// Encoding a namespace component is unambiguous: two components with the same encoding are the
/// same text.
pub proof fn encoding_is_unambiguous(a: Seq<char>, b: Seq<char>)
    requires
        encoded_component(a) == encoded_component(b),
    ensures
        a == b,
{
    lemma_escaped_bytes_injective(encode_utf8(a), encode_utf8(b));
    vstd::utf8::encode_utf8_decode_utf8(a);
    vstd::utf8::encode_utf8_decode_utf8(b);
}

proof fn lemma_escaped_bytes_alphabet(bytes: Seq<u8>, i: int)
    requires
        0 <= i < escaped_bytes(bytes).len(),
    ensures
        is_namespace_safe(escaped_bytes(bytes)[i]) || escaped_bytes(bytes)[i] == '%',
    decreases bytes.len(),
{
    let head = escaped_byte(bytes[0]);
    if i < head.len() {
        assert(escaped_bytes(bytes)[i] == head[i]);
    } else {
        lemma_escaped_bytes_alphabet(bytes.drop_first(), i - head.len());
    }
}

/// An encoded component holds only namespace-safe characters and the escape character `%`, so no
/// separator of a namespace key occurs in it.
pub proof fn encoding_holds_no_separator(text: Seq<char>)
    ensures
        forall|i: int|
            0 <= i < encoded_component(text).len() ==> is_namespace_safe(
                #[trigger] encoded_component(text)[i],
            ) || encoded_component(text)[i] == '%',
{
    assert forall|i: int| 0 <= i < encoded_component(text).len() implies is_namespace_safe(
        #[trigger] encoded_component(text)[i],
    ) || encoded_component(text)[i] == '%' by {
        lemma_escaped_bytes_alphabet(encode_utf8(text), i);
    }
}

proof fn lemma_safe_bytes_stand(bytes: Seq<u8>)
    requires
        forall|i: int| 0 <= i < bytes.len() ==> is_namespace_safe(#[trigger] bytes[i] as char),
    ensures
        escaped_bytes(bytes) == bytes.map_values(|b: u8| b as char),
    decreases bytes.len(),
{
    if bytes.len() > 0 {
        lemma_safe_bytes_stand(bytes.drop_first());
    }
    assert(escaped_bytes(bytes) =~= bytes.map_values(|b: u8| b as char));
}

/// A namespace-safe text is its own encoding.
pub proof fn safe_text_encodes_to_itself(text: Seq<char>)
    requires
        all_namespace_safe(text),
    ensures
        encoded_component(text) == text,
{
    assert(is_ascii_chars(text)) by {
        assert forall|i: int| 0 <= i < text.len() implies (#[trigger] text[i] as u32) < 128 by {
            assert(is_namespace_safe(text[i]));
        }
    }
    vstd::utf8::is_ascii_chars_encode_utf8(text);
    let bytes = encode_utf8(text);
    assert forall|i: int| 0 <= i < bytes.len() implies is_namespace_safe(
        #[trigger] bytes[i] as char,
    ) by {
        assert(is_namespace_safe(text[i]));
    }
    lemma_safe_bytes_stand(bytes);
    assert(encoded_component(text) =~= text);
}

/// A tenant identifier holds between one and [`MAX_TENANT_ID_LENGTH`] characters, each of which
/// stands for itself in a namespace key.
pub proof fn tenant_id_is_namespace_safe(text: Seq<char>)
    requires
        tenant_id_error(text) is None,
    ensures
        0 < text.len() <= MAX_TENANT_ID_LENGTH,
        encoded_component(text) == text,
{
    safe_text_encodes_to_itself(text);
    assert(is_ascii_chars(text)) by {
        assert forall|i: int| 0 <= i < text.len() implies (#[trigger] text[i] as u32) < 128 by {
            assert(is_namespace_safe(text[i]));
        }
    }
    vstd::utf8::is_ascii_chars_encode_utf8(text);
}

/// Two texts without colons, each followed by a colon and more, agree part by part when they
/// agree as wholes.
proof fn lemma_split_at_colon(a: Seq<char>, rest_a: Seq<char>, b: Seq<char>, rest_b: Seq<char>)
    requires
        a + rest_a == b + rest_b,
        rest_a.len() > 0 && rest_a[0] == ':',
        rest_b.len() > 0 && rest_b[0] == ':',
        forall|i: int| 0 <= i < a.len() ==> #[trigger] a[i] != ':',
        forall|i: int| 0 <= i < b.len() ==> #[trigger] b[i] != ':',
    ensures
        a == b,
        rest_a == rest_b,
{
    if a.len() < b.len() {
        assert((a + rest_a)[a.len() as int] == ':');
        assert((b + rest_b)[a.len() as int] == b[a.len() as int]);
    } else if b.len() < a.len() {
        assert((b + rest_b)[b.len() as int] == ':');
        assert((a + rest_a)[b.len() as int] == a[b.len() as int]);
    }
    assert(a =~= (a + rest_a).take(a.len() as int));
    assert(b =~= (b + rest_b).take(b.len() as int));
    assert(rest_a =~= (a + rest_a).skip(a.len() as int));
    assert(rest_b =~= (b + rest_b).skip(b.len() as int));
}

/// Key prefixes do not collide: namespaces with the same key prefix belong to the same tenant,
/// the same account and the same runtime.
pub proof fn key_prefixes_do_not_collide(a: TenantNamespaceView, b: TenantNamespaceView)
    requires
        a.well_formed(),
        b.well_formed(),
        a.key_prefix() == b.key_prefix(),
    ensures
        a == b,
{
    reveal_strlit("nautilus:v1:tenant:");
    reveal_strlit(":account:");
    reveal_strlit(":runtime:");
    let head = "nautilus:v1:tenant:"@;
    let account_a = encoded_component(a.account_id);
    let account_b = encoded_component(b.account_id);
    let runtime_a = ":runtime:"@ + a.runtime_instance_id;
    let runtime_b = ":runtime:"@ + b.runtime_instance_id;
    let owner_a = ":account:"@ + (account_a + runtime_a);
    let owner_b = ":account:"@ + (account_b + runtime_b);

    assert(a.key_prefix() =~= head + (a.tenant_id + owner_a));
    assert(b.key_prefix() =~= head + (b.tenant_id + owner_b));
    assert(a.tenant_id + owner_a =~= a.key_prefix().skip(head.len() as int));
    assert(b.tenant_id + owner_b =~= b.key_prefix().skip(head.len() as int));
    assert forall|i: int| 0 <= i < a.tenant_id.len() implies #[trigger] a.tenant_id[i] != ':' by {
        assert(is_namespace_safe(a.tenant_id[i]));
    }
    assert forall|i: int| 0 <= i < b.tenant_id.len() implies #[trigger] b.tenant_id[i] != ':' by {
        assert(is_namespace_safe(b.tenant_id[i]));
    }
    assert(owner_a[0] == ':' && owner_b[0] == ':');
    lemma_split_at_colon(a.tenant_id, owner_a, b.tenant_id, owner_b);

    assert(account_a + runtime_a =~= owner_a.skip(":account:"@.len() as int));
    assert(account_b + runtime_b =~= owner_b.skip(":account:"@.len() as int));
    encoding_holds_no_separator(a.account_id);
    encoding_holds_no_separator(b.account_id);
    assert(runtime_a[0] == ':' && runtime_b[0] == ':');
    lemma_split_at_colon(account_a, runtime_a, account_b, runtime_b);

    encoding_is_unambiguous(a.account_id, b.account_id);
    assert(a.runtime_instance_id =~= runtime_a.skip(":runtime:"@.len() as int));
    assert(b.runtime_instance_id =~= runtime_b.skip(":runtime:"@.len() as int));
}

/// An envelope passes the scope check of exactly one tenant and runtime: those it carries.
pub proof fn envelope_passes_only_its_own_scope<T>(
    envelope: TenantEnvelopeView<T>,
    tenant_id: Seq<char>,
    runtime_instance_id: Seq<char>,
)
    ensures
        envelope.scope_error(tenant_id, runtime_instance_id) is None <==> (envelope.tenant_id
            == tenant_id && envelope.runtime_instance_id == runtime_instance_id),
{
}

/// The scope verdict on an envelope depends on nothing but its scope, so converting the payload
/// keeps it.
pub proof fn converted_envelope_keeps_its_scope<T, U>(
    envelope: TenantEnvelopeView<T>,
    converted: TenantEnvelopeView<U>,
    tenant_id: Seq<char>,
    runtime_instance_id: Seq<char>,
)
    requires
        converted.tenant_id == envelope.tenant_id,
        converted.runtime_instance_id == envelope.runtime_instance_id,
    ensures
        converted.scope_error(tenant_id, runtime_instance_id) == envelope.scope_error(
            tenant_id,
            runtime_instance_id,
        ),
{
}

/// What every conversion from a text to a tenant identifier gives: exactly the texts of 1 to 128
/// ASCII letters, ASCII digits, hyphens, underscores and dots, in any order, are accepted and kept as
/// they are. An empty text is refused as empty, a text of more than 128 bytes as too long, and any
/// other text for its characters.
pub proof fn conversions_accept_the_namespace_safe_texts(
    result: Result<TenantId, TenantIdError>,
    text: Seq<char>,
)
    requires
        is_tenant_id_of(result, text),
    ensures
        result is Ok <==> {
            &&& 1 <= text.len() <= 128
            &&& forall|i: int|
                0 <= i < text.len() ==> {
                    ||| 'a' <= #[trigger] text[i] <= 'z'
                    ||| 'A' <= text[i] <= 'Z'
                    ||| '0' <= text[i] <= '9'
                    ||| text[i] == '-'
                    ||| text[i] == '_'
                    ||| text[i] == '.'
                }
        },
        result matches Ok(id) ==> id@ == text,
        (result is Err && result->Err_0 is Empty) <==> text.len() == 0,
        (result is Err && result->Err_0 is TooLong) <==> encode_utf8(text).len() > 128,
        result matches Err(TenantIdError::TooLong { max }) ==> max == 128,
{
    assert(text.len() == 0 ==> encode_utf8(text).len() == 0);
    if all_namespace_safe(text) {
        lemma_safe_text_is_ascii(text);
        vstd::utf8::is_ascii_chars_encode_utf8(text);
        assert forall|i: int| 0 <= i < text.len() implies ({
            ||| 'a' <= #[trigger] text[i] <= 'z'
            ||| 'A' <= text[i] <= 'Z'
            ||| '0' <= text[i] <= '9'
            ||| text[i] == '-'
            ||| text[i] == '_'
            ||| text[i] == '.'
        }) by {
            assert(is_namespace_safe(text[i]));
        }
    }
}

/// Validation accepts exactly the texts of 1 to 128 ASCII letters, ASCII digits, hyphens,
/// underscores and dots, in any order, and keeps them as they are.
pub proof fn tenant_ids_are_the_namespace_safe_texts(
    value: &str,
    result: Result<TenantId, TenantIdError>,
)
    requires
        call_ensures(TenantId::new, (value,), result),
    ensures
        result is Ok <==> {
            &&& 1 <= value@.len() <= 128
            &&& forall|i: int|
                0 <= i < value@.len() ==> {
                    ||| 'a' <= #[trigger] value@[i] <= 'z'
                    ||| 'A' <= value@[i] <= 'Z'
                    ||| '0' <= value@[i] <= '9'
                    ||| value@[i] == '-'
                    ||| value@[i] == '_'
                    ||| value@[i] == '.'
                }
        },
        result matches Ok(id) ==> id@ == value@,
{
    conversions_accept_the_namespace_safe_texts(result, value@);
}

proof fn lemma_safe_text_is_ascii(text: Seq<char>)
    requires
        all_namespace_safe(text),
    ensures
        is_ascii_chars(text),
{
    assert forall|i: int| 0 <= i < text.len() implies (#[trigger] text[i] as u32) < 128 by {
        assert(is_namespace_safe(text[i]));
    }
}

/// Encoding works byte by byte over the UTF-8 form of a text: the encoding of two byte strings in a
/// row is that of the first followed by that of the second.
pub proof fn encoding_goes_byte_by_byte(a: Seq<u8>, b: Seq<u8>)
    ensures
        escaped_bytes(a + b) == escaped_bytes(a) + escaped_bytes(b),
    decreases a.len(),
{
    if a.len() == 0 {
        assert(a + b =~= b);
        assert(escaped_bytes(a) + escaped_bytes(b) =~= escaped_bytes(b));
    } else {
        encoding_goes_byte_by_byte(a.drop_first(), b);
        assert((a + b).drop_first() =~= a.drop_first() + b);
        assert(escaped_bytes(a + b) =~= escaped_bytes(a) + escaped_bytes(b));
    }
}

/// A letter, a digit, a hyphen, an underscore and a dot are encoded as themselves. Any other byte is
/// encoded as `%` and two upper-case hexadecimal digits, the value of which is the byte.
pub proof fn encoded_bytes_can_be_read_back(byte: u8)
    ensures
        ({
            let encoded = escaped_bytes(seq![byte]);
            let stands = {
                ||| 0x61 <= byte <= 0x7a
                ||| 0x41 <= byte <= 0x5a
                ||| 0x30 <= byte <= 0x39
                ||| byte == 0x2d
                ||| byte == 0x5f
                ||| byte == 0x2e
            };
            if stands {
                encoded == seq![byte as char]
            } else {
                let high = encoded[1] as int;
                let low = encoded[2] as int;
                &&& encoded.len() == 3
                &&& encoded[0] == '%'
                &&& 0x30 <= high <= 0x39 || 0x41 <= high <= 0x46
                &&& 0x30 <= low <= 0x39 || 0x41 <= low <= 0x46
                &&& byte == 16 * (if high <= 0x39 {
                    high - 0x30
                } else {
                    high - 0x41 + 10
                }) + (if low <= 0x39 {
                    low - 0x30
                } else {
                    low - 0x41 + 10
                })
            }
        }),
{
    let rest = seq![byte].drop_first();
    assert(escaped_bytes(rest) =~= Seq::empty());
    assert(escaped_bytes(seq![byte]) =~= escaped_byte(byte));
}

/// A component is encoded over the bytes of its UTF-8 form.
pub proof fn components_are_encoded_over_utf8(value: &str, encoded: String)
    requires
        call_ensures(encode_namespace_component, (value,), encoded),
    ensures
        encoded@ == escaped_bytes(encode_utf8(value@)),
{
}

/// A key prefix names its owners: it is `nautilus:v1:tenant:` with the tenant identifier,
/// `:account:` with the encoded account identifier, and `:runtime:` with the runtime instance
/// identifier, each of them as it is and nothing else.
pub proof fn key_prefixes_name_their_owners(
    namespace: &TenantNamespace,
    prefix: String,
    account: &str,
    encoded: String,
)
    requires
        call_ensures(TenantNamespace::key_prefix, (namespace,), prefix),
        account@ == namespace.account_id@,
        call_ensures(encode_namespace_component, (account,), encoded),
    ensures
        ("nautilus:v1:tenant:"@ + namespace.tenant_id@ + ":account:"@).is_prefix_of(prefix@),
        (":runtime:"@ + namespace.runtime_instance_id@).is_suffix_of(prefix@),
        prefix@ == "nautilus:v1:tenant:"@ + namespace.tenant_id@ + ":account:"@ + encoded@
            + ":runtime:"@ + namespace.runtime_instance_id@,
{
    let head = "nautilus:v1:tenant:"@ + namespace.tenant_id@ + ":account:"@;
    let tail = ":runtime:"@ + namespace.runtime_instance_id@;
    assert(prefix@ =~= head + encoded@ + tail);
    assert(prefix@.subrange(0, head.len() as int) =~= head);
    assert(prefix@.subrange(prefix@.len() - tail.len(), prefix@.len() as int) =~= tail);
}

/// An envelope passes exactly when it was made for the given tenant and runtime. Another tenant is
/// reported whatever the runtime is, another runtime only for the right tenant.
pub proof fn misrouted_envelopes_are_refused<T>(
    envelope: &TenantEnvelope<T>,
    tenant_id: &TenantId,
    runtime_instance_id: UUID4,
    result: Result<(), TenantScopeError>,
)
    requires
        call_ensures(
            TenantEnvelope::<T>::validate_scope,
            (envelope, tenant_id, runtime_instance_id),
            result,
        ),
    ensures
        result is Ok <==> envelope.tenant_id@ == tenant_id@ && envelope.runtime_instance_id@
            == runtime_instance_id@,
        result == Err::<(), _>(TenantScopeError::TenantMismatch) <==> envelope.tenant_id@
            != tenant_id@,
        result == Err::<(), _>(TenantScopeError::RuntimeMismatch) <==> envelope.tenant_id@
            == tenant_id@ && envelope.runtime_instance_id@ != runtime_instance_id@,
{
}

/// An envelope and a namespace stand for what their fields hold.
pub proof fn envelopes_and_namespaces_show_their_fields<T>(
    envelope: TenantEnvelope<T>,
    namespace: TenantNamespace,
)
    ensures
        envelope@.tenant_id == envelope.tenant_id@,
        envelope@.runtime_instance_id == envelope.runtime_instance_id@,
        envelope@.correlation_id == envelope.correlation_id@,
        envelope@.payload == envelope.payload,
        namespace@.tenant_id == namespace.tenant_id@,
        namespace@.account_id == namespace.account_id@,
        namespace@.runtime_instance_id == namespace.runtime_instance_id@,
{
}

/// Tenant identifiers are equal exactly when their texts are.
pub proof fn tenant_ids_are_compared_by_text(a: TenantId, b: TenantId)
    ensures
        TenantId::obeys_eq_spec(),
        a.eq_spec(&b) <==> a@ == b@,
{
}

} // verus!
