//! Laws of runtime and account identifiers.

use vstd::prelude::*;
use vstd::std_specs::cmp::PartialEqSpec;
use vstd::utf8::is_ascii_chars;

use crate::identifiers::{is_account_text, AccountId, UUID4};
use crate::text::decimal;

verus! {

/// Reading an identifier gives its text back, and accepts exactly the 36 characters in which hyphens
/// stand at the positions 8, 13, 18 and 23 and lower-case hexadecimal digits everywhere else, with
/// the version 4 and one of the variants 8, 9, a and b.
pub proof fn canonical_texts_are_read_back(text: &str, id: Option<UUID4>)
    requires
        call_ensures(UUID4::from_text, (text,), id),
    ensures
        id matches Some(id) ==> id@ == text@,
        id is Some <==> {
            &&& text@.len() == 36
            &&& text@[8] == '-' && text@[13] == '-' && text@[18] == '-' && text@[23] == '-'
            &&& forall|i: int|
                0 <= i < 36 && i != 8 && i != 13 && i != 18 && i != 23 ==> {
                    ||| '0' <= #[trigger] text@[i] <= '9'
                    ||| 'a' <= text@[i] <= 'f'
                }
            &&& text@[14] == '4'
            &&& text@[19] == '8' || text@[19] == '9' || text@[19] == 'a' || text@[19] == 'b'
        },
{
}

/// A newly drawn identifier is one that can be read back from its text.
pub proof fn drawn_identifiers_are_canonical(id: UUID4, text: &str, read: Option<UUID4>)
    requires
        call_ensures(UUID4::new, (), id),
        text@ == id@,
        call_ensures(UUID4::from_text, (text,), read),
    ensures
        read matches Some(read) && read@ == id@,
{
}

/// An issuer and an account number joined by a hyphen are an account identifier, whatever ASCII
/// characters they hold, as long as neither is empty and the issuer does not begin with a hyphen.
pub proof fn issuers_and_accounts_are_joined_by_a_hyphen(
    issuer: Seq<char>,
    account: Seq<char>,
    text: &str,
    id: Option<AccountId>,
)
    requires
        issuer.len() > 0,
        issuer[0] != '-',
        account.len() > 0,
        forall|i: int| 0 <= i < issuer.len() ==> '\0' <= #[trigger] issuer[i] <= '\u{7f}',
        forall|i: int| 0 <= i < account.len() ==> '\0' <= #[trigger] account[i] <= '\u{7f}',
        text@ == issuer + seq!['-'] + account,
        call_ensures(AccountId::new_checked, (text,), id),
    ensures
        id matches Some(id) && id@ == text@,
{
    assert(text@[issuer.len() as int] == '-');
    assert(text@[0] == issuer[0]);
    assert forall|i: int| 0 <= i < text@.len() implies '\0' <= #[trigger] text@[i]
        <= '\u{7f}' by {
        if i < issuer.len() {
            assert(text@[i] == issuer[i]);
        } else if i > issuer.len() {
            assert(text@[i] == account[i - issuer.len() - 1]);
        }
    }
    assert(is_ascii_chars(text@));
    assert(is_account_text(text@));
}

/// Nothing else is an account identifier: each is ASCII text, and the parts before and after its
/// first hyphen are not empty.
pub proof fn account_ids_have_an_issuer_and_an_account(
    text: &str,
    id: Option<AccountId>,
) -> (first: int)
    requires
        call_ensures(AccountId::new_checked, (text,), id),
        id is Some,
    ensures
        id->0@ == text@,
        forall|i: int| 0 <= i < text@.len() ==> #[trigger] text@[i] <= '\u{7f}',
        0 < first < text@.len() - 1,
        text@[first] == '-',
        forall|i: int| 0 <= i < first ==> #[trigger] text@[i] != '-',
{
    let some = choose|i: int| 0 < i < text@.len() - 1 && text@[i] == '-';
    let first = lemma_first_hyphen(text@, some);
    first
}

proof fn lemma_first_hyphen(text: Seq<char>, i: int) -> (first: int)
    requires
        0 <= i < text.len(),
        text[i] == '-',
    ensures
        0 <= first <= i,
        text[first] == '-',
        forall|j: int| 0 <= j < first ==> #[trigger] text[j] != '-',
    decreases i,
{
    if forall|j: int| 0 <= j < i ==> #[trigger] text[j] != '-' {
        i
    } else {
        let earlier = choose|j: int| 0 <= j < i && #[trigger] text[j] == '-';
        lemma_first_hyphen(text, earlier)
    }
}

/// Runtime identifiers are equal exactly when their texts are, and so are account identifiers.
pub proof fn identifiers_are_compared_by_text(a: UUID4, b: UUID4, c: AccountId, d: AccountId)
    ensures
        UUID4::obeys_eq_spec(),
        a.eq_spec(&b) <==> a@ == b@,
        AccountId::obeys_eq_spec(),
        c.eq_spec(&d) <==> c@ == d@,
{
}

/// Decimal notation: a number below ten is its digit, and the last digit of any other number is the
/// remainder by ten, after the notation of the quotient.
pub proof fn decimal_notation_is_positional(n: nat)
    ensures
        n < 10 ==> decimal(n).len() == 1,
        decimal(n).len() > 0,
        decimal(n).last() as int == 0x30 + n % 10,
        n >= 10 ==> decimal(n).drop_last() == decimal(n / 10),
{
    if n >= 10 {
        assert(decimal(n).drop_last() =~= decimal(n / 10));
    }
}

} // verus!
