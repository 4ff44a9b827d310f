//! Runtime and account identifiers.

use vstd::prelude::*;
use vstd::std_specs::cmp::PartialEqSpecImpl;
use vstd::utf8::is_ascii_chars;

use crate::text::{chars_of, is_lower_hex};

verus! {

/// The canonical text of a version 4 UUID: five lower-case hexadecimal groups of 8, 4, 4, 4 and
/// 12 digits joined by hyphens, with the version digit `4` and an RFC 4122 variant digit.
pub open spec fn is_uuid4_text(text: Seq<char>) -> bool {
    &&& text.len() == 36
    &&& forall|i: int| #![trigger text[i]]
        0 <= i < 36 ==> if i == 8 || i == 13 || i == 18 || i == 23 {
            text[i] == '-'
        } else {
            is_lower_hex(text[i])
        }
    &&& text[14] == '4'
    &&& (text[19] == '8' || text[19] == '9' || text[19] == 'a' || text[19] == 'b')
}

/// `nautilus_core::UUID4::new` draws a version 4 UUID from the thread's random number generator.
/// Its text is the canonical form; nothing else is claimed of a random value.
#[verifier::external_body]
fn random_uuid4_text() -> (text: String)
    ensures
        is_uuid4_text(text@),
{
    nautilus_core::UUID4::new().to_string()
}

/// The text is one that was drawn at random.
pub closed spec fn is_drawn_text(text: Seq<char>) -> bool {
    exists|drawn: String| #[trigger] call_ensures(random_uuid4_text, (), drawn) && drawn@ == text
}

/// Only what the random number generator gave is drawn at random.
proof fn drawn_texts_come_from_the_generator(text: Seq<char>) -> (drawn: String)
    requires
        is_drawn_text(text),
    ensures
        call_ensures(random_uuid4_text, (), drawn),
        drawn@ == text,
{
    choose|drawn: String| #[trigger] call_ensures(random_uuid4_text, (), drawn) && drawn@ == text
}

/// A version 4 UUID, held as its canonical text.
#[derive(Clone, Copy, Debug, Eq, Hash)]
pub struct UUID4 {
    value: [u8; 36],
}

impl View for UUID4 {
    type V = Seq<char>;

    closed spec fn view(&self) -> Seq<char> {
        chars_of(self.value@)
    }
}

impl UUID4 {
    #[verifier::type_invariant]
    spec fn well_formed(self) -> bool {
        is_uuid4_text(self@)
    }

    /// Draws a new random identifier.
    pub fn new() -> (id: Self)
        ensures
            is_uuid4_text(id@),
            is_drawn_text(id@),
    {
        let text = random_uuid4_text();
        Self::from_canonical(text.as_str())
    }

    fn from_canonical(text: &str) -> (id: Self)
        requires
            is_uuid4_text(text@),
        ensures
            id@ == text@,
    {
        broadcast use vstd::string::is_ascii_spec_bytes;

        proof {
            lemma_uuid4_text_is_ascii(text@);
            assert(text.is_ascii());
        }
        let bytes = text.as_bytes();
        let mut value: [u8; 36] = [0; 36];
        let mut i: usize = 0;
        while i < 36
            invariant
                i <= 36,
                bytes@.len() == 36,
                forall|j: int| 0 <= j < i ==> value@[j] == bytes@[j],
            decreases 36 - i,
        {
            value[i] = bytes[i];
            i += 1;
        }
        assert(chars_of(value@) =~= text@);
        UUID4 { value }
    }

    /// Reads an identifier back from its canonical text.
    pub fn from_text(text: &str) -> (id: Option<Self>)
        ensures
            id is Some <==> is_uuid4_text(text@),
            id is Some ==> id->0@ == text@,
    {
        broadcast use vstd::string::is_ascii_spec_bytes;

        if !text.is_ascii() {
            proof {
                if is_uuid4_text(text@) {
                    lemma_uuid4_text_is_ascii(text@);
                }
            }
            return None;
        }
        let bytes = text.as_bytes();
        if bytes.len() != 36 {
            return None;
        }
        let mut i: usize = 0;
        while i < 36
            invariant
                i <= 36,
                bytes@.len() == 36,
                text@.len() == 36,
                is_ascii_chars(text@),
                bytes@ == Seq::new(36, |k: int| text@[k] as u8),
                forall|j: int| #![trigger text@[j]]
                    0 <= j < i ==> if j == 8 || j == 13 || j == 18 || j == 23 {
                        text@[j] == '-'
                    } else {
                        is_lower_hex(text@[j])
                    },
            decreases 36 - i,
        {
            let c = bytes[i];
            assert(bytes@[i as int] == text@[i as int] as u8);
            let fits = if i == 8 || i == 13 || i == 18 || i == 23 {
                c == 0x2d
            } else {
                (0x30 <= c && c <= 0x39) || (0x61 <= c && c <= 0x66)
            };
            if !fits {
                return None;
            }
            i += 1;
        }
        let version = bytes[14];
        let variant = bytes[19];
        if version == 0x34 && (variant == 0x38 || variant == 0x39 || variant == 0x61 || variant
            == 0x62) {
            Some(Self::from_canonical(text))
        } else {
            None
        }
    }

    /// Returns the canonical text of the identifier.
    pub fn to_string(&self) -> (text: String)
        ensures
            text@ == self@,
            is_uuid4_text(text@),
    {
        proof {
            use_type_invariant(&*self);
        }
        let mut text = String::new();
        let mut i: usize = 0;
        while i < 36
            invariant
                i <= 36,
                text@ == self@.take(i as int),
                self@.len() == 36,
            decreases 36 - i,
        {
            text.push(self.value[i] as char);
            assert(self@.take(i + 1) =~= self@.take(i as int).push(self@[i as int]));
            i += 1;
        }
        assert(self@.take(36) =~= self@);
        text
    }
}

impl PartialEq for UUID4 {
    fn eq(&self, other: &Self) -> (r: bool) {
        let mut i: usize = 0;
        while i < 36
            invariant
                i <= 36,
                forall|j: int| 0 <= j < i ==> self.value@[j] == other.value@[j],
            decreases 36 - i,
        {
            if self.value[i] != other.value[i] {
                assert(self@[i as int] != other@[i as int]);
                return false;
            }
            i += 1;
        }
        assert(self@ =~= other@);
        true
    }
}

impl PartialEqSpecImpl for UUID4 {
    open spec fn obeys_eq_spec() -> bool {
        true
    }

    open spec fn eq_spec(&self, other: &Self) -> bool {
        self@ == other@
    }
}

proof fn lemma_uuid4_text_is_ascii(text: Seq<char>)
    requires
        is_uuid4_text(text),
    ensures
        is_ascii_chars(text),
{
    assert forall|i: int| 0 <= i < text.len() implies (#[trigger] text[i] as u32) < 128 by {}
}

/// An account identifier: ASCII text in which a hyphen joins an issuer and an account number,
/// neither of them empty.
pub open spec fn is_account_text(text: Seq<char>) -> bool {
    &&& is_ascii_chars(text)
    &&& text.len() > 0
    &&& text[0] != '-'
    &&& exists|i: int| 0 < i < text.len() - 1 && text[i] == '-'
}

/// `nautilus_model::identifiers::AccountId::new_checked` accepts a text exactly when it is ASCII,
/// holds a hyphen, and neither the part before the first hyphen nor the part after it is empty.
#[verifier::external_body]
fn account_text_accepted(text: &str) -> (accepted: bool)
    ensures
        accepted == is_account_text(text@),
{
    nautilus_model::identifiers::AccountId::new_checked(text).is_ok()
}

/// A broker account identifier.
#[derive(Debug, Eq, Hash, PartialOrd, Ord)]
pub struct AccountId(String);

impl View for AccountId {
    type V = Seq<char>;

    closed spec fn view(&self) -> Seq<char> {
        self.0@
    }
}

impl AccountId {
    #[verifier::type_invariant]
    spec fn well_formed(self) -> bool {
        is_account_text(self@)
    }

    /// Creates an account identifier from its text, if the text is well formed.
    pub fn new_checked(text: &str) -> (id: Option<Self>)
        ensures
            id is Some <==> is_account_text(text@),
            id is Some ==> id->0@ == text@,
    {
        if account_text_accepted(text) {
            Some(AccountId(text.to_owned()))
        } else {
            None
        }
    }

    /// Returns the identifier as a string slice.
    pub fn as_str(&self) -> (text: &str)
        ensures
            text@ == self@,
            is_account_text(text@),
    {
        proof {
            use_type_invariant(&*self);
        }
        self.0.as_str()
    }
}

impl Clone for AccountId {
    fn clone(&self) -> (id: Self)
        ensures
            id@ == self@,
            id == *self,
    {
        proof {
            use_type_invariant(&*self);
        }
        AccountId(self.0.clone())
    }
}

impl PartialEq for AccountId {
    fn eq(&self, other: &Self) -> (r: bool) {
        self.0.eq(&other.0)
    }
}

impl PartialEqSpecImpl for AccountId {
    open spec fn obeys_eq_spec() -> bool {
        true
    }

    open spec fn eq_spec(&self, other: &Self) -> bool {
        self@ == other@
    }
}

} // verus!
