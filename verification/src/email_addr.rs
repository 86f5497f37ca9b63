use crate::error::InvalidFormat;
use crate::order::{compare_bytes, lex_order};
use core::cmp::Ordering;
use validator::ValidateEmail;
use vstd::prelude::*;
use vstd::std_specs::cmp::{PartialEqSpecImpl, PartialOrdSpecImpl};

verus! {

/// Whether the grammar of e-mail addresses accepts the text. The grammar
/// is that of the `validator` crate, which follows the HTML5 definition
/// of a valid address and so rejects quoted local parts and comments.
pub uninterp spec fn email_syntax(text: Seq<char>) -> bool;

/// The characters of which a local part is made.
pub open spec fn is_local_char(c: char) -> bool {
    ||| 'a' <= c <= 'z'
    ||| 'A' <= c <= 'Z'
    ||| '0' <= c <= '9'
    ||| c == '.' || c == '!' || c == '#' || c == '$' || c == '%' || c == '&' || c == '\''
    ||| c == '*' || c == '+' || c == '/' || c == '=' || c == '?' || c == '^' || c == '_'
    ||| c == '`' || c == '{' || c == '|' || c == '}' || c == '~' || c == '-'
}

/// The text has its one `@` at place `at`: before it a local part of 1 to
/// 64 characters of the local alphabet, after it at most 255 characters.
pub open spec fn splits_at(text: Seq<char>, at: int) -> bool {
    &&& 1 <= at <= 64
    &&& at < text.len()
    &&& text[at] == '@'
    &&& forall|j: int| 0 <= j < at ==> is_local_char(#[trigger] text[j])
    &&& forall|j: int| at < j < text.len() ==> #[trigger] text[j] != '@'
    &&& text.len() - at - 1 <= 255
}

/// What every accepted address has, whatever its domain: a well-formed
/// local part, one `@`, and a domain part of bounded length.
pub open spec fn has_address_shape(text: Seq<char>) -> bool {
    exists|at: int| splits_at(text, at)
}

/// What parsing makes of a text: an accepted address is kept as it is,
/// case included; nothing is made of any other text.
pub open spec fn parsed_email(text: Seq<char>) -> Option<Seq<char>> {
    if email_syntax(text) {
        Some(text)
    } else {
        None
    }
}

/// `ValidateEmail::validate_email` of the `validator` crate, on a string
/// slice. Its verdict is the grammar's. Before it looks at the domain it
/// rejects a text without `@`, and one whose part before the last `@` is
/// empty, longer than 64 characters or holds a character outside the
/// local alphabet, and one with more than 255 characters after that `@`.
#[verifier::external_body]
fn grammar_accepts(text: &str) -> (accepted: bool)
    ensures
        accepted == email_syntax(text@),
        accepted ==> has_address_shape(text@),
{
    text.validate_email()
}

/// The stored text of an address once the grammar's verdict on it is
/// known: the text itself where it was accepted.
pub fn canonical_email(text: &str, accepted: bool) -> (r: Result<String, InvalidFormat>)
    ensures
        match r {
            Ok(stored) => accepted && stored@ == text@,
            Err(_) => !accepted,
        },
{
    if !accepted {
        return Err(InvalidFormat);
    }
    Ok(text.to_owned())
}

/// An e-mail address that the grammar accepts, held as it was written.
#[derive(Debug, Eq, Ord)]
pub struct EmailAddr {
    data: String,
}

impl View for EmailAddr {
    type V = Seq<char>;

    closed spec fn view(&self) -> Seq<char> {
        self.data@
    }
}

impl EmailAddr {
    /// Every value holds a text that the grammar accepts.
    #[verifier::type_invariant]
    pub open spec fn wf(&self) -> bool {
        email_syntax(self@) && has_address_shape(self@)
    }

    /// The bytes by which values are ordered: the stored text's encoding.
    pub open spec fn sort_key(&self) -> Seq<u8> {
        vstd::utf8::encode_utf8(self@)
    }

    /// How this value stands to another: as their stored texts stand in
    /// lexicographic order. The whole text is compared from its first
    /// character on, so the local part weighs before the domain does.
    pub open spec fn order(&self, other: &EmailAddr) -> Ordering {
        lex_order(self.sort_key(), other.sort_key())
    }

    /// Parses a text: one that the grammar accepts gives the value that
    /// holds it unchanged, any other is rejected.
    pub fn from_str(s: &str) -> (r: Result<EmailAddr, InvalidFormat>)
        ensures
            match r {
                Ok(email) => parsed_email(s@) == Some(email@) && email.wf(),
                Err(_) => parsed_email(s@) is None,
            },
    {
        let accepted = grammar_accepts(s);
        match canonical_email(s, accepted) {
            Ok(data) => Ok(EmailAddr { data }),
            Err(e) => Err(e),
        }
    }

    /// Parses a text, as `from_str` does.
    pub fn from_text(text: &str) -> (r: Result<EmailAddr, InvalidFormat>)
        ensures
            match r {
                Ok(email) => parsed_email(text@) == Some(email@) && email.wf(),
                Err(_) => parsed_email(text@) is None,
            },
    {
        EmailAddr::from_str(text)
    }

    /// The stored text.
    pub fn as_str(&self) -> (s: &str)
        ensures
            s@ == self@,
    {
        self.data.as_str()
    }

    /// The stored text, as a string of its own. Parsing it gives the value
    /// again.
    pub fn to_text(&self) -> (text: String)
        ensures
            text@ == self@,
            parsed_email(text@) == Some(self@),
    {
        proof {
            use_type_invariant(self);
        }
        self.data.clone()
    }

    /// Compares two values by their stored texts.
    pub fn cmp(&self, other: &EmailAddr) -> (o: Ordering)
        ensures
            o == self.order(other),
    {
        compare_bytes(self.data.as_str().as_bytes(), other.data.as_str().as_bytes())
    }
}

impl Clone for EmailAddr {
    fn clone(&self) -> (copy: EmailAddr)
        ensures
            copy@ == self@,
    {
        proof {
            use_type_invariant(self);
        }
        EmailAddr { data: self.data.clone() }
    }
}

impl PartialEq for EmailAddr {
    fn eq(&self, other: &EmailAddr) -> (r: bool) {
        self.data == other.data
    }
}

impl PartialEqSpecImpl for EmailAddr {
    open spec fn obeys_eq_spec() -> bool {
        true
    }

    open spec fn eq_spec(&self, other: &EmailAddr) -> bool {
        self@ == other@
    }
}

impl PartialOrd for EmailAddr {
    fn partial_cmp(&self, other: &EmailAddr) -> (o: Option<Ordering>) {
        Some(self.cmp(other))
    }
}

impl PartialOrdSpecImpl for EmailAddr {
    open spec fn obeys_partial_cmp_spec() -> bool {
        true
    }

    open spec fn partial_cmp_spec(&self, other: &EmailAddr) -> Option<Ordering> {
        Some(self.order(other))
    }
}

/// Parsing the text of a parsed value gives that value again: for every
/// text that parses, the result parses to itself.
pub proof fn law_email_round_trip(text: Seq<char>)
    requires
        parsed_email(text) is Some,
    ensures
        parsed_email(parsed_email(text).unwrap()) == parsed_email(text),
{
}

/// Every value's text parses to the value itself.
pub proof fn law_email_text_codec(email: EmailAddr)
    requires
        email.wf(),
    ensures
        parsed_email(email@) == Some(email@),
{
}

/// The order of values is total: two values are equal exactly where the
/// order says `Equal`, one is less exactly where the other is greater,
/// and less-than is transitive.
pub proof fn law_email_total_order(a: EmailAddr, b: EmailAddr, c: EmailAddr)
    ensures
        a.order(&b) == Ordering::Equal <==> a@ == b@,
        a.order(&b) == Ordering::Less <==> b.order(&a) == Ordering::Greater,
        a.order(&b) == Ordering::Less && b.order(&c) == Ordering::Less ==> a.order(&c)
            == Ordering::Less,
{
    crate::order::lemma_lex_order_laws(a.sort_key(), b.sort_key());
    vstd::utf8::encode_utf8_decode_utf8(a@);
    vstd::utf8::encode_utf8_decode_utf8(b@);
    if a.order(&b) == Ordering::Less && b.order(&c) == Ordering::Less {
        crate::order::lemma_lex_transitive(a.sort_key(), b.sort_key(), c.sort_key());
    }
}

} // verus!
