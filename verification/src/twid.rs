use crate::error::InvalidFormat;
use crate::order::{compare_bytes, lex_order};
use core::cmp::Ordering;
use vstd::prelude::*;
use vstd::std_specs::cmp::{PartialEqSpecImpl, PartialOrdSpecImpl};
use vstd::string::*;

verus! {

/// The two-digit code of a region letter, or `None` for any other
/// character. The codes follow the alphabet but for `I` and `O`, which
/// were given theirs last, and `W`, which comes after `Y`.
pub open spec fn region_number(region: char) -> Option<nat> {
    match region {
        'A' => Some(10),
        'B' => Some(11),
        'C' => Some(12),
        'D' => Some(13),
        'E' => Some(14),
        'F' => Some(15),
        'G' => Some(16),
        'H' => Some(17),
        'I' => Some(34),
        'J' => Some(18),
        'K' => Some(19),
        'L' => Some(20),
        'M' => Some(21),
        'N' => Some(22),
        'O' => Some(35),
        'P' => Some(23),
        'Q' => Some(24),
        'R' => Some(25),
        'S' => Some(26),
        'T' => Some(27),
        'U' => Some(28),
        'V' => Some(29),
        'W' => Some(32),
        'X' => Some(30),
        'Y' => Some(31),
        'Z' => Some(33),
        _ => None,
    }
}

/// The region letters in the order in which their codes were allocated.
pub open spec fn region_letters() -> Seq<char> {
    seq![
        'A', 'B', 'C', 'D', 'E', 'F', 'G', 'H', 'J', 'K', 'L', 'M', 'N',
        'P', 'Q', 'R', 'S', 'T', 'U', 'V', 'X', 'Y', 'W', 'Z', 'I', 'O',
    ]
}

pub open spec fn is_ascii_upper(c: char) -> bool {
    'A' <= c <= 'Z'
}

pub open spec fn is_ascii_lower(c: char) -> bool {
    'a' <= c <= 'z'
}

pub open spec fn is_ascii_letter(c: char) -> bool {
    is_ascii_upper(c) || is_ascii_lower(c)
}

pub open spec fn is_ascii_digit(c: char) -> bool {
    '0' <= c <= '9'
}

/// ASCII case rule: `a`..`z` go to `A`..`Z`, every other character stays.
pub open spec fn ascii_upper(c: char) -> char {
    if is_ascii_lower(c) {
        ((c as u32) - 32) as char
    } else {
        c
    }
}

/// The text with the ASCII case rule applied to each character.
pub open spec fn to_upper(text: Seq<char>) -> Seq<char> {
    Seq::new(text.len(), |i: int| ascii_upper(text[i]))
}

/// The number that a decimal digit character stands for.
pub open spec fn digit_value(c: char) -> nat {
    (c as u32 - '0' as u32) as nat
}

/// The second character tells the holder's gender: `1` and `2` in the
/// traditional numbering, `8` and `9` for foreign nationals.
pub open spec fn is_gender_digit(c: char) -> bool {
    c == '1' || c == '2' || c == '8' || c == '9'
}

/// One letter, then nine digits of which the first is a gender digit.
pub open spec fn has_id_shape(text: Seq<char>) -> bool {
    &&& text.len() == 10
    &&& is_ascii_letter(text[0])
    &&& forall|i: int| 1 <= i < 10 ==> is_ascii_digit(#[trigger] text[i])
    &&& is_gender_digit(text[1])
}

/// The weight of each of the eleven checksum digits.
pub open spec fn weights() -> Seq<nat> {
    seq![1, 9, 8, 7, 6, 5, 4, 3, 2, 1, 1]
}

/// The eleven digits that the checksum runs over: the two decimal digits
/// of the region code, then the nine digits of the text.
pub open spec fn checksum_digits(text: Seq<char>) -> Seq<nat>
    recommends
        has_id_shape(text),
{
    let code = region_number(ascii_upper(text[0])).unwrap();
    seq![code / 10, code % 10] + Seq::new(9, |i: int| digit_value(text[i + 1]))
}

/// The sum of eleven digits, each times its weight.
pub open spec fn weighted_sum(digits: Seq<nat>) -> nat {
    digits[0] * 1 + digits[1] * 9 + digits[2] * 8 + digits[3] * 7 + digits[4] * 6 + digits[5] * 5
        + digits[6] * 4 + digits[7] * 3 + digits[8] * 2 + digits[9] * 1 + digits[10] * 1
}

/// The sum of the first `upto` digits, each times its weight.
pub open spec fn weighted_prefix(digits: Seq<nat>, upto: nat) -> nat
    decreases upto,
{
    if upto == 0 {
        0
    } else {
        weighted_prefix(digits, (upto - 1) as nat) + digits[upto - 1] * weights()[upto - 1]
    }
}

/// Summed over all eleven places, the prefix sums reach the weighted sum.
pub proof fn lemma_weighted_prefix_full(digits: Seq<nat>)
    ensures
        weighted_prefix(digits, 11) == weighted_sum(digits),
{
    reveal_with_fuel(weighted_prefix, 12);
    let w = weights();
    assert(w[0] == 1 && w[1] == 9 && w[2] == 8 && w[3] == 7 && w[4] == 6 && w[5] == 5);
    assert(w[6] == 4 && w[7] == 3 && w[8] == 2 && w[9] == 1 && w[10] == 1);
}

/// The texts that are Taiwan national identifiers, in either case of the
/// region letter.
pub open spec fn is_twid_text(text: Seq<char>) -> bool {
    &&& has_id_shape(text)
    &&& region_number(ascii_upper(text[0])) is Some
    &&& weighted_sum(checksum_digits(text)) % 10 == 0
}

/// The code table is the allocation order: the letter at place `i` of
/// the order has the code `10 + i`, so the 26 letters share the codes 10
/// to 35 among them, and no other character has a code.
pub proof fn law_region_codes_follow_allocation()
    ensures
        region_letters().len() == 26,
        forall|i: int|
            0 <= i < 26 ==> region_number(#[trigger] region_letters()[i]) == Some((10 + i) as nat),
        forall|c: char| region_number(c) is Some <==> is_ascii_upper(c),
{
    let letters = region_letters();
    assert(letters[0] == 'A');
    assert(letters[1] == 'B');
    assert(letters[2] == 'C');
    assert(letters[3] == 'D');
    assert(letters[4] == 'E');
    assert(letters[5] == 'F');
    assert(letters[6] == 'G');
    assert(letters[7] == 'H');
    assert(letters[8] == 'J');
    assert(letters[9] == 'K');
    assert(letters[10] == 'L');
    assert(letters[11] == 'M');
    assert(letters[12] == 'N');
    assert(letters[13] == 'P');
    assert(letters[14] == 'Q');
    assert(letters[15] == 'R');
    assert(letters[16] == 'S');
    assert(letters[17] == 'T');
    assert(letters[18] == 'U');
    assert(letters[19] == 'V');
    assert(letters[20] == 'X');
    assert(letters[21] == 'Y');
    assert(letters[22] == 'W');
    assert(letters[23] == 'Z');
    assert(letters[24] == 'I');
    assert(letters[25] == 'O');
}

/// Looks a region letter up in the code table. Every upper-case letter
/// has a code, and nothing else has one.
pub fn get_region_number(region: char) -> (code: Option<u16>)
    ensures
        code is Some <==> is_ascii_upper(region),
        match code {
            Some(n) => region_number(region) == Some(n as nat) && 10 <= n <= 35,
            None => region_number(region) is None,
        },
{
    match region {
        'A' => Some(10),
        'B' => Some(11),
        'C' => Some(12),
        'D' => Some(13),
        'E' => Some(14),
        'F' => Some(15),
        'G' => Some(16),
        'H' => Some(17),
        'I' => Some(34),
        'J' => Some(18),
        'K' => Some(19),
        'L' => Some(20),
        'M' => Some(21),
        'N' => Some(22),
        'O' => Some(35),
        'P' => Some(23),
        'Q' => Some(24),
        'R' => Some(25),
        'S' => Some(26),
        'T' => Some(27),
        'U' => Some(28),
        'V' => Some(29),
        'W' => Some(32),
        'X' => Some(30),
        'Y' => Some(31),
        'Z' => Some(33),
        _ => None,
    }
}

/// The upper-case form of one character under the ASCII case rule.
pub fn upper_char(c: char) -> (u: char)
    ensures
        u == ascii_upper(c),
{
    if 'a' <= c && c <= 'z' {
        let code: u32 = c as u32;
        let up: u8 = (code - 32) as u8;
        up as char
    } else {
        c
    }
}

/// The value of a decimal digit character.
pub fn digit_of(c: char) -> (d: u16)
    requires
        is_ascii_digit(c),
    ensures
        d == digit_value(c),
        d <= 9,
{
    let code: u32 = c as u32;
    (code - 48) as u16
}

/// An identifier's shape forces every character into ASCII, so its
/// encoding has one byte for each character.
pub proof fn lemma_shape_is_ascii(text: Seq<char>)
    requires
        has_id_shape(text),
    ensures
        vstd::utf8::is_ascii_chars(text),
        vstd::utf8::encode_utf8(text).len() == 10,
{
    assert forall|i: int| 0 <= i < text.len() implies '\0' <= #[trigger] text[i] <= '\u{7f}' by {
        if i >= 1 {
            assert(is_ascii_digit(text[i]));
        }
    }
    vstd::utf8::is_ascii_chars_encode_utf8(text);
}

/// Whether the text has an identifier's shape.
fn has_shape(input: &str) -> (ok: bool)
    ensures
        ok == has_id_shape(input@),
{
    if input.as_bytes().len() != 10 || !input.is_ascii() {
        proof {
            if has_id_shape(input@) {
                lemma_shape_is_ascii(input@);
            }
        }
        return false;
    }
    proof {
        vstd::utf8::is_ascii_chars_encode_utf8(input@);
    }
    let first = input.get_char(0);
    if !(('A' <= first && first <= 'Z') || ('a' <= first && first <= 'z')) {
        return false;
    }
    let mut i: usize = 1;
    while i < 10
        invariant
            1 <= i <= 10,
            input@.len() == 10,
            forall|j: int| 1 <= j < i ==> is_ascii_digit(#[trigger] input@[j]),
        decreases 10 - i,
    {
        let c = input.get_char(i);
        if !('0' <= c && c <= '9') {
            return false;
        }
        i += 1;
    }
    let gender_char = input.get_char(1);
    gender_char == '1' || gender_char == '2' || gender_char == '8' || gender_char == '9'
}

/// The eleven checksum digits of a text that has an identifier's shape.
fn digits_of(input: &str, region_code: u16) -> (digits: Vec<u16>)
    requires
        has_id_shape(input@),
        region_number(ascii_upper(input@[0])) == Some(region_code as nat),
        10 <= region_code <= 35,
    ensures
        digits@.len() == 11,
        forall|k: int| 0 <= k < 11 ==> #[trigger] digits@[k] as nat == checksum_digits(input@)[k],
        forall|k: int| 0 <= k < 11 ==> #[trigger] digits@[k] <= 9,
{
    let mut digits: Vec<u16> = Vec::with_capacity(11);
    digits.push(region_code / 10);
    digits.push(region_code % 10);
    let mut i: usize = 1;
    while i < 10
        invariant
            1 <= i <= 10,
            has_id_shape(input@),
            region_number(ascii_upper(input@[0])) == Some(region_code as nat),
            digits@.len() == i + 1,
            forall|k: int| 0 <= k < i + 1 ==> #[trigger] digits@[k] as nat == checksum_digits(input@)[k],
            forall|k: int| 0 <= k < i + 1 ==> #[trigger] digits@[k] <= 9,
        decreases 10 - i,
    {
        let c = input.get_char(i);
        assert(is_ascii_digit(input@[i as int]));
        digits.push(digit_of(c));
        i += 1;
    }
    digits
}

/// The weighted sum of eleven digits.
fn weigh(digits: &Vec<u16>) -> (sum: u16)
    requires
        digits@.len() == 11,
        forall|k: int| 0 <= k < 11 ==> #[trigger] digits@[k] <= 9,
    ensures
        sum == weighted_sum(digits@.map_values(|d: u16| d as nat)),
{
    let coefficients: [u16; 11] = [1, 9, 8, 7, 6, 5, 4, 3, 2, 1, 1];
    let ghost model = digits@.map_values(|d: u16| d as nat);
    let mut sum: u16 = 0;
    let mut k: usize = 0;
    while k < 11
        invariant
            0 <= k <= 11,
            digits@.len() == 11,
            forall|j: int| 0 <= j < 11 ==> #[trigger] digits@[j] <= 9,
            forall|j: int| 0 <= j < 11 ==> #[trigger] coefficients@[j] as nat == weights()[j],
            model == digits@.map_values(|d: u16| d as nat),
            sum == weighted_prefix(model, k as nat),
            sum <= 81 * k,
        decreases 11 - k,
    {
        let d = digits[k];
        let w = coefficients[k];
        assert(w <= 9);
        assert(d * w <= 81) by (nonlinear_arith)
            requires
                0 <= d <= 9,
                0 <= w <= 9,
        ;
        assert(model[k as int] == d as nat);
        sum = sum + d * w;
        k += 1;
    }
    proof {
        lemma_weighted_prefix_full(model);
    }
    sum
}

/// Decides whether the text is a Taiwan national identifier: a region
/// letter in either case, a gender digit, eight more digits, and a
/// weighted digit sum that ten divides.
pub fn is_valid_taiwan_id(input: &str) -> (ok: bool)
    ensures
        ok == is_twid_text(input@),
{
    if !has_shape(input) {
        return false;
    }
    let region_code = match get_region_number(upper_char(input.get_char(0))) {
        Some(num) => num,
        None => {
            return false;
        },
    };
    let digits = digits_of(input, region_code);
    let sum = weigh(&digits);
    proof {
        assert(digits@.map_values(|d: u16| d as nat) =~= checksum_digits(input@));
    }
    sum % 10 == 0
}

/// The gender category that an identifier's second character stands for.
#[derive(Debug, Clone, Copy, PartialEq, Eq, Structural)]
pub enum Gender {
    Male,
    Female,
    Unknown,
}

/// The category of a gender digit: `1` and `8` are male, `2` and `9`
/// female; any other character stands for nothing.
pub open spec fn gender_of_digit(c: char) -> Gender {
    if c == '1' || c == '8' {
        Gender::Male
    } else if c == '2' || c == '9' {
        Gender::Female
    } else {
        Gender::Unknown
    }
}

/// The category that a text's second character stands for; a text too
/// short to have one stands for nothing.
pub open spec fn gender_of(text: Seq<char>) -> Gender {
    if text.len() < 2 {
        Gender::Unknown
    } else {
        gender_of_digit(text[1])
    }
}

impl Gender {
    /// The one-letter code of the category.
    pub open spec fn letter(self) -> Seq<char> {
        match self {
            Gender::Male => seq!['M'],
            Gender::Female => seq!['F'],
            Gender::Unknown => seq!['U'],
        }
    }

    /// The one-letter code of the category: `M`, `F` or `U`.
    pub fn code(self) -> (code: &'static str)
        ensures
            code@ == self.letter(),
    {
        proof {
            reveal_strlit("M");
            reveal_strlit("F");
            reveal_strlit("U");
        }
        let code = match self {
            Gender::Male => "M",
            Gender::Female => "F",
            Gender::Unknown => "U",
        };
        assert(code@ =~= self.letter());
        code
    }
}

/// Reads the gender category off any text, validated or not.
pub fn gender_from_text(text: &str) -> (gender: Gender)
    ensures
        gender == gender_of(text@),
{
    if text.unicode_len() < 2 {
        return Gender::Unknown;
    }
    let second_char = text.get_char(1);
    match second_char {
        '1' => Gender::Male,
        '2' => Gender::Female,
        '8' => Gender::Male,
        '9' => Gender::Female,
        _ => Gender::Unknown,
    }
}

/// Reads the gender off any text, validated or not, as its one-letter
/// code.
pub fn get_gender_from_twid(twid: &str) -> (code: String)
    ensures
        code@ == gender_of(twid@).letter(),
{
    String::from_str(gender_from_text(twid).code())
}

/// The stored form of an identifier: valid, with an upper-case region
/// letter.
pub open spec fn is_canonical_twid(text: Seq<char>) -> bool {
    is_twid_text(text) && is_ascii_upper(text[0])
}

/// What parsing makes of a text: the upper-case form of an identifier,
/// nothing of any other text.
pub open spec fn parsed_twid(text: Seq<char>) -> Option<Seq<char>> {
    if is_twid_text(text) {
        Some(to_upper(text))
    } else {
        None
    }
}

/// The upper-case form of an identifier is an identifier in stored form,
/// and it is its own upper-case form.
pub proof fn lemma_upper_is_canonical(text: Seq<char>)
    requires
        is_twid_text(text),
    ensures
        is_canonical_twid(to_upper(text)),
        to_upper(to_upper(text)) == to_upper(text),
{
    let upper = to_upper(text);
    assert(ascii_upper(ascii_upper(text[0])) == ascii_upper(text[0]));
    assert forall|i: int| 1 <= i < 10 implies #[trigger] upper[i] == text[i] by {
        assert(is_ascii_digit(text[i]));
    }
    assert(has_id_shape(upper));
    assert(checksum_digits(upper) =~= checksum_digits(text));
    assert(to_upper(upper) =~= upper);
}

/// A text in stored form is left as it is by the case rule.
pub proof fn lemma_canonical_is_upper(text: Seq<char>)
    requires
        is_canonical_twid(text),
    ensures
        to_upper(text) == text,
{
    assert forall|i: int| 0 <= i < 10 implies ascii_upper(#[trigger] text[i]) == text[i] by {
        if i >= 1 {
            assert(is_ascii_digit(text[i]));
        }
    }
    assert(to_upper(text) =~= text);
}

/// `str::to_ascii_uppercase` of std: a copy of the text in which each of
/// the letters `a` to `z` is replaced by its upper-case letter and every
/// other character is kept.
#[verifier::external_body]
fn ascii_uppercase(text: &str) -> (upper: String)
    ensures
        upper@ == to_upper(text@),
{
    text.to_ascii_uppercase()
}

/// A Taiwan national identifier, held in its stored form.
#[derive(Debug, Eq, Ord)]
pub struct Twid {
    data: String,
}

impl View for Twid {
    type V = Seq<char>;

    closed spec fn view(&self) -> Seq<char> {
        self.data@
    }
}

impl Twid {
    /// Every value holds an identifier in stored form.
    #[verifier::type_invariant]
    pub open spec fn wf(&self) -> bool {
        is_canonical_twid(self@)
    }

    /// The bytes by which values are ordered: the stored text's encoding.
    pub open spec fn sort_key(&self) -> Seq<u8> {
        vstd::utf8::encode_utf8(self@)
    }

    /// How this value stands to another: as their stored texts stand in
    /// lexicographic order.
    pub open spec fn order(&self, other: &Twid) -> Ordering {
        lex_order(self.sort_key(), other.sort_key())
    }

    /// Parses a text: an identifier gives the value that holds its
    /// upper-case form, any other text is rejected.
    pub fn from_str(s: &str) -> (r: Result<Twid, InvalidFormat>)
        ensures
            match r {
                Ok(id) => parsed_twid(s@) == Some(id@) && id.wf(),
                Err(_) => parsed_twid(s@) is None,
            },
    {
        if !is_valid_taiwan_id(s) {
            return Err(InvalidFormat);
        }
        proof {
            lemma_upper_is_canonical(s@);
        }
        Ok(Twid { data: ascii_uppercase(s) })
    }

    /// The stored text.
    pub fn as_str(&self) -> (s: &str)
        ensures
            s@ == self@,
    {
        self.data.as_str()
    }

    /// The stored text, as a string of its own. Parsing it gives the value
    /// again.
    pub fn to_text(&self) -> (text: String)
        ensures
            text@ == self@,
            parsed_twid(text@) == Some(self@),
    {
        proof {
            use_type_invariant(self);
            lemma_canonical_is_upper(self@);
        }
        self.data.clone()
    }

    /// Parses a text, as `from_str` does.
    pub fn from_text(text: &str) -> (r: Result<Twid, InvalidFormat>)
        ensures
            match r {
                Ok(id) => parsed_twid(text@) == Some(id@) && id.wf(),
                Err(_) => parsed_twid(text@) is None,
            },
    {
        Twid::from_str(text)
    }

    /// The region letter: the first character of the stored text.
    pub fn region(&self) -> (letter: char)
        ensures
            letter == self@[0],
            is_ascii_upper(letter),
            region_number(letter) is Some,
    {
        proof {
            use_type_invariant(self);
            lemma_canonical_is_upper(self@);
        }
        self.data.as_str().get_char(0)
    }

    /// The holder's gender category, which a value always has.
    pub fn gender(&self) -> (gender: Gender)
        ensures
            gender == gender_of(self@),
            gender != Gender::Unknown,
    {
        proof {
            use_type_invariant(self);
        }
        gender_from_text(self.data.as_str())
    }

    /// Compares two values by their stored texts.
    pub fn cmp(&self, other: &Twid) -> (o: Ordering)
        ensures
            o == self.order(other),
    {
        compare_bytes(self.data.as_str().as_bytes(), other.data.as_str().as_bytes())
    }
}

impl Clone for Twid {
    fn clone(&self) -> (copy: Twid)
        ensures
            copy@ == self@,
    {
        proof {
            use_type_invariant(self);
        }
        Twid { data: self.data.clone() }
    }
}

impl PartialEq for Twid {
    fn eq(&self, other: &Twid) -> (r: bool) {
        self.data == other.data
    }
}

impl PartialEqSpecImpl for Twid {
    open spec fn obeys_eq_spec() -> bool {
        true
    }

    open spec fn eq_spec(&self, other: &Twid) -> bool {
        self@ == other@
    }
}

impl PartialOrd for Twid {
    fn partial_cmp(&self, other: &Twid) -> (o: Option<Ordering>) {
        Some(self.cmp(other))
    }
}

impl PartialOrdSpecImpl for Twid {
    open spec fn obeys_partial_cmp_spec() -> bool {
        true
    }

    open spec fn partial_cmp_spec(&self, other: &Twid) -> Option<Ordering> {
        Some(self.order(other))
    }
}

/// Decides whether the text is a Taiwan national identifier.
pub fn is_valid_twid(input: &str) -> (ok: bool)
    ensures
        ok == is_twid_text(input@),
{
    is_valid_taiwan_id(input)
}

/// The holder's gender as its one-letter code, which for a value is `M`
/// or `F`.
pub fn twid_gender(input: Twid) -> (code: String)
    ensures
        code@ == gender_of(input@).letter(),
        gender_of(input@) != Gender::Unknown,
{
    proof {
        use_type_invariant(&input);
    }
    get_gender_from_twid(input.as_str())
}

/// The region letter as a text of one character.
pub fn twid_region(input: Twid) -> (letter: String)
    ensures
        letter@ == seq![input@[0]],
        is_ascii_upper(input@[0]),
{
    proof {
        use_type_invariant(&input);
        lemma_shape_is_ascii(input@);
    }
    let letter = input.as_str().substring_ascii(0, 1).to_owned();
    assert(letter@ =~= seq![input@[0]]);
    letter
}

/// Parsing the text of a parsed value gives that value again: for every
/// text that parses, the result parses to itself.
pub proof fn law_twid_round_trip(text: Seq<char>)
    requires
        parsed_twid(text) is Some,
    ensures
        parsed_twid(parsed_twid(text).unwrap()) == parsed_twid(text),
{
    lemma_upper_is_canonical(text);
}

/// Every value's text parses to the value itself.
pub proof fn law_twid_text_codec(id: Twid)
    requires
        id.wf(),
    ensures
        parsed_twid(id@) == Some(id@),
{
    lemma_canonical_is_upper(id@);
}

/// A value's text is ASCII, so the bytes that order it are its ten
/// characters: values are ordered as their texts are, character by
/// character.
pub proof fn law_twid_sort_key_is_text(id: Twid)
    requires
        id.wf(),
    ensures
        id.sort_key().len() == 10,
        forall|i: int| 0 <= i < 10 ==> #[trigger] id.sort_key()[i] == id@[i] as u8,
        forall|i: int| 0 <= i < 10 ==> is_ascii_upper(#[trigger] id@[i]) || is_ascii_digit(id@[i]),
{
    lemma_shape_is_ascii(id@);
    vstd::utf8::is_ascii_chars_encode_utf8(id@);
}

/// The order of values is total: two values are equal exactly where the
/// order says `Equal`, one is less exactly where the other is greater,
/// and less-than is transitive.
pub proof fn law_twid_total_order(a: Twid, b: Twid, c: Twid)
    ensures
        a.order(&b) == Ordering::Equal <==> a@ == b@,
        a.order(&b) == Ordering::Less <==> b.order(&a) == Ordering::Greater,
        a.order(&b) == Ordering::Less && b.order(&c) == Ordering::Less ==> a.order(&c)
            == Ordering::Less,
{
    crate::order::lemma_lex_order_laws(a.sort_key(), b.sort_key());
    vstd::utf8::encode_utf8_decode_utf8(a@);
    vstd::utf8::encode_utf8_decode_utf8(b@);
    if a.order(&b) == Ordering::Less && b.order(&c) == Ordering::Less {
        crate::order::lemma_lex_transitive(a.sort_key(), b.sort_key(), c.sort_key());
    }
}

} // verus!
