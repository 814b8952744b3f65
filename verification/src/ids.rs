use vstd::arithmetic::div_mod::{lemma_div_denominator, lemma_fundamental_div_mod};
use vstd::prelude::*;

verus! {

/// The sixteen lower-case hexadecimal digits, by value.
pub open spec fn hex_digits() -> Seq<char> {
    seq!['0', '1', '2', '3', '4', '5', '6', '7', '8', '9', 'a', 'b', 'c', 'd', 'e', 'f']
}

/// Number of hyphens that stand before position `p` of a hyphenated
/// identifier.
pub open spec fn hyphens_before(p: int) -> int {
    if p > 23 {
        4
    } else if p > 18 {
        3
    } else if p > 13 {
        2
    } else if p > 8 {
        1
    } else {
        0
    }
}

/// Sixteen to the power `e`.
pub open spec fn sixteen_to(e: nat) -> int
    decreases e,
{
    if e == 0 {
        1
    } else {
        16 * sixteen_to((e - 1) as nat)
    }
}

/// Hexadecimal digit `k` of `id`, counted from the most significant one.
pub open spec fn nibble(id: u128, k: int) -> int {
    (id as int / sixteen_to((31 - k) as nat)) % 16
}

/// The canonical text of a 128-bit identifier: its 32 hexadecimal digits,
/// most significant first and in lower case, in groups of 8, 4, 4, 4 and 12
/// with a hyphen between groups.
pub open spec fn uuid_text(id: u128) -> Seq<char> {
    Seq::new(
        36,
        |p: int|
            if p == 8 || p == 13 || p == 18 || p == 23 {
                '-'
            } else {
                hex_digits()[nibble(id, p - hyphens_before(p))]
            },
    )
}

/// Position in the canonical text of hexadecimal digit `k`.
pub open spec fn position_of_digit(k: int) -> int {
    if k >= 20 {
        k + 4
    } else if k >= 16 {
        k + 3
    } else if k >= 12 {
        k + 2
    } else if k >= 8 {
        k + 1
    } else {
        k
    }
}

proof fn lemma_sixteen_to_is_positive(e: nat)
    ensures
        sixteen_to(e) > 0,
    decreases e,
{
    if e > 0 {
        lemma_sixteen_to_is_positive((e - 1) as nat);
    }
}

proof fn lemma_sixteen_to_32()
    ensures
        sixteen_to(32) == u128::MAX + 1,
{
    reveal_with_fuel(sixteen_to, 34);
}

/// Identifiers whose hexadecimal digits agree have the same leading `j`
/// digits as numbers.
proof fn lemma_leading_digits_agree(a: u128, b: u128, j: nat)
    requires
        forall|k: int| 0 <= k < 32 ==> nibble(a, k) == nibble(b, k),
        j <= 32,
    ensures
        a as int / sixteen_to((32 - j) as nat) == b as int / sixteen_to((32 - j) as nat),
    decreases j,
{
    if j == 0 {
        lemma_sixteen_to_32();
        let all = sixteen_to(32);
        assert(a as int / all == 0) by (nonlinear_arith)
            requires
                0 <= a as int,
                (a as int) < all,
        ;
        assert(b as int / all == 0) by (nonlinear_arith)
            requires
                0 <= b as int,
                (b as int) < all,
        ;
    } else {
        lemma_leading_digits_agree(a, b, (j - 1) as nat);
        let m = sixteen_to((32 - j) as nat);
        let wider = sixteen_to((32 - j + 1) as nat);
        lemma_sixteen_to_is_positive((32 - j) as nat);
        assert(wider == 16 * m);
        assert(m * 16 == wider);
        lemma_div_denominator(a as int, m, 16);
        lemma_div_denominator(b as int, m, 16);
        lemma_fundamental_div_mod(a as int / m, 16);
        lemma_fundamental_div_mod(b as int / m, 16);
        assert(nibble(a, j - 1) == nibble(b, j - 1));
        assert((31 - (j - 1)) as nat == (32 - j) as nat);
    }
}

/// Different identifiers have different canonical texts.
pub proof fn lemma_identifier_texts_differ(a: u128, b: u128)
    requires
        a != b,
    ensures
        uuid_text(a) != uuid_text(b),
{
    if uuid_text(a) == uuid_text(b) {
        assert forall|k: int| 0 <= k < 32 implies nibble(a, k) == nibble(b, k) by {
            let p = position_of_digit(k);
            assert(uuid_text(a)[p] == uuid_text(b)[p]);
            assert(p - hyphens_before(p) == k);
            let x = nibble(a, k);
            let y = nibble(b, k);
            lemma_sixteen_to_is_positive((31 - k) as nat);
            assert(0 <= x < 16 && 0 <= y < 16);
            assert(hex_digits()[x] == hex_digits()[y]);
            assert(x == y);
        }
        lemma_leading_digits_agree(a, b, 32);
        assert(sixteen_to(0) == 1);
    }
}

/// The identifier that `uuid::Uuid::parse_str` reads from a text, and `None`
/// where it refuses the text.
pub uninterp spec fn uuid_parsed(text: Seq<char>) -> Option<u128>;

/// A reference that is not an identifier.
#[derive(Clone, Copy, Debug, PartialEq, Eq, Structural)]
pub enum ValidationError {
    /// The text of a document reference could not be parsed.
    InvalidDocumentId,
}

/// `uuid::Uuid::parse_str`, with the identifier taken as its 128-bit value
/// (`Uuid::as_u128`) and the error dropped: the result is the named outcome
/// of parsing `text`.
#[verifier::external_body]
fn parse_uuid(text: &str) -> (id: Option<u128>)
    ensures
        id == uuid_parsed(text@),
{
    match uuid::Uuid::parse_str(text) {
        Ok(u) => Some(u.as_u128()),
        Err(_) => None,
    }
}

/// `Display` of `uuid::Uuid` on the identifier with value `id`
/// (`Uuid::from_u128`): the hyphenated lower-case form, which `parse_str`
/// reads back as the same identifier.
#[verifier::external_body]
fn format_uuid(id: u128) -> (text: String)
    ensures
        text@ == uuid_text(id),
        uuid_parsed(text@) == Some(id),
{
    uuid::Uuid::from_u128(id).to_string()
}

/// Whether `id` is marked as drawn at random: of its hexadecimal digits the
/// thirteenth, which holds the version, is 4, and the seventeenth, which
/// holds the variant, is 8, 9, a or b. The other 122 bits are free.
pub open spec fn is_random_id(id: u128) -> bool {
    nibble(id, 12) == 4 && 8 <= nibble(id, 16) < 12
}

/// `uuid::Uuid::new_v4`, as its 128-bit value (`Uuid::as_u128`): a random
/// identifier. Whatever is drawn, the version is set to 4 and the variant to
/// the two bits 1 and 0; nothing is claimed about the other bits. The call
/// does not return where the operating system hands out no random bytes; no
/// input can rule that out.
#[verifier::external_body]
fn random_uuid() -> (id: u128)
    ensures
        is_random_id(id),
{
    uuid::Uuid::new_v4().as_u128()
}

/// What parsing decided: the identifier, or the refusal.
pub open spec fn parse_outcome(parsed: Option<u128>) -> Result<u128, ValidationError> {
    match parsed {
        Some(id) => Ok(id),
        None => Err(ValidationError::InvalidDocumentId),
    }
}

/// Turns what parsing found into the identifier or the refusal.
pub fn document_id_from(parsed: Option<u128>) -> (outcome: Result<u128, ValidationError>)
    ensures
        outcome == parse_outcome(parsed),
{
    match parsed {
        Some(id) => Ok(id),
        None => Err(ValidationError::InvalidDocumentId),
    }
}

/// Reads a document reference. Succeeds exactly on the texts that name an
/// identifier.
pub fn parse_document_id(text: &str) -> (parsed: Result<u128, ValidationError>)
    ensures
        parsed == parse_outcome(uuid_parsed(text@)),
{
    document_id_from(parse_uuid(text))
}

/// The canonical text of an identifier.
pub fn id_text(id: u128) -> (text: String)
    ensures
        text@ == uuid_text(id),
        text@.len() == 36,
        uuid_parsed(text@) == Some(id),
{
    format_uuid(id)
}

/// A fresh random identifier: one of version 4, whose other bits are drawn
/// at random.
pub fn fresh_id() -> (id: u128)
    ensures
        is_random_id(id),
{
    random_uuid()
}

} // verus!
