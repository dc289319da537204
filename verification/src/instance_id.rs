//! Instance identifiers: UUIDs, held as the number that their digits write.

use vstd::arithmetic::div_mod::lemma_div_denominator;
use vstd::arithmetic::power::{lemma_pow_positive, pow};
use vstd::prelude::*;
use vstd::utf8::is_ascii_chars;

verus! {

/// The identifier of a network instance.
pub type InstanceId = u128;

/// The lower-case hexadecimal digits.
pub open spec fn hex_digits() -> Seq<char> {
    seq!['0', '1', '2', '3', '4', '5', '6', '7', '8', '9', 'a', 'b', 'c', 'd', 'e', 'f']
}

/// The digit of `id` that stands for its multiple of 16 to the power `place`.
pub open spec fn digit(id: InstanceId, place: nat) -> int {
    (id as int / pow(16, place)) % 16
}

/// The places of the hyphens in the hyphenated form.
pub open spec fn is_hyphen_place(i: int) -> bool {
    i == 8 || i == 13 || i == 18 || i == 23
}

/// How many hyphens stand before place `i` of the hyphenated form.
pub open spec fn hyphens_before(i: int) -> int {
    if i > 23 {
        4
    } else if i > 18 {
        3
    } else if i > 13 {
        2
    } else if i > 8 {
        1
    } else {
        0
    }
}

/// The hyphenated form of an identifier: 32 lower-case hexadecimal digits, the
/// most significant first, in groups of 8, 4, 4, 4 and 12.
pub open spec fn hyphenated(id: InstanceId) -> Seq<char> {
    Seq::new(
        36,
        |i: int|
            if is_hyphen_place(i) {
                '-'
            } else {
                hex_digits()[digit(id, (31 - (i - hyphens_before(i))) as nat)]
            },
    )
}

/// What `Uuid::parse_str` makes of a text: the number that the UUID is, or what
/// its error displays.
pub uninterp spec fn parsed_uuid(text: Seq<char>) -> Result<InstanceId, Seq<char>>;

/// `Uuid::parse_str`, which reads a UUID in any of its written forms, the
/// hyphenated form of each identifier as that identifier.
#[verifier::external_body]
pub(crate) fn parse_uuid(text: &str) -> (parsed: Result<InstanceId, String>)
    ensures
        match parsed {
            Ok(id) => (parsed_uuid(text@) matches Ok(read) && read == id),
            Err(error) => (parsed_uuid(text@) matches Err(shown) && shown == error@),
        },
        forall|id: InstanceId| text@ == #[trigger] hyphenated(id) ==> parsed is Ok && parsed->Ok_0 == id,
{
    uuid::Uuid::parse_str(text).map(|id| id.as_u128()).map_err(|error| error.to_string())
}

/// `Uuid`'s `Display`, which writes the hyphenated form.
#[verifier::external_body]
pub(crate) fn uuid_text(id: InstanceId) -> (text: String)
    ensures
        text@ == hyphenated(id),
{
    uuid::Uuid::from_u128(id).to_string()
}

proof fn lemma_hex_digit(value: int)
    requires
        0 <= value < 16,
    ensures
        '0' <= hex_digits()[value] <= '9' || 'a' <= hex_digits()[value] <= 'f',
        forall|other: int|
            0 <= other < 16 && #[trigger] hex_digits()[other] == hex_digits()[value] ==> other == value,
{
}

/// The hyphenated form is 36 characters long, all of them digits, letters `a`
/// to `f` and hyphens.
pub proof fn lemma_hyphenated_characters(id: InstanceId)
    ensures
        hyphenated(id).len() == 36,
        is_ascii_chars(hyphenated(id)),
        forall|i: int|
            0 <= i < 36 ==> ('0' <= #[trigger] hyphenated(id)[i] <= '9' || 'a' <= hyphenated(id)[i]
                <= 'f' || hyphenated(id)[i] == '-'),
{
    assert forall|i: int| 0 <= i < 36 implies ('0' <= #[trigger] hyphenated(id)[i] <= '9' || 'a'
        <= hyphenated(id)[i] <= 'f' || hyphenated(id)[i] == '-') by {
        if !is_hyphen_place(i) {
            lemma_hex_digit(digit(id, (31 - (i - hyphens_before(i))) as nat));
        }
    }
}

proof fn lemma_equal_digits(x: int, y: int, places: nat)
    requires
        0 <= x < pow(16, places),
        0 <= y < pow(16, places),
        forall|place: nat|
            place < places ==> #[trigger] (x / pow(16, place)) % 16 == (y / pow(16, place)) % 16,
    ensures
        x == y,
    decreases places,
{
    reveal(pow);
    if places > 0 {
        assert(pow(16, 0) == 1);
        assert((x / pow(16, 0)) % 16 == (y / pow(16, 0)) % 16);
        let fewer = (places - 1) as nat;
        assert(pow(16, places) == 16 * pow(16, fewer));
        assert forall|place: nat| place < fewer implies #[trigger] ((x / 16) / pow(16, place)) % 16
            == ((y / 16) / pow(16, place)) % 16 by {
            lemma_pow_positive(16, place);
            lemma_div_denominator(x, 16, pow(16, place));
            lemma_div_denominator(y, 16, pow(16, place));
            assert(pow(16, place + 1) == 16 * pow(16, place));
            assert((x / pow(16, place + 1)) % 16 == (y / pow(16, place + 1)) % 16);
        }
        lemma_equal_digits(x / 16, y / 16, fewer);
    }
}

/// No two identifiers share a hyphenated form.
pub proof fn lemma_hyphenated_distinct(a: InstanceId, b: InstanceId)
    requires
        hyphenated(a) == hyphenated(b),
    ensures
        a == b,
{
    assert forall|place: nat| place < 32 implies #[trigger] (a as int / pow(16, place)) % 16 == (
    b as int / pow(16, place)) % 16 by {
        let k = 31 - place;
        let i = if k < 8 {
            k
        } else if k < 12 {
            k + 1
        } else if k < 16 {
            k + 2
        } else if k < 20 {
            k + 3
        } else {
            k + 4
        };
        assert(!is_hyphen_place(i));
        assert(31 - (i - hyphens_before(i)) == place);
        assert(hyphenated(a)[i] == hex_digits()[digit(a, place)]);
        assert(hyphenated(b)[i] == hex_digits()[digit(b, place)]);
        lemma_hex_digit(digit(a, place));
    }
    assert(pow(16, 32) == 0x1_0000_0000_0000_0000_0000_0000_0000_0000int) by {
        reveal_with_fuel(pow, 33);
    }
    lemma_equal_digits(a as int, b as int, 32);
}

} // verus!
