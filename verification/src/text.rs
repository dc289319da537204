//! Text: what the standard library does to it, as far as the decisions need it.

use crate::paths::same_bytes;
use vstd::prelude::*;
use vstd::utf8::{decode_utf8, encode_utf8, encode_utf8_decode_utf8, valid_utf8};

verus! {

/// Whether a character has Unicode's `White_Space` property.
pub open spec fn is_white_space(c: char) -> bool {
    ||| '\u{9}' <= c <= '\u{d}'
    ||| c == ' '
    ||| c == '\u{85}'
    ||| c == '\u{a0}'
    ||| c == '\u{1680}'
    ||| '\u{2000}' <= c <= '\u{200a}'
    ||| c == '\u{2028}'
    ||| c == '\u{2029}'
    ||| c == '\u{202f}'
    ||| c == '\u{205f}'
    ||| c == '\u{3000}'
}

/// `text` without the white space at its start.
pub open spec fn trimmed_start(text: Seq<char>) -> Seq<char>
    decreases text.len(),
{
    if text.len() > 0 && is_white_space(text[0]) {
        trimmed_start(text.drop_first())
    } else {
        text
    }
}

/// `text` without the white space at its end.
pub open spec fn trimmed_end(text: Seq<char>) -> Seq<char>
    decreases text.len(),
{
    if text.len() > 0 && is_white_space(text.last()) {
        trimmed_end(text.drop_last())
    } else {
        text
    }
}

/// `text` without the white space around it.
pub open spec fn trimmed(text: Seq<char>) -> Seq<char> {
    trimmed_end(trimmed_start(text))
}

/// `str::trim` hands back the slice without leading and trailing white space.
pub assume_specification[ str::trim ](text: &str) -> (slice: &str)
    ensures
        slice@ == trimmed(text@),
;

/// Whether two texts are the same.
pub fn same_text(left: &str, right: &str) -> (same: bool)
    ensures
        same == (left@ == right@),
{
    proof {
        encode_utf8_decode_utf8(left@);
        encode_utf8_decode_utf8(right@);
    }
    same_bytes(left.as_bytes(), right.as_bytes())
}

/// What `std::str::from_utf8` says of bytes that are no UTF-8.
pub uninterp spec fn utf8_error_text(bytes: Seq<u8>) -> Seq<char>;

/// `std::str::from_utf8`: the text that the bytes encode, where they are UTF-8,
/// and otherwise what its error displays.
#[verifier::external_body]
pub(crate) fn utf8_text(bytes: &[u8]) -> (decoded: Result<&str, String>)
    ensures
        match decoded {
            Ok(text) => valid_utf8(bytes@) && encode_utf8(text@) == bytes@,
            Err(error) => !valid_utf8(bytes@) && error@ == utf8_error_text(bytes@),
        },
{
    std::str::from_utf8(bytes).map_err(|error| error.to_string())
}

/// What `String::from_utf8_lossy` makes of any bytes.
pub uninterp spec fn lossy_text_of(bytes: Seq<u8>) -> Seq<char>;

/// `String::from_utf8_lossy`: the text that the bytes encode, where they are
/// UTF-8. What stands for bytes that are not is left to the name.
#[verifier::external_body]
pub(crate) fn lossy_text(bytes: &[u8]) -> (text: String)
    ensures
        text@ == lossy_text_of(bytes@),
        valid_utf8(bytes@) ==> text@ == decode_utf8(bytes@),
{
    String::from_utf8_lossy(bytes).into_owned()
}

proof fn lemma_trimmed_start(text: Seq<char>) -> (cut: int)
    ensures
        0 <= cut <= text.len(),
        trimmed_start(text) == text.skip(cut),
        forall|i: int| 0 <= i < cut ==> is_white_space(#[trigger] text[i]),
        cut < text.len() ==> !is_white_space(text[cut]),
    decreases text.len(),
{
    if text.len() > 0 && is_white_space(text[0]) {
        let rest = text.drop_first();
        let cut = lemma_trimmed_start(rest);
        assert(rest.skip(cut) =~= text.skip(cut + 1));
        assert forall|i: int| 0 <= i < cut + 1 implies is_white_space(#[trigger] text[i]) by {
            if i > 0 {
                assert(rest[i - 1] == text[i]);
            }
        }
        cut + 1
    } else {
        assert(text.skip(0) =~= text);
        0
    }
}

proof fn lemma_trimmed_end(text: Seq<char>) -> (end: int)
    ensures
        0 <= end <= text.len(),
        trimmed_end(text) == text.take(end),
        forall|i: int| end <= i < text.len() ==> is_white_space(#[trigger] text[i]),
        end > 0 ==> !is_white_space(text[end - 1]),
    decreases text.len(),
{
    if text.len() > 0 && is_white_space(text.last()) {
        let rest = text.drop_last();
        let end = lemma_trimmed_end(rest);
        assert(rest.take(end) =~= text.take(end));
        assert forall|i: int| end <= i < text.len() implies is_white_space(#[trigger] text[i]) by {
            if i < rest.len() {
                assert(rest[i] == text[i]);
            }
        }
        end
    } else {
        assert(text.take(text.len() as int) =~= text);
        text.len() as int
    }
}

/// A text is what trimming leaves of it, with white space around; what is left neither
/// starts nor ends with white space.
pub proof fn lemma_trimming_takes_white_space(text: Seq<char>) -> (around: (Seq<char>, Seq<char>))
    ensures
        text == around.0 + trimmed(text) + around.1,
        forall|i: int| 0 <= i < around.0.len() ==> is_white_space(#[trigger] around.0[i]),
        forall|i: int| 0 <= i < around.1.len() ==> is_white_space(#[trigger] around.1[i]),
        trimmed(text).len() > 0 ==> !is_white_space(trimmed(text)[0]) && !is_white_space(
            trimmed(text).last(),
        ),
{
    let cut = lemma_trimmed_start(text);
    let rest = text.skip(cut);
    let end = lemma_trimmed_end(rest);
    assert(text =~= text.take(cut) + rest.take(end) + rest.skip(end));
    (text.take(cut), rest.skip(end))
}

/// A text that neither starts nor ends with white space is left as it is.
pub proof fn lemma_trimmed_texts_stay(text: Seq<char>)
    requires
        text.len() > 0 ==> !is_white_space(text[0]) && !is_white_space(text.last()),
    ensures
        trimmed(text) == text,
{
}

} // verus!
