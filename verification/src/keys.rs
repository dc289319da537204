//! The keys that sessions are opened under.

use vstd::prelude::*;
use vstd::utf8::is_ascii_chars_encode_utf8;

verus! {

/// The most bytes that a session key may hold.
pub const MAX_SESSION_KEY_LENGTH: usize = 128;

/// The characters of a session key: ASCII letters and digits, and `-_:.`.
pub open spec fn is_key_character(c: char) -> bool {
    ||| 'a' <= c <= 'z'
    ||| 'A' <= c <= 'Z'
    ||| '0' <= c <= '9'
    ||| c == '-'
    ||| c == '_'
    ||| c == ':'
    ||| c == '.'
}

/// A session key is not empty, not too long, and made of key characters.
pub open spec fn is_session_key(key: Seq<char>) -> bool {
    &&& 0 < key.len() <= MAX_SESSION_KEY_LENGTH
    &&& forall|i: int| 0 <= i < key.len() ==> is_key_character(#[trigger] key[i])
}

fn is_key_byte(byte: u8) -> (r: bool)
    ensures
        byte < 128 ==> r == is_key_character(byte as char),
{
    matches!(byte, 45 | 46 | 58 | 95 | 48..=57 | 65..=90 | 97..=122)
}

/// Whether `session_key` may name a session.
pub fn valid_session_key(session_key: &str) -> (valid: bool)
    ensures
        valid == is_session_key(session_key@),
{
    if !session_key.is_ascii() {
        proof {
            let i = choose|i: int|
                0 <= i < session_key@.len() && !('\0' <= #[trigger] session_key@[i] <= '\u{7f}');
            assert(!is_key_character(session_key@[i]));
        }
        return false;
    }
    proof {
        is_ascii_chars_encode_utf8(session_key@);
    }
    let bytes = session_key.as_bytes();
    if bytes.len() == 0 || bytes.len() > MAX_SESSION_KEY_LENGTH {
        return false;
    }
    let mut i: usize = 0;
    while i < bytes.len()
        invariant
            i <= bytes.len(),
            bytes@.len() == session_key@.len(),
            forall|j: int|
                0 <= j < bytes@.len() ==> '\0' <= #[trigger] session_key@[j] <= '\u{7f}'
                    && session_key@[j] as u8 == bytes@[j],
            forall|j: int| 0 <= j < i ==> is_key_character(#[trigger] session_key@[j]),
        decreases bytes.len() - i,
    {
        assert(bytes@[i as int] as char == session_key@[i as int]);
        if !is_key_byte(bytes[i]) {
            return false;
        }
        i += 1;
    }
    true
}

/// The keys of one character: an ASCII letter or digit, a hyphen, an underscore, a
/// colon or a full stop.
pub proof fn lemma_keys_of_one_character(c: char)
    ensures
        is_session_key(seq![c]) <==> {
            let code = c as u32;
            ||| 48 <= code <= 57
            ||| 65 <= code <= 90
            ||| 97 <= code <= 122
            ||| code == 45
            ||| code == 46
            ||| code == 58
            ||| code == 95
        },
{
    let key = seq![c];
    assert(key[0] == c);
}

/// A text is a key if and only if both of its parts are, as long as it is not too long.
pub proof fn lemma_keys_are_made_of_keys(a: Seq<char>, b: Seq<char>)
    requires
        a.len() > 0,
        b.len() > 0,
    ensures
        is_session_key(a + b) <==> is_session_key(a) && is_session_key(b) && a.len() + b.len()
            <= 128,
{
    let whole = a + b;
    if is_session_key(whole) {
        assert forall|i: int| 0 <= i < a.len() implies is_key_character(#[trigger] a[i]) by {
            assert(whole[i] == a[i]);
        }
        assert forall|i: int| 0 <= i < b.len() implies is_key_character(#[trigger] b[i]) by {
            assert(whole[a.len() + i] == b[i]);
        }
    }
}

/// Nothing is no key.
pub proof fn lemma_no_empty_key()
    ensures
        !is_session_key(Seq::empty()),
{
}

} // verus!
