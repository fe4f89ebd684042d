//! Text building and checking used across the protocol: stream names derived
//! from room identifiers, decimal rendering of point totals, the scoring
//! annotation recorded in chat, fallback player names, case folding for
//! guess comparison, and the format check on content-addressed blob hashes.

use vstd::prelude::*;
use vstd::string::StrSliceExecFns;
use vstd::string::StringExecFns;

verus! {

/// The character for one decimal digit.
pub open spec fn digit_char(d: nat) -> char {
    if d == 0 {
        '0'
    } else if d == 1 {
        '1'
    } else if d == 2 {
        '2'
    } else if d == 3 {
        '3'
    } else if d == 4 {
        '4'
    } else if d == 5 {
        '5'
    } else if d == 6 {
        '6'
    } else if d == 7 {
        '7'
    } else if d == 8 {
        '8'
    } else {
        '9'
    }
}

/// The decimal digits of `n`, most significant first, without leading zeros
/// (`0` renders as `"0"`).
pub open spec fn dec_digits(n: nat) -> Seq<char>
    decreases n,
{
    if n < 10 {
        seq![digit_char(n)]
    } else {
        dec_digits(n / 10).push(digit_char(n % 10))
    }
}

/// A one-character string slice for the decimal digit `d`.
fn digit_str(d: u32) -> (s: &'static str)
    requires
        d < 10,
    ensures
        s@ =~= seq![digit_char(d as nat)],
{
    proof {
        reveal_strlit("0");
        reveal_strlit("1");
        reveal_strlit("2");
        reveal_strlit("3");
        reveal_strlit("4");
        reveal_strlit("5");
        reveal_strlit("6");
        reveal_strlit("7");
        reveal_strlit("8");
        reveal_strlit("9");
    }
    if d == 0 {
        "0"
    } else if d == 1 {
        "1"
    } else if d == 2 {
        "2"
    } else if d == 3 {
        "3"
    } else if d == 4 {
        "4"
    } else if d == 5 {
        "5"
    } else if d == 6 {
        "6"
    } else if d == 7 {
        "7"
    } else if d == 8 {
        "8"
    } else {
        "9"
    }
}

/// Renders `n` in decimal.
pub fn u32_to_decimal(n: u32) -> (s: String)
    ensures
        s@ == dec_digits(n as nat),
    decreases n,
{
    if n < 10 {
        let s = digit_str(n).to_owned();
        proof {
            assert(s@ =~= dec_digits(n as nat));
        }
        s
    } else {
        let mut s = u32_to_decimal(n / 10);
        s.append(digit_str(n % 10));
        proof {
            assert(s@ =~= dec_digits(n as nat));
        }
        s
    }
}

/// The name of the event stream that carries a room's broadcast events.
pub open spec fn spec_stream_name(room_id: Seq<char>) -> Seq<char> {
    "game_events_"@ + room_id
}

/// Builds the event-stream name for a room.
pub fn stream_name(room_id: &String) -> (s: String)
    ensures
        s@ == spec_stream_name(room_id@),
{
    let mut s = "game_events_".to_owned();
    s.append(room_id.as_str());
    s
}

/// The chat text recorded for a correct guess in place of the guess itself.
pub open spec fn spec_correct_annotation(points: u32) -> Seq<char> {
    "[Correct! +"@ + dec_digits(points as nat) + " points]"@
}

/// Builds the chat annotation for a correct guess worth `points`.
pub fn correct_annotation(points: u32) -> (s: String)
    ensures
        s@ == spec_correct_annotation(points),
{
    let mut s = "[Correct! +".to_owned();
    let digits = u32_to_decimal(points);
    s.append(digits.as_str());
    s.append(" points]");
    proof {
        assert(s@ =~= spec_correct_annotation(points));
    }
    s
}

/// The display name used for a guesser whose chain is not on the roster.
pub open spec fn spec_fallback_name(chain_id: Seq<char>) -> Seq<char> {
    "Player_"@ + chain_id
}

/// Builds the fallback display name for an unknown guesser chain.
pub fn fallback_name(chain_id: &String) -> (s: String)
    ensures
        s@ == spec_fallback_name(chain_id@),
{
    let mut s = "Player_".to_owned();
    s.append(chain_id.as_str());
    s
}

/// The case folding of a sequence of characters. Guesses match the secret
/// word up to this folding.
pub uninterp spec fn lower_of(s: Seq<char>) -> Seq<char>;

/// Relies on str::to_lowercase: the lowercase form of a string depends on
/// its characters alone.
#[verifier::external_body]
pub(crate) fn lowercase(s: &String) -> (r: String)
    ensures
        r@ == lower_of(s@),
{
    s.to_lowercase()
}

/// Whether a guess matches the secret word, compared case-insensitively.
pub fn guess_matches_word(word: &String, guess: &String) -> (b: bool)
    ensures
        b == (lower_of(word@) == lower_of(guess@)),
{
    let lw = lowercase(word);
    let lg = lowercase(guess);
    lw == lg
}

/// A hexadecimal digit, in either case.
pub open spec fn is_hex_digit(c: char) -> bool {
    ('0' <= c && c <= '9') || ('a' <= c && c <= 'f') || ('A' <= c && c <= 'F')
}

/// The accepted shape of a content-addressed blob hash: exactly 64
/// hexadecimal digits.
pub open spec fn is_valid_blob_hash(s: Seq<char>) -> bool {
    s.len() == 64 && forall|i: int| 0 <= i < s.len() ==> is_hex_digit(s[i])
}

/// Checks that a string has the shape of a blob hash.
pub fn check_blob_hash(s: &String) -> (b: bool)
    ensures
        b == is_valid_blob_hash(s@),
{
    let n = s.as_str().unicode_len();
    if n != 64 {
        return false;
    }
    let mut i: usize = 0;
    while i < n
        invariant
            0 <= i <= n,
            n == s@.len(),
            forall|j: int| 0 <= j < i ==> is_hex_digit(s@[j]),
        decreases n - i,
    {
        let c = s.as_str().get_char(i);
        let ok = ('0' <= c && c <= '9') || ('a' <= c && c <= 'f') || ('A' <= c && c <= 'F');
        if !ok {
            return false;
        }
        i += 1;
    }
    true
}

} // verus!
