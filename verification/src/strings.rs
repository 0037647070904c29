//! The text operations of the rule engine, on strings.
//!
//! Positions count the bytes of the text in UTF-8. A position is written
//! either as a number or as a piece of text to look for. A written position
//! beyond the text stands for its end, one inside a character for the place
//! where that character begins.

use crate::config::Rule;
use crate::text;
use crate::text::{chars_of, string_of};
use vstd::prelude::*;
use vstd::string::StringSliceAdditionalSpecFns;

verus! {

/// Where a range starts in `s`, in bytes: the number that `start` writes;
/// else the place where `start` first occurs; else zero.
pub fn get_start_index(s: &str, start: &str) -> (r: usize)
    ensures
        r == text::start_index(s@, start@),
{
    let chars: Vec<char> = chars_of(s);
    let mark: Vec<char> = chars_of(start);
    let total: usize = s.as_bytes().len();
    let at: u128 = text::start_index_in(&chars, &mark);
    proof {
        text::lemma_start_index_bounds(s@, start@);
        assert(total == text::byte_len(s@));
    }
    at as usize
}

/// Where a range ends in `s`, in bytes: the number that `end` writes; else
/// the place where `end` first occurs; else the length of `s`.
pub fn get_end_index(s: &str, end: &str) -> (r: usize)
    ensures
        r == text::end_index(s@, end@),
{
    let chars: Vec<char> = chars_of(s);
    let mark: Vec<char> = chars_of(end);
    let total: usize = s.as_bytes().len();
    let at: u128 = text::end_index_in(&chars, &mark);
    proof {
        text::lemma_end_index_bounds(s@, end@);
        assert(total == text::byte_len(s@));
    }
    at as usize
}

/// The part of `s` that the first two arguments of `rule` mark out.
pub fn substring(s: &str, rule: &Rule) -> (r: String)
    requires
        rule@.args.len() >= 2,
    ensures
        r@ == text::substring(s@, rule@.args[0], rule@.args[1]),
{
    let chars: Vec<char> = chars_of(s);
    let start: Vec<char> = chars_of(rule.args[0].as_str());
    let end: Vec<char> = chars_of(rule.args[1].as_str());
    let part: Vec<char> = text::substring_in(&chars, &start, &end);
    string_of(&part)
}

/// `s` with the second argument of `rule` put in at the position that the
/// first argument marks, unless it stands there already.
pub fn insert(s: &str, rule: &Rule) -> (r: String)
    requires
        rule@.args.len() >= 2,
    ensures
        r@ == text::insert(s@, rule@.args[0], rule@.args[1]),
{
    let chars: Vec<char> = chars_of(s);
    let position: Vec<char> = chars_of(rule.args[0].as_str());
    let piece: Vec<char> = chars_of(rule.args[1].as_str());
    let whole: Vec<char> = text::insert_in(&chars, &position, &piece);
    string_of(&whole)
}

/// The part of `s` between the first argument of `rule` and the second.
pub fn between(s: &str, rule: &Rule) -> (r: String)
    requires
        rule@.args.len() >= 2,
    ensures
        r@ == text::between(s@, rule@.args[0], rule@.args[1]),
{
    let chars: Vec<char> = chars_of(s);
    let left: Vec<char> = chars_of(rule.args[0].as_str());
    let right: Vec<char> = chars_of(rule.args[1].as_str());
    let part: Vec<char> = text::between_in(&chars, &left, &right);
    string_of(&part)
}

/// Putting a text in twice is putting it in once, as long as the position
/// falls on the same character in the result as in the text before.
pub proof fn lemma_insert_idempotent(s: Seq<char>, position: Seq<char>, piece: Seq<char>)
    requires
        text::insert_position(text::insert(s, position, piece), position) == text::insert_position(
            s,
            position,
        ),
    ensures
        text::insert(text::insert(s, position, piece), position, piece) == text::insert(
            s,
            position,
            piece,
        ),
{
    let at = text::insert_position(s, position);
    let once = text::insert(s, position, piece);
    text::lemma_char_position_bounds(s, text::start_index(s, position));
    if !text::occurs_at(s, piece, at) {
        assert(once.subrange(at, at + piece.len()) =~= piece);
    }
}

/// A position written as a number, at which a character of the text begins
/// or the text ends, falls on the same character after the text was put in.
pub proof fn lemma_written_position_is_stable(
    s: Seq<char>,
    position: Seq<char>,
    piece: Seq<char>,
    k: int,
)
    requires
        0 <= k <= s.len(),
        text::parse_offset(position) == Some(text::byte_offset(s, k)),
    ensures
        text::insert_position(s, position) == k,
        text::insert_position(text::insert(s, position, piece), position) == k,
{
    let once = text::insert(s, position, piece);
    text::lemma_char_position_of_offset(s, k);
    assert(once.take(k) =~= s.take(k));
    text::lemma_char_position_of_offset(once, k);
}

/// Putting a text in at a written position, at which a character of the
/// text begins or the text ends, is idempotent.
pub proof fn lemma_insert_at_written_position_idempotent(
    s: Seq<char>,
    position: Seq<char>,
    piece: Seq<char>,
    k: int,
)
    requires
        0 <= k <= s.len(),
        text::parse_offset(position) == Some(text::byte_offset(s, k)),
    ensures
        text::insert(text::insert(s, position, piece), position, piece) == text::insert(
            s,
            position,
            piece,
        ),
{
    lemma_written_position_is_stable(s, position, piece, k);
    lemma_insert_idempotent(s, position, piece);
}

/// The range from `0` to `0` is empty in every text.
pub proof fn lemma_substring_zero_zero(s: Seq<char>)
    ensures
        text::substring(s, "0"@, "0"@) == Seq::<char>::empty(),
{
    reveal_strlit("0");
    let zero = "0"@;
    assert(text::unsigned_part(zero) == zero);
    assert(zero.drop_last() =~= Seq::<char>::empty());
    assert(text::digits_value(zero.drop_last()) == 0);
    assert(text::digits_value(zero) == 0);
    assert(text::parse_offset(zero) == Some(0int));
    if s.len() > 0 {
        text::lemma_char_width(s[0]);
    }
    assert(text::char_position(s, 0) == 0);
    assert(s.subrange(0, 0) =~= Seq::<char>::empty());
}

/// Whatever the two marks resolve to, the range is a part of the text: it
/// lies between two positions of it.
pub proof fn lemma_substring_within(s: Seq<char>, start: Seq<char>, end: Seq<char>)
    ensures
        exists|a: int, b: int|
            0 <= a <= b <= s.len() && text::substring(s, start, end) == #[trigger] s.subrange(a, b),
{
    let a = text::char_position(s, text::start_index(s, start));
    let b = text::char_position(s, text::end_index(s, end));
    text::lemma_char_position_bounds(s, text::start_index(s, start));
    text::lemma_char_position_bounds(s, text::end_index(s, end));
    if a <= b {
        assert(text::substring(s, start, end) == s.subrange(a, b));
    } else {
        assert(s.subrange(0, 0) =~= Seq::<char>::empty());
        assert(text::substring(s, start, end) == s.subrange(0, 0));
    }
}

} // verus!
