//! Text primitives over sequences of characters.
//!
//! Every operation is stated over `Seq<char>`, the view of `str` and
//! `String`. A position that a rule writes or a search returns counts the
//! bytes of the text in UTF-8; inside this module a position counts
//! characters, and the two are turned into each other at the edge.

use vstd::prelude::*;
use vstd::utf8::{char_is_scalar, encode_scalar, encode_utf8};

verus! {

/// `String::push` appends one character at the end.
pub assume_specification[ String::push ](s: &mut String, c: char)
    ensures
        final(s)@ == old(s)@.push(c),
;

/// `str == str` compares the two texts character by character.
pub assume_specification[ <str as PartialEq>::eq ](a: &str, b: &str) -> (r: bool)
    ensures
        r == (a@ == b@),
;

/// What `str::to_lowercase` returns for the text `s`.
pub uninterp spec fn lowercase_of(s: Seq<char>) -> Seq<char>;

/// `str::to_lowercase` is a function of the text alone; its value is named,
/// not spelled out, because it follows the Unicode case tables.
pub assume_specification[ str::to_lowercase ](s: &str) -> (r: String)
    ensures
        r@ == lowercase_of(s@),
;

/// Whether `char::is_whitespace` holds of `c`.
pub uninterp spec fn is_whitespace(c: char) -> bool;

/// `char::is_whitespace` tells whether a character has the Unicode property
/// White_Space; the answer depends on the character alone.
#[verifier::external_body]
fn char_is_whitespace(c: char) -> (r: bool)
    ensures
        r == is_whitespace(c),
{
    c.is_whitespace()
}

/// `pat` stands in `s` at position `i`.
pub open spec fn occurs_at(s: Seq<char>, pat: Seq<char>, i: int) -> bool {
    0 <= i && i + pat.len() <= s.len() && s.subrange(i, i + pat.len()) == pat
}

/// The least position at or after `from` where `pat` stands in `s`.
pub open spec fn find_from(s: Seq<char>, pat: Seq<char>, from: int) -> Option<int>
    decreases s.len() - from + 1,
{
    if from < 0 || from + pat.len() > s.len() {
        None
    } else if occurs_at(s, pat, from) {
        Some(from)
    } else {
        find_from(s, pat, from + 1)
    }
}

/// The position of the first occurrence of `pat` in `s`.
pub open spec fn find(s: Seq<char>, pat: Seq<char>) -> Option<int> {
    find_from(s, pat, 0)
}

/// `pat` occurs somewhere in `s`.
pub open spec fn contains(s: Seq<char>, pat: Seq<char>) -> bool {
    find(s, pat) is Some
}

/// `find_from` returns the least occurrence at or after `from`, and `None`
/// exactly when there is none.
pub proof fn lemma_find_from(s: Seq<char>, pat: Seq<char>, from: int)
    requires
        0 <= from,
    ensures
        match find_from(s, pat, from) {
            Some(i) => from <= i && occurs_at(s, pat, i) && forall|j: int|
                from <= j < i ==> !occurs_at(s, pat, j),
            None => forall|j: int| from <= j ==> !occurs_at(s, pat, j),
        },
    decreases s.len() - from + 1,
{
    if from + pat.len() > s.len() {
    } else if occurs_at(s, pat, from) {
    } else {
        lemma_find_from(s, pat, from + 1);
    }
}

/// `find` returns the first occurrence, and `None` exactly when `pat` occurs
/// nowhere in `s`.
pub proof fn lemma_find_is_first(s: Seq<char>, pat: Seq<char>)
    ensures
        match find(s, pat) {
            Some(i) => occurs_at(s, pat, i) && forall|j: int| 0 <= j < i ==> !occurs_at(s, pat, j),
            None => forall|j: int| !occurs_at(s, pat, j),
        },
{
    lemma_find_from(s, pat, 0);
}

/// Whether two texts hold the same characters.
pub fn same_text(a: &str, b: &str) -> (r: bool)
    ensures
        r == (a@ == b@),
{
    a.eq(b)
}

/// The texts that a list of strings holds.
pub open spec fn text_views(v: Seq<String>) -> Seq<Seq<char>> {
    Seq::new(v.len(), |i: int| v[i]@)
}

/// A copy of a list of strings.
pub fn copy_texts(v: &Vec<String>) -> (r: Vec<String>)
    ensures
        r@ == v@,
{
    let mut r: Vec<String> = Vec::new();
    let mut i: usize = 0;
    while i < v.len()
        invariant
            i <= v.len(),
            r@ == v@.take(i as int),
        decreases v.len() - i,
    {
        r.push(v[i].clone());
        i += 1;
        assert(v@.take(i as int) =~= v@.take(i - 1).push(v@[i - 1]));
    }
    assert(v@.take(v@.len() as int) =~= v@);
    r
}

/// The characters of `s`, in order.
pub fn chars_of(s: &str) -> (v: Vec<char>)
    ensures
        v@ == s@,
{
    let mut v: Vec<char> = Vec::new();
    for c in it: s.chars()
        invariant
            it.seq() == s@,
            v@ =~= s@.take(it.index()),
    {
        v.push(c);
    }
    assert(s@.take(s@.len() as int) =~= s@);
    v
}

/// The string made of the characters `v`, in order.
pub fn string_of(v: &Vec<char>) -> (s: String)
    ensures
        s@ == v@,
{
    let mut s = String::new();
    let mut i: usize = 0;
    while i < v.len()
        invariant
            i <= v.len(),
            s@ == v@.take(i as int),
        decreases v.len() - i,
    {
        s.push(v[i]);
        i += 1;
        assert(v@.take(i as int) =~= v@.take(i - 1).push(v@[i - 1]));
    }
    assert(v@.take(v@.len() as int) =~= v@);
    s
}

/// Whether two texts hold the same characters.
pub fn same_chars(a: &Vec<char>, b: &Vec<char>) -> (r: bool)
    ensures
        r == (a@ == b@),
{
    if a.len() != b.len() {
        return false;
    }
    let mut i: usize = 0;
    while i < a.len()
        invariant
            i <= a.len(),
            a.len() == b.len(),
            forall|k: int| 0 <= k < i ==> a@[k] == b@[k],
        decreases a.len() - i,
    {
        if a[i] != b[i] {
            return false;
        }
        i += 1;
    }
    assert(a@ =~= b@);
    true
}

/// Whether `pat` stands in `s` at position `i`.
pub fn matches_at(s: &Vec<char>, pat: &Vec<char>, i: usize) -> (r: bool)
    ensures
        r == occurs_at(s@, pat@, i as int),
{
    if pat.len() > s.len() || i > s.len() - pat.len() {
        return false;
    }
    let mut k: usize = 0;
    while k < pat.len()
        invariant
            k <= pat.len(),
            i + pat.len() <= s.len(),
            forall|j: int| 0 <= j < k ==> s@[i + j] == pat@[j],
        decreases pat.len() - k,
    {
        if s[i + k] != pat[k] {
            assert(s@.subrange(i as int, i + pat.len())[k as int] != pat@[k as int]);
            return false;
        }
        k += 1;
    }
    assert(s@.subrange(i as int, i + pat.len()) =~= pat@);
    true
}

/// The position of the first occurrence of `pat` in `s`, if there is one.
pub fn find_in(s: &Vec<char>, pat: &Vec<char>) -> (r: Option<usize>)
    ensures
        match r {
            Some(i) => find(s@, pat@) == Some(i as int),
            None => find(s@, pat@) is None,
        },
{
    if pat.len() > s.len() {
        return None;
    }
    let last: usize = s.len() - pat.len();
    let mut i: usize = 0;
    loop
        invariant
            i <= last,
            last == s.len() - pat.len(),
            pat.len() <= s.len(),
            find(s@, pat@) == find_from(s@, pat@, i as int),
        decreases last - i,
    {
        if matches_at(s, pat, i) {
            return Some(i);
        }
        if i == last {
            assert(find_from(s@, pat@, i + 1) is None);
            return None;
        }
        i += 1;
    }
}

/// `c` is one of the decimal digits `0` to `9`.
pub open spec fn is_digit(c: char) -> bool {
    '0' as int <= c as int && c as int <= '9' as int
}

/// The number that the digit `c` stands for.
pub open spec fn digit_value(c: char) -> int {
    c as int - '0' as int
}

/// The number written by the decimal digits `s`; zero for no digits.
pub open spec fn digits_value(s: Seq<char>) -> int
    decreases s.len(),
{
    if s.len() == 0 {
        0
    } else {
        10 * digits_value(s.drop_last()) + digit_value(s.last())
    }
}

/// Every character of `s` is a decimal digit.
pub open spec fn all_digits(s: Seq<char>) -> bool {
    forall|i: int| 0 <= i < s.len() ==> is_digit(#[trigger] s[i])
}

/// `s` without one leading plus sign.
pub open spec fn unsigned_part(s: Seq<char>) -> Seq<char> {
    if s.len() > 0 && s[0] == '+' {
        s.skip(1)
    } else {
        s
    }
}

/// The offset that `s` writes: an optional plus sign, then one or more
/// decimal digits and nothing else, with a value that fits in `usize`.
pub open spec fn parse_offset(s: Seq<char>) -> Option<int> {
    let body = unsigned_part(s);
    if body.len() > 0 && all_digits(body) && digits_value(body) <= usize::MAX {
        Some(digits_value(body))
    } else {
        None
    }
}

/// A run of digits never writes a smaller number than one of its prefixes.
pub proof fn lemma_digits_value_prefix(s: Seq<char>, k: int)
    requires
        all_digits(s),
        0 <= k <= s.len(),
    ensures
        0 <= digits_value(s.take(k)) <= digits_value(s),
    decreases s.len() - k,
{
    if k == s.len() {
        assert(s.take(k) =~= s);
        lemma_digits_value_nonnegative(s);
    } else {
        lemma_digits_value_prefix(s, k + 1);
        let longer = s.take(k + 1);
        assert(longer.drop_last() =~= s.take(k));
        assert(is_digit(s[k]));
        assert(longer.last() == s[k]);
        lemma_digits_value_nonnegative(s.take(k));
    }
}

/// A run of digits writes no negative number.
pub proof fn lemma_digits_value_nonnegative(s: Seq<char>)
    requires
        all_digits(s),
    ensures
        0 <= digits_value(s),
    decreases s.len(),
{
    if s.len() > 0 {
        assert(is_digit(s[s.len() - 1]));
        lemma_digits_value_nonnegative(s.drop_last());
    }
}

/// An offset is never negative.
pub proof fn lemma_parse_offset_nonnegative(s: Seq<char>)
    ensures
        parse_offset(s) matches Some(n) ==> 0 <= n,
{
    if parse_offset(s) is Some {
        lemma_digits_value_nonnegative(unsigned_part(s));
    }
}

/// The offset that `s` writes, if it writes one.
pub fn parse_offset_of(s: &Vec<char>) -> (r: Option<usize>)
    ensures
        match r {
            Some(n) => parse_offset(s@) == Some(n as int),
            None => parse_offset(s@) is None,
        },
{
    let start: usize = if s.len() > 0 && s[0] == '+' {
        1
    } else {
        0
    };
    if start >= s.len() {
        return None;
    }
    let ghost body = s@.skip(start as int);
    let mut value: usize = 0;
    let mut i: usize = start;
    while i < s.len()
        invariant
            start <= i <= s.len(),
            body == s@.skip(start as int),
            body == unsigned_part(s@),
            all_digits(body.take(i - start)),
            value == digits_value(body.take(i - start)),
        decreases s.len() - i,
    {
        let c: char = s[i];
        if !(c >= '0' && c <= '9') {
            assert(!is_digit(body[i - start]));
            return None;
        }
        let d: usize = (c as u32 - '0' as u32) as usize;
        let ghost longer = body.take(i - start + 1);
        proof {
            assert(longer.drop_last() =~= body.take(i - start));
            assert(longer.last() == c);
            assert(digits_value(longer) == 10 * value + d);
            assert(all_digits(longer)) by {
                assert forall|k: int| 0 <= k < longer.len() implies is_digit(
                    #[trigger] longer[k],
                ) by {
                    if k < i - start {
                        assert(body.take(i - start)[k] == longer[k]);
                    }
                }
            }
        }
        if value > (usize::MAX - d) / 10 {
            proof {
                if all_digits(body) {
                    lemma_digits_value_prefix(body, i - start + 1);
                }
            }
            return None;
        }
        value = value * 10 + d;
        i += 1;
    }
    assert(body.take(body.len() as int) =~= body);
    Some(value)
}

/// How many bytes the character `c` takes in UTF-8.
pub open spec fn char_width(c: char) -> int {
    encode_scalar(c as u32).len() as int
}

/// How many bytes the text `s` takes in UTF-8.
pub open spec fn byte_len(s: Seq<char>) -> int {
    encode_utf8(s).len() as int
}

/// The position in bytes of the character at `i`: the bytes of what stands
/// before it.
pub open spec fn byte_offset(s: Seq<char>, i: int) -> int {
    byte_len(s.take(i))
}

/// The character that the byte position `offset` falls on: the last
/// character that begins at or before it, which brings a position inside a
/// character back to where that character begins, and the end of the text
/// for a position at or beyond it.
pub open spec fn char_position(s: Seq<char>, offset: int) -> int
    decreases s.len(),
{
    if s.len() == 0 || offset < char_width(s[0]) {
        0
    } else {
        1 + char_position(s.drop_first(), offset - char_width(s[0]))
    }
}

/// A character takes one to four bytes.
pub proof fn lemma_char_width(c: char)
    ensures
        1 <= char_width(c) <= 4,
{
    char_is_scalar(c);
}

/// The bytes of two texts written one after the other are those of the one
/// and those of the other.
pub proof fn lemma_byte_len_add(a: Seq<char>, b: Seq<char>)
    ensures
        byte_len(a + b) == byte_len(a) + byte_len(b),
    decreases a.len(),
{
    if a.len() == 0 {
        assert(a + b =~= b);
    } else {
        assert((a + b).drop_first() =~= a.drop_first() + b);
        lemma_byte_len_add(a.drop_first(), b);
    }
}

/// The position in bytes of the next character lies one character further.
pub proof fn lemma_byte_offset_step(s: Seq<char>, i: int)
    requires
        0 <= i < s.len(),
    ensures
        byte_offset(s, i + 1) == byte_offset(s, i) + char_width(s[i]),
{
    let one = Seq::<char>::empty().push(s[i]);
    assert(s.take(i + 1) =~= s.take(i) + one);
    lemma_byte_len_add(s.take(i), one);
    assert(one.drop_first() =~= Seq::<char>::empty());
    assert(encode_utf8(one) =~= encode_scalar(s[i] as u32) + encode_utf8(Seq::<char>::empty()));
}

/// A position in bytes lies within the text, and no further than four bytes
/// for each character before it.
pub proof fn lemma_byte_offset_bounds(s: Seq<char>, i: int)
    requires
        0 <= i <= s.len(),
    ensures
        0 <= byte_offset(s, i) <= byte_len(s),
        byte_offset(s, i) <= 4 * i,
    decreases i,
{
    assert(s =~= s.take(i) + s.skip(i));
    lemma_byte_len_add(s.take(i), s.skip(i));
    if i > 0 {
        lemma_byte_offset_bounds(s, i - 1);
        lemma_byte_offset_step(s, i - 1);
        lemma_char_width(s[i - 1]);
    } else {
        assert(s.take(0) =~= Seq::<char>::empty());
    }
}

/// A byte position falls on a character of the text, or on its end.
pub proof fn lemma_char_position_bounds(s: Seq<char>, offset: int)
    ensures
        0 <= char_position(s, offset) <= s.len(),
    decreases s.len(),
{
    if s.len() > 0 && offset >= char_width(s[0]) {
        lemma_char_position_bounds(s.drop_first(), offset - char_width(s[0]));
    }
}

/// The byte position at which a character begins falls on that character.
pub proof fn lemma_char_position_of_offset(s: Seq<char>, k: int)
    requires
        0 <= k <= s.len(),
    ensures
        char_position(s, byte_offset(s, k)) == k,
    decreases k,
{
    if k == 0 {
        assert(s.take(0) =~= Seq::<char>::empty());
        if s.len() > 0 {
            lemma_char_width(s[0]);
        }
    } else {
        let one = Seq::<char>::empty().push(s[0]);
        let rest = s.drop_first();
        assert(s.take(k) =~= one + rest.take(k - 1));
        lemma_byte_len_add(one, rest.take(k - 1));
        assert(one.drop_first() =~= Seq::<char>::empty());
        assert(encode_utf8(one) =~= encode_scalar(s[0] as u32) + encode_utf8(Seq::<char>::empty()));
        lemma_byte_offset_bounds(rest, k - 1);
        lemma_char_position_of_offset(rest, k - 1);
    }
}

/// Where a range starts, in bytes: the offset that `start` writes; else the
/// place of the first occurrence of `start` in `s`; else, and for an empty
/// `start`, zero.
pub open spec fn start_index(s: Seq<char>, start: Seq<char>) -> int {
    match parse_offset(start) {
        Some(n) => n,
        None => if start.len() == 0 {
            0
        } else {
            match find(s, start) {
                Some(i) => byte_offset(s, i),
                None => 0,
            }
        },
    }
}

/// A range starts at no negative position, and at one that fits in `usize`
/// or lies within the text.
pub proof fn lemma_start_index_bounds(s: Seq<char>, start: Seq<char>)
    ensures
        0 <= start_index(s, start),
        start_index(s, start) <= usize::MAX || start_index(s, start) <= byte_len(s),
{
    lemma_find_is_first(s, start);
    lemma_parse_offset_nonnegative(start);
    match find(s, start) {
        Some(i) => {
            lemma_byte_offset_bounds(s, i);
        },
        None => {},
    }
}

/// Where a range ends, in bytes: the offset that `end` writes; else the
/// place of the first occurrence of `end` in `s`; else, and for an empty
/// `end`, the length of `s`.
pub open spec fn end_index(s: Seq<char>, end: Seq<char>) -> int {
    match parse_offset(end) {
        Some(n) => n,
        None => if end.len() == 0 {
            byte_len(s)
        } else {
            match find(s, end) {
                Some(i) => byte_offset(s, i),
                None => byte_len(s),
            }
        },
    }
}

/// A range ends at no negative position, and at one that fits in `usize` or
/// lies within the text.
pub proof fn lemma_end_index_bounds(s: Seq<char>, end: Seq<char>)
    ensures
        0 <= end_index(s, end),
        end_index(s, end) <= usize::MAX || end_index(s, end) <= byte_len(s),
{
    lemma_find_is_first(s, end);
    lemma_parse_offset_nonnegative(end);
    match find(s, end) {
        Some(i) => {
            lemma_byte_offset_bounds(s, i);
        },
        None => {},
    }
}

/// The part of `s` from the character that `start_index` falls on up to the
/// one that `end_index` falls on; empty when the start lies after the end. A
/// position beyond the text is brought back to its end, one inside a
/// character to where that character begins.
pub open spec fn substring(s: Seq<char>, start: Seq<char>, end: Seq<char>) -> Seq<char> {
    let a = char_position(s, start_index(s, start));
    let b = char_position(s, end_index(s, end));
    if a <= b {
        s.subrange(a, b)
    } else {
        Seq::empty()
    }
}

/// The character at which `insert` works: the one that `start_index` falls
/// on.
pub open spec fn insert_position(s: Seq<char>, position: Seq<char>) -> int {
    char_position(s, start_index(s, position))
}

/// `s` with `text` put in at `insert_position`, unless `text` already stands
/// at exactly that position.
pub open spec fn insert(s: Seq<char>, position: Seq<char>, text: Seq<char>) -> Seq<char> {
    let at = insert_position(s, position);
    if occurs_at(s, text, at) {
        s
    } else {
        s.subrange(0, at) + text + s.subrange(at, s.len() as int)
    }
}

/// The part of `s` strictly between the first `left` and the first `right`
/// after it; `s` itself when either is missing.
pub open spec fn between(s: Seq<char>, left: Seq<char>, right: Seq<char>) -> Seq<char> {
    match find(s, left) {
        Some(i) => {
            let a = i + left.len();
            match find(s.skip(a), right) {
                Some(j) => s.subrange(a, a + j),
                None => s,
            }
        },
        None => s,
    }
}

/// `s` with every occurrence of `needle` replaced by `with`, scanning from
/// the left and never looking into what was put in. An empty `needle` stands
/// before every character and at the end.
pub open spec fn replace_all(s: Seq<char>, needle: Seq<char>, with: Seq<char>) -> Seq<char>
    decreases s.len(),
{
    if needle.len() == 0 {
        if s.len() == 0 {
            with
        } else {
            with + seq![s[0]] + replace_all(s.skip(1), needle, with)
        }
    } else if s.len() < needle.len() {
        s
    } else if occurs_at(s, needle, 0) {
        with + replace_all(s.skip(needle.len() as int), needle, with)
    } else {
        seq![s[0]] + replace_all(s.skip(1), needle, with)
    }
}

/// `s` without its leading whitespace.
pub open spec fn trim_start(s: Seq<char>) -> Seq<char>
    decreases s.len(),
{
    if s.len() > 0 && is_whitespace(s[0]) {
        trim_start(s.skip(1))
    } else {
        s
    }
}

/// `s` without its trailing whitespace.
pub open spec fn trim_end(s: Seq<char>) -> Seq<char>
    decreases s.len(),
{
    if s.len() > 0 && is_whitespace(s.last()) {
        trim_end(s.drop_last())
    } else {
        s
    }
}

/// `s` without leading and trailing whitespace.
pub open spec fn trim(s: Seq<char>) -> Seq<char> {
    trim_end(trim_start(s))
}

/// A copy of the characters of `s` from position `a` up to position `b`.
pub fn slice_of(s: &Vec<char>, a: usize, b: usize) -> (r: Vec<char>)
    requires
        a <= b <= s.len(),
    ensures
        r@ == s@.subrange(a as int, b as int),
{
    let mut r: Vec<char> = Vec::new();
    let mut i: usize = a;
    while i < b
        invariant
            a <= i <= b <= s.len(),
            r@ == s@.subrange(a as int, i as int),
        decreases b - i,
    {
        r.push(s[i]);
        i += 1;
        assert(s@.subrange(a as int, i as int) =~= s@.subrange(a as int, i - 1).push(s@[i - 1]));
    }
    r
}

/// Appends the characters of `tail` to `head`.
pub fn append_to(head: &mut Vec<char>, tail: &Vec<char>)
    ensures
        final(head)@ == old(head)@ + tail@,
{
    let mut i: usize = 0;
    while i < tail.len()
        invariant
            i <= tail.len(),
            head@ == old(head)@ + tail@.take(i as int),
        decreases tail.len() - i,
    {
        head.push(tail[i]);
        i += 1;
        assert(tail@.take(i as int) =~= tail@.take(i - 1).push(tail@[i - 1]));
        assert(head@ =~= old(head)@ + tail@.take(i as int));
    }
    assert(tail@.take(tail@.len() as int) =~= tail@);
}

/// How many bytes the character `c` takes in UTF-8.
pub fn char_width_of(c: char) -> (r: usize)
    ensures
        r == char_width(c),
        1 <= r <= 4,
{
    proof {
        char_is_scalar(c);
    }
    let v: u32 = c as u32;
    if v < 0x80 {
        1
    } else if v < 0x800 {
        2
    } else if v < 0x10000 {
        3
    } else {
        4
    }
}

/// The position in bytes of the character at `i`.
pub fn byte_offset_in(s: &Vec<char>, i: usize) -> (r: u128)
    requires
        i <= s.len(),
    ensures
        r == byte_offset(s@, i as int),
{
    let mut offset: u128 = 0;
    let mut k: usize = 0;
    assert(s@.take(0) =~= Seq::<char>::empty());
    while k < i
        invariant
            k <= i <= s.len(),
            offset == byte_offset(s@, k as int),
            offset <= 4 * k,
        decreases i - k,
    {
        proof {
            lemma_byte_offset_step(s@, k as int);
        }
        let width: usize = char_width_of(s[k]);
        offset = offset + width as u128;
        k += 1;
    }
    offset
}

/// The character that the byte position `offset` falls on.
pub fn char_position_in(s: &Vec<char>, offset: u128) -> (r: usize)
    ensures
        r == char_position(s@, offset as int),
{
    let mut passed: u128 = 0;
    let mut i: usize = 0;
    assert(s@.skip(0) =~= s@);
    while i < s.len()
        invariant
            i <= s.len(),
            passed <= offset,
            passed <= 4 * i,
            char_position(s@, offset as int) == i + char_position(
                s@.skip(i as int),
                offset - passed,
            ),
        decreases s.len() - i,
    {
        let width: usize = char_width_of(s[i]);
        assert(s@.skip(i as int)[0] == s@[i as int]);
        assert(s@.skip(i as int).drop_first() =~= s@.skip(i + 1));
        if offset - passed < width as u128 {
            return i;
        }
        passed = passed + width as u128;
        i += 1;
    }
    i
}

/// Where a range starts in `s`, in bytes, as `start` says.
pub fn start_index_in(s: &Vec<char>, start: &Vec<char>) -> (r: u128)
    ensures
        r == start_index(s@, start@),
{
    match parse_offset_of(start) {
        Some(n) => n as u128,
        None => {
            if start.len() == 0 {
                0
            } else {
                proof {
                    lemma_find_is_first(s@, start@);
                }
                match find_in(s, start) {
                    Some(i) => byte_offset_in(s, i),
                    None => 0,
                }
            }
        },
    }
}

/// Where a range ends in `s`, in bytes, as `end` says.
pub fn end_index_in(s: &Vec<char>, end: &Vec<char>) -> (r: u128)
    ensures
        r == end_index(s@, end@),
{
    assert(s@.take(s@.len() as int) =~= s@);
    match parse_offset_of(end) {
        Some(n) => n as u128,
        None => {
            if end.len() == 0 {
                byte_offset_in(s, s.len())
            } else {
                proof {
                    lemma_find_is_first(s@, end@);
                }
                match find_in(s, end) {
                    Some(i) => byte_offset_in(s, i),
                    None => byte_offset_in(s, s.len()),
                }
            }
        },
    }
}

/// The part of `s` that `start` and `end` mark out.
pub fn substring_in(s: &Vec<char>, start: &Vec<char>, end: &Vec<char>) -> (r: Vec<char>)
    ensures
        r@ == substring(s@, start@, end@),
{
    let a: usize = char_position_in(s, start_index_in(s, start));
    let b: usize = char_position_in(s, end_index_in(s, end));
    proof {
        lemma_char_position_bounds(s@, start_index(s@, start@));
        lemma_char_position_bounds(s@, end_index(s@, end@));
    }
    if a <= b {
        slice_of(s, a, b)
    } else {
        Vec::new()
    }
}

/// `s` with `text` put in where `position` says, unless it stands there
/// already.
pub fn insert_in(s: &Vec<char>, position: &Vec<char>, text: &Vec<char>) -> (r: Vec<char>)
    ensures
        r@ == insert(s@, position@, text@),
{
    let at: usize = char_position_in(s, start_index_in(s, position));
    proof {
        lemma_char_position_bounds(s@, start_index(s@, position@));
    }
    if matches_at(s, text, at) {
        assert(s@.subrange(0, s@.len() as int) =~= s@);
        slice_of(s, 0, s.len())
    } else {
        let mut r: Vec<char> = slice_of(s, 0, at);
        append_to(&mut r, text);
        let rest: Vec<char> = slice_of(s, at, s.len());
        append_to(&mut r, &rest);
        r
    }
}

/// The part of `s` between the first `left` and the first `right` after it.
pub fn between_in(s: &Vec<char>, left: &Vec<char>, right: &Vec<char>) -> (r: Vec<char>)
    ensures
        r@ == between(s@, left@, right@),
{
    proof {
        assert(s@.subrange(0, s@.len() as int) =~= s@);
        lemma_find_is_first(s@, left@);
    }
    match find_in(s, left) {
        Some(i) => {
            assert(occurs_at(s@, left@, i as int));
            assert(i + left.len() <= s.len());
            let a: usize = i + left.len();
            let rest: Vec<char> = slice_of(s, a, s.len());
            assert(rest@ =~= s@.skip(a as int));
            proof {
                lemma_find_is_first(rest@, right@);
            }
            match find_in(&rest, right) {
                Some(j) => slice_of(s, a, a + j),
                None => slice_of(s, 0, s.len()),
            }
        },
        None => slice_of(s, 0, s.len()),
    }
}

/// `s` with every occurrence of `needle` replaced by `with`.
pub fn replace_in(s: &Vec<char>, needle: &Vec<char>, with: &Vec<char>) -> (r: Vec<char>)
    ensures
        r@ == replace_all(s@, needle@, with@),
{
    let mut r: Vec<char> = Vec::new();
    let mut i: usize = 0;
    assert(s@.skip(0) =~= s@);
    assert(r@ + replace_all(s@, needle@, with@) =~= replace_all(s@, needle@, with@));
    if needle.len() == 0 {
        while i < s.len()
            invariant
                i <= s.len(),
                needle@.len() == 0,
                r@ + replace_all(s@.skip(i as int), needle@, with@) == replace_all(
                    s@,
                    needle@,
                    with@,
                ),
            decreases s.len() - i,
        {
            let ghost before = r@;
            let ghost rest = s@.skip(i as int);
            append_to(&mut r, with);
            r.push(s[i]);
            i += 1;
            assert(rest.skip(1) =~= s@.skip(i as int));
            assert(r@ + replace_all(s@.skip(i as int), needle@, with@) =~= before + replace_all(
                rest,
                needle@,
                with@,
            ));
        }
        let ghost before = r@;
        append_to(&mut r, with);
        assert(s@.skip(i as int).len() == 0);
        assert(r@ =~= before + replace_all(s@.skip(i as int), needle@, with@));
        return r;
    }
    while i < s.len()
        invariant
            i <= s.len(),
            needle@.len() > 0,
            r@ + replace_all(s@.skip(i as int), needle@, with@) == replace_all(
                s@,
                needle@,
                with@,
            ),
        decreases s.len() - i,
    {
        let ghost before = r@;
        let ghost rest = s@.skip(i as int);
        if matches_at(s, needle, i) {
            assert(rest.subrange(0, needle@.len() as int) =~= s@.subrange(
                i as int,
                i + needle@.len(),
            ));
            append_to(&mut r, with);
            i += needle.len();
            assert(rest.skip(needle@.len() as int) =~= s@.skip(i as int));
        } else {
            proof {
                if rest.len() >= needle@.len() {
                    assert(rest.subrange(0, needle@.len() as int) =~= s@.subrange(
                        i as int,
                        i + needle@.len(),
                    ));
                }
            }
            if s.len() - i < needle.len() {
                let tail: Vec<char> = slice_of(s, i, s.len());
                assert(tail@ =~= rest);
                append_to(&mut r, &tail);
                assert(r@ =~= before + replace_all(rest, needle@, with@));
                return r;
            }
            r.push(s[i]);
            i += 1;
            assert(rest.skip(1) =~= s@.skip(i as int));
        }
        assert(r@ + replace_all(s@.skip(i as int), needle@, with@) =~= before + replace_all(
            rest,
            needle@,
            with@,
        ));
    }
    assert(s@.skip(i as int).len() == 0);
    assert(r@ =~= r@ + replace_all(s@.skip(i as int), needle@, with@));
    r
}

/// `s` without leading and trailing whitespace.
pub fn trim_in(s: &Vec<char>) -> (r: Vec<char>)
    ensures
        r@ == trim(s@),
{
    let mut a: usize = 0;
    assert(s@.skip(0) =~= s@);
    while a < s.len() && char_is_whitespace(s[a])
        invariant
            a <= s.len(),
            trim_start(s@.skip(a as int)) == trim_start(s@),
        decreases s.len() - a,
    {
        assert(s@.skip(a as int).skip(1) =~= s@.skip(a + 1));
        a += 1;
    }
    let ghost kept = s@.skip(a as int);
    assert(trim_start(s@) == kept);
    let mut b: usize = s.len();
    while b > a && char_is_whitespace(s[b - 1])
        invariant
            a <= b <= s.len(),
            kept == s@.skip(a as int),
            trim_end(s@.subrange(a as int, b as int)) == trim_end(kept),
        decreases b - a,
    {
        assert(s@.subrange(a as int, b as int).drop_last() =~= s@.subrange(a as int, b - 1));
        b -= 1;
    }
    assert(s@.subrange(a as int, s@.len() as int) =~= kept);
    slice_of(s, a, b)
}

/// The lowercase form of `s`.
pub fn lowercase_in(s: &Vec<char>) -> (r: Vec<char>)
    ensures
        r@ == lowercase_of(s@),
{
    let whole: String = string_of(s);
    let lower: String = whole.as_str().to_lowercase();
    chars_of(lower.as_str())
}

/// The pieces of `s` between separators, as far as they are known once `s`
/// was read to its end: the pieces that are closed and not empty, and the
/// piece that is still open.
pub open spec fn pieces(s: Seq<char>, sep: char) -> (Seq<Seq<char>>, Seq<char>)
    decreases s.len(),
{
    if s.len() == 0 {
        (Seq::empty(), Seq::empty())
    } else {
        let (closed, open) = pieces(s.drop_last(), sep);
        if s.last() == sep {
            (
                if open.len() > 0 {
                    closed.push(open)
                } else {
                    closed
                },
                Seq::empty(),
            )
        } else {
            (closed, open.push(s.last()))
        }
    }
}

/// The entries of a list written with `sep` between them: the pieces of `s`
/// between separators that are not empty, in order.
pub open spec fn listed(s: Seq<char>, sep: char) -> Seq<Seq<char>> {
    let (closed, open) = pieces(s, sep);
    if open.len() > 0 {
        closed.push(open)
    } else {
        closed
    }
}

/// The entries of a list written with `sep` between them.
pub fn split_list(s: &str, sep: char) -> (r: Vec<String>)
    ensures
        text_views(r@) == listed(s@, sep),
{
    let chars: Vec<char> = chars_of(s);
    let mut closed: Vec<String> = Vec::new();
    let mut open: Vec<char> = Vec::new();
    let mut i: usize = 0;
    assert(chars@.take(0) =~= Seq::<char>::empty());
    assert(text_views(closed@) =~= Seq::<Seq<char>>::empty());
    while i < chars.len()
        invariant
            i <= chars.len(),
            (text_views(closed@), open@) == pieces(chars@.take(i as int), sep),
        decreases chars.len() - i,
    {
        let ghost before = text_views(closed@);
        let c: char = chars[i];
        assert(chars@.take(i + 1).drop_last() =~= chars@.take(i as int));
        if c == sep {
            if open.len() > 0 {
                closed.push(string_of(&open));
                assert(text_views(closed@) =~= before.push(open@));
            }
            open = Vec::new();
        } else {
            open.push(c);
        }
        i += 1;
    }
    assert(chars@.take(chars@.len() as int) =~= chars@);
    if open.len() > 0 {
        let ghost before = text_views(closed@);
        closed.push(string_of(&open));
        assert(text_views(closed@) =~= before.push(open@));
    }
    closed
}

/// All pieces of `s` between separators, the empty ones too: one more than
/// there are separators.
pub open spec fn split(s: Seq<char>, sep: char) -> Seq<Seq<char>>
    decreases s.len(),
{
    if s.len() == 0 {
        seq![Seq::empty()]
    } else {
        let before = split(s.drop_last(), sep);
        if s.last() == sep {
            before.push(Seq::empty())
        } else {
            before.drop_last().push(before.last().push(s.last()))
        }
    }
}

/// All pieces of `s` between separators.
pub fn split_all(s: &str, sep: char) -> (r: Vec<String>)
    ensures
        text_views(r@) == split(s@, sep),
{
    let chars: Vec<char> = chars_of(s);
    let mut closed: Vec<String> = Vec::new();
    let mut open: Vec<char> = Vec::new();
    let mut i: usize = 0;
    assert(chars@.take(0) =~= Seq::<char>::empty());
    assert(text_views(closed@).push(open@) =~= seq![Seq::<char>::empty()]);
    while i < chars.len()
        invariant
            i <= chars.len(),
            text_views(closed@).push(open@) == split(chars@.take(i as int), sep),
        decreases chars.len() - i,
    {
        let ghost before = text_views(closed@);
        let ghost piece = open@;
        let c: char = chars[i];
        assert(chars@.take(i + 1).drop_last() =~= chars@.take(i as int));
        assert(before.push(piece).drop_last() =~= before);
        if c == sep {
            closed.push(string_of(&open));
            open = Vec::new();
            assert(text_views(closed@) =~= before.push(piece));
        } else {
            open.push(c);
        }
        i += 1;
    }
    assert(chars@.take(chars@.len() as int) =~= chars@);
    let ghost before = text_views(closed@);
    closed.push(string_of(&open));
    assert(text_views(closed@) =~= before.push(open@));
    closed
}

/// `s` begins with `prefix`.
pub open spec fn starts_with(s: Seq<char>, prefix: Seq<char>) -> bool {
    occurs_at(s, prefix, 0)
}

/// `s` ends with `suffix`.
pub open spec fn ends_with(s: Seq<char>, suffix: Seq<char>) -> bool {
    suffix.len() <= s.len() && occurs_at(s, suffix, s.len() - suffix.len())
}

/// Whether `s` ends with `suffix`.
pub fn has_suffix(s: &Vec<char>, suffix: &Vec<char>) -> (r: bool)
    ensures
        r == ends_with(s@, suffix@),
{
    if suffix.len() > s.len() {
        return false;
    }
    matches_at(s, suffix, s.len() - suffix.len())
}

/// The texts of a list written one after the other, with `sep` between
/// them.
pub open spec fn joined(texts: Seq<Seq<char>>, sep: Seq<char>) -> Seq<char>
    decreases texts.len(),
{
    if texts.len() == 0 {
        Seq::empty()
    } else if texts.len() == 1 {
        texts[0]
    } else {
        joined(texts.drop_last(), sep) + sep + texts.last()
    }
}

} // verus!
