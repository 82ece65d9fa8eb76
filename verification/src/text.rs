//! Work on the characters of strings.

use vstd::prelude::*;

verus! {

/// Taken on trust of `String::push` of the standard library: it appends
/// the given character to the end of the string and leaves what was there as
/// it was.
pub assume_specification[ std::string::String::push ](text: &mut std::string::String, ch: char)
    ensures
        final(text)@ == old(text)@.push(ch),
;

/// Whether `c` is white space: a character with the Unicode property
/// White_Space.
pub open spec fn is_whitespace_model(c: char) -> bool {
    let code = c as u32;
    ||| 0x09 <= code <= 0x0D
    ||| code == 0x20
    ||| code == 0x85
    ||| code == 0xA0
    ||| code == 0x1680
    ||| 0x2000 <= code <= 0x200A
    ||| code == 0x2028
    ||| code == 0x2029
    ||| code == 0x202F
    ||| code == 0x205F
    ||| code == 0x3000
}

/// Whether `c` is white space.
pub fn is_whitespace(c: char) -> (white: bool)
    ensures
        white == is_whitespace_model(c),
{
    let code: u32 = c as u32;
    (0x09 <= code && code <= 0x0D) || code == 0x20 || code == 0x85 || code == 0xA0 || code
        == 0x1680 || (0x2000 <= code && code <= 0x200A) || code == 0x2028 || code == 0x2029
        || code == 0x202F || code == 0x205F || code == 0x3000
}

/// Whether `c` is one of the ten decimal digits.
pub open spec fn is_digit_model(c: char) -> bool {
    '0' <= c <= '9'
}

/// Whether `c` is one of the ten decimal digits.
pub fn is_digit(c: char) -> (digit: bool)
    ensures
        digit == is_digit_model(c),
{
    '0' <= c && c <= '9'
}

/// Whether `left` comes before `right` in the order of strings: character
/// by character, by code point, a proper prefix before what it begins.
pub open spec fn text_precedes(left: Seq<char>, right: Seq<char>) -> bool
    decreases left.len(),
{
    if right.len() == 0 {
        false
    } else if left.len() == 0 {
        true
    } else if left[0] != right[0] {
        (left[0] as u32) < (right[0] as u32)
    } else {
        text_precedes(left.drop_first(), right.drop_first())
    }
}

/// The characters of `text`, in order.
pub fn characters(text: &str) -> (chars: Vec<char>)
    ensures
        chars@ == text@,
{
    let mut chars: Vec<char> = Vec::new();
    for c in rest: text.chars()
        invariant
            rest.seq() == text@,
            chars@ == text@.subrange(0, rest.index() as int),
    {
        chars.push(c);
    }
    chars
}

/// The characters of `chars` from `from` up to `to`, as a string.
pub fn text_between(chars: &Vec<char>, from: usize, to: usize) -> (text: String)
    requires
        from <= to <= chars.len(),
    ensures
        text@ == chars@.subrange(from as int, to as int),
{
    let mut text = String::new();
    let mut i: usize = from;
    while i < to
        invariant
            from <= i <= to <= chars.len(),
            text@ == chars@.subrange(from as int, i as int),
        decreases to - i,
    {
        text.push(chars[i]);
        assert(chars@.subrange(from as int, i + 1) == chars@.subrange(from as int, i as int).push(
            chars@[i as int],
        ));
        i = i + 1;
    }
    text
}

/// Whether `left` comes before `right` in the order of strings, which is
/// the order in which the standard library holds them.
pub fn precedes(left: &str, right: &str) -> (before: bool)
    ensures
        before == text_precedes(left@, right@),
{
    let left_chars = characters(left);
    let right_chars = characters(right);
    let mut i: usize = 0;
    proof {
        assert(left@.subrange(0, left@.len() as int) == left@);
        assert(right@.subrange(0, right@.len() as int) == right@);
    }
    while i < left_chars.len() && i < right_chars.len()
        invariant
            left_chars@ == left@,
            right_chars@ == right@,
            i <= left@.len(),
            i <= right@.len(),
            text_precedes(left@, right@) == text_precedes(
                left@.subrange(i as int, left@.len() as int),
                right@.subrange(i as int, right@.len() as int),
            ),
        decreases left@.len() - i,
    {
        let ghost left_rest = left@.subrange(i as int, left@.len() as int);
        let ghost right_rest = right@.subrange(i as int, right@.len() as int);
        assert(left_rest[0] == left@[i as int]);
        assert(right_rest[0] == right@[i as int]);
        assert(left_rest.drop_first() == left@.subrange(i + 1, left@.len() as int));
        assert(right_rest.drop_first() == right@.subrange(i + 1, right@.len() as int));
        let l: char = left_chars[i];
        let r: char = right_chars[i];
        if l != r {
            return (l as u32) < (r as u32);
        }
        i = i + 1;
    }
    i < right_chars.len()
}

} // verus!
