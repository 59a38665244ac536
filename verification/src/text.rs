//! Words and numbers of a command line.

use vstd::prelude::*;

verus! {

/// The lower-case form of `text`.
pub uninterp spec fn lowercase_of(text: Seq<char>) -> Seq<char>;

/// `str::to_lowercase` of the standard library: the lower-case form of `text`
/// by the Unicode tables. The contract names the result.
#[verifier::external_body]
fn str_to_lowercase(text: &str) -> (lower: String)
    ensures
        lower@ == lowercase_of(text@),
{
    text.to_lowercase()
}

/// The equality of `str` in the standard library: whether two texts hold the
/// same characters.
#[verifier::external_body]
fn str_eq(a: &str, b: &str) -> (equal: bool)
    ensures
        equal == (a@ == b@),
{
    a == b
}

/// The lower-case form of `text`.
pub fn lowercase(text: &str) -> (lower: String)
    ensures
        lower@ == lowercase_of(text@),
{
    str_to_lowercase(text)
}

/// Whether two texts hold the same characters.
pub fn same_text(a: &str, b: &str) -> (equal: bool)
    ensures
        equal == (a@ == b@),
{
    str_eq(a, b)
}

/// The views of the words of a line.
pub open spec fn words_of(args: Seq<String>) -> Seq<Seq<char>> {
    Seq::new(args.len(), |i: int| args[i]@)
}

/// The index of the first word that equals `word`, if there is one.
pub open spec fn first_index_of(words: Seq<Seq<char>>, word: Seq<char>) -> Option<int>
    decreases words.len(),
{
    if words.len() == 0 {
        None
    } else if words[0] == word {
        Some(0int)
    } else {
        match first_index_of(words.skip(1), word) {
            Some(i) => Some(i + 1),
            None => None,
        }
    }
}

/// The index `found` is the first at which `word` stands in `words`, or it is
/// absent from them all.
pub proof fn lemma_first_index_of(words: Seq<Seq<char>>, word: Seq<char>, found: Option<int>)
    requires
        match found {
            Some(i) => 0 <= i < words.len() && words[i] == word && forall|j: int|
                0 <= j < i ==> words[j] != word,
            None => forall|j: int| 0 <= j < words.len() ==> words[j] != word,
        },
    ensures
        first_index_of(words, word) == found,
    decreases words.len(),
{
    if words.len() == 0 {
    } else if words[0] == word {
    } else {
        let rest = words.skip(1);
        let shifted: Option<int> = match found {
            Some(i) => Some(i - 1),
            None => None,
        };
        assert forall|j: int| 0 <= j < rest.len() implies rest[j] == words[j + 1] by {}
        lemma_first_index_of(rest, word, shifted);
    }
}

/// The index of the first of `args` that equals `word`, if there is one.
pub fn find_word(args: &[String], word: &str) -> (found: Option<usize>)
    ensures
        match found {
            Some(i) => first_index_of(words_of(args@), word@) == Some(i as int) && i < args@.len(),
            None => first_index_of(words_of(args@), word@) is None,
        },
{
    let mut i: usize = 0;
    while i < args.len()
        invariant
            i <= args.len(),
            forall|j: int| 0 <= j < i ==> words_of(args@)[j] != word@,
        decreases args.len() - i,
    {
        if same_text(args[i].as_str(), word) {
            proof {
                assert(words_of(args@)[i as int] == word@);
                lemma_first_index_of(words_of(args@), word@, Some(i as int));
            }
            return Some(i);
        }
        i = i + 1;
    }
    proof {
        lemma_first_index_of(words_of(args@), word@, None);
    }
    None
}

/// The words from `from` up to `to`, with one space between neighbours.
pub open spec fn joined(words: Seq<Seq<char>>, from: int, to: int) -> Seq<char>
    decreases to - from,
{
    if from >= to {
        Seq::<char>::empty()
    } else if from + 1 == to {
        words[from]
    } else {
        joined(words, from, to - 1) + seq![' '] + words[to - 1]
    }
}

/// The words of `args` from `from` up to `to`, with one space between
/// neighbours.
pub fn join_words(args: &[String], from: usize, to: usize) -> (text: String)
    requires
        from <= to <= args@.len(),
    ensures
        text@ == joined(words_of(args@), from as int, to as int),
{
    let mut text = String::new();
    let mut i: usize = from;
    while i < to
        invariant
            from <= i <= to,
            to <= args@.len(),
            text@ == joined(words_of(args@), from as int, i as int),
        decreases to - i,
    {
        if i > from {
            text.append(" ");
            proof {
                reveal_strlit(" ");
                assert(" "@ == seq![' ']);
            }
        }
        text.append(args[i].as_str());
        assert(words_of(args@)[i as int] == args@[i as int]@);
        i = i + 1;
    }
    text
}

/// Whether `c` is a decimal digit.
pub open spec fn is_digit(c: char) -> bool {
    '0' <= c <= '9'
}

/// The number that the digits of `digits` spell.
pub open spec fn decimal_value(digits: Seq<char>) -> int
    decreases digits.len(),
{
    if digits.len() == 0 {
        0
    } else {
        10 * decimal_value(digits.drop_last()) + (digits.last() as int - '0' as int)
    }
}

/// Whether `digits` holds at least one character and only decimal digits.
pub open spec fn is_number(digits: Seq<char>) -> bool {
    digits.len() > 0 && forall|i: int| 0 <= i < digits.len() ==> is_digit(#[trigger] digits[i])
}

/// The number that `text` spells: decimal digits, after a `+` or nothing.
pub open spec fn unsigned_of(text: Seq<char>) -> Option<int> {
    let digits = if text.len() > 0 && text[0] == '+' {
        text.skip(1)
    } else {
        text
    };
    if is_number(digits) {
        Some(decimal_value(digits))
    } else {
        None
    }
}

/// The number that `text` spells: decimal digits, after a `+`, a `-` or
/// nothing.
pub open spec fn signed_of(text: Seq<char>) -> Option<int> {
    if text.len() > 0 && text[0] == '-' {
        if is_number(text.skip(1)) {
            Some(-decimal_value(text.skip(1)))
        } else {
            None
        }
    } else {
        unsigned_of(text)
    }
}

/// The digits of a number spell no less than any of their beginnings.
proof fn lemma_decimal_grows(digits: Seq<char>, n: int)
    requires
        0 <= n <= digits.len(),
        forall|i: int| 0 <= i < digits.len() ==> is_digit(#[trigger] digits[i]),
    ensures
        0 <= decimal_value(digits.take(n)) <= decimal_value(digits),
    decreases digits.len() - n,
{
    if n == digits.len() {
        assert(digits.take(n) == digits);
        lemma_decimal_nonnegative(digits);
    } else {
        lemma_decimal_grows(digits, n + 1);
        let longer = digits.take(n + 1);
        assert(longer.drop_last() == digits.take(n));
        assert(is_digit(digits[n]));
        assert(longer.last() == digits[n]);
        lemma_decimal_nonnegative(digits.take(n));
    }
}

/// Digits spell a number that is not negative.
proof fn lemma_decimal_nonnegative(digits: Seq<char>)
    requires
        forall|i: int| 0 <= i < digits.len() ==> is_digit(#[trigger] digits[i]),
    ensures
        0 <= decimal_value(digits),
    decreases digits.len(),
{
    if digits.len() > 0 {
        assert(is_digit(digits[digits.len() - 1]));
        lemma_decimal_nonnegative(digits.drop_last());
    }
}

/// The number that the characters of `text` from `from` on spell, where they
/// are decimal digits, at least one, and the number is at most `limit`.
fn parse_digits(text: &str, from: usize, limit: u64) -> (value: Option<u64>)
    requires
        from <= text@.len(),
    ensures
        value == if is_number(text@.skip(from as int)) && decimal_value(text@.skip(from as int))
            <= limit {
            Some(decimal_value(text@.skip(from as int)) as u64)
        } else {
            None
        },
        value matches Some(n) ==> n <= limit && n == decimal_value(text@.skip(from as int)),
{
    let length = text.unicode_len();
    if from >= length {
        return None;
    }
    let ghost digits = text@.skip(from as int);
    let mut value: u64 = 0;
    let mut i: usize = from;
    while i < length
        invariant
            from <= i <= length,
            length == text@.len(),
            digits == text@.skip(from as int),
            forall|j: int| 0 <= j < i - from ==> is_digit(#[trigger] digits[j]),
            value == decimal_value(digits.take(i - from)),
            value <= limit,
        decreases length - i,
    {
        let c = text.get_char(i);
        assert(c == digits[i - from]);
        if !('0' <= c && c <= '9') {
            return None;
        }
        let digit: u64 = c as u64 - '0' as u64;
        proof {
            let longer = digits.take(i - from + 1);
            assert(longer.drop_last() == digits.take(i - from));
            assert(longer.last() == c);
        }
        if digit > limit || value > (limit - digit) / 10 {
            proof {
                if is_number(digits) {
                    lemma_decimal_grows(digits, i - from + 1);
                }
            }
            return None;
        }
        value = 10 * value + digit;
        i = i + 1;
    }
    assert(digits.take(length - from) == digits);
    Some(value)
}

/// The number that `text` spells, where it spells one that a `u64` holds.
pub fn parse_u64(text: &str) -> (value: Option<u64>)
    ensures
        value == match unsigned_of(text@) {
            Some(n) => if n <= u64::MAX {
                Some(n as u64)
            } else {
                None
            },
            None => None,
        },
{
    let length = text.unicode_len();
    if length > 0 && text.get_char(0) == '+' {
        parse_digits(text, 1, u64::MAX)
    } else {
        assert(text@.skip(0) == text@);
        parse_digits(text, 0, u64::MAX)
    }
}

/// The number that `text` spells, where it spells one that an `i64` holds.
pub fn parse_i64(text: &str) -> (value: Option<i64>)
    ensures
        value == match signed_of(text@) {
            Some(n) => if i64::MIN <= n <= i64::MAX {
                Some(n as i64)
            } else {
                None
            },
            None => None,
        },
{
    let length = text.unicode_len();
    if length > 0 && text.get_char(0) == '-' {
        match parse_digits(text, 1, 9_223_372_036_854_775_808) {
            Some(n) => {
                if n == 9_223_372_036_854_775_808 {
                    Some(i64::MIN)
                } else {
                    Some(-(n as i64))
                }
            },
            None => None,
        }
    } else if length > 0 && text.get_char(0) == '+' {
        match parse_digits(text, 1, 9_223_372_036_854_775_807) {
            Some(n) => Some(n as i64),
            None => None,
        }
    } else {
        assert(text@.skip(0) == text@);
        match parse_digits(text, 0, 9_223_372_036_854_775_807) {
            Some(n) => Some(n as i64),
            None => None,
        }
    }
}

} // verus!
