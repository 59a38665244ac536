//! Small helpers on text.

use vstd::prelude::*;

verus! {

/// The upper-case form of `c`, which may be longer than one character.
pub uninterp spec fn uppercase_of(c: char) -> Seq<char>;

/// `char::to_uppercase` of the standard library, collected: the upper-case
/// form of `c` by the Unicode tables. The contract names the result.
#[verifier::external_body]
fn char_to_uppercase(c: char) -> (upper: String)
    ensures
        upper@ == uppercase_of(c),
{
    c.to_uppercase().collect()
}

/// `input` with `replacement` in place of its first character; the empty
/// text where `input` is empty.
pub fn with_first_replaced(input: &str, replacement: &str) -> (text: String)
    ensures
        text@ == if input@.len() == 0 {
            Seq::<char>::empty()
        } else {
            replacement@ + input@.skip(1)
        },
{
    let length = input.unicode_len();
    if length == 0 {
        String::new()
    } else {
        let rest = input.substring_char(1, length);
        assert(input@.subrange(1, length as int) == input@.skip(1));
        String::from_str(replacement).concat(rest)
    }
}

/// `input` with its first character in upper case.
pub fn capitalize_first_letter(input: &str) -> (text: String)
    ensures
        text@ == if input@.len() == 0 {
            Seq::<char>::empty()
        } else {
            uppercase_of(input@[0]) + input@.skip(1)
        },
{
    if input.unicode_len() == 0 {
        String::new()
    } else {
        let upper = char_to_uppercase(input.get_char(0));
        with_first_replaced(input, upper.as_str())
    }
}

} // verus!
