//! The text that is typed into the frontmost app.
use vstd::prelude::*;
use crate::text::{is_ws, is_whitespace, chars_of, push_char};

verus! {

/// `text` with a space after it, so that back-to-back dictations do not run their words
/// together; unchanged when empty or already ending in white space.
pub open spec fn with_trailing_space_spec(text: Seq<char>) -> Seq<char> {
    if text.len() == 0 || is_ws(text.last()) {
        text
    } else {
        text.push(' ')
    }
}

/// The text to type for `text`.
pub fn with_trailing_space(text: &str) -> (r: String)
    ensures
        r@ == with_trailing_space_spec(text@),
{
    let cs = chars_of(text);
    let mut r = String::from_str(text);
    if cs.len() > 0 && !is_whitespace(cs[cs.len() - 1]) {
        push_char(&mut r, ' ');
    }
    r
}

/// Typing the same text twice adds no second space: the text to type for a text that
/// is already to be typed is the text itself.
pub proof fn law_trailing_space_idempotent(text: Seq<char>)
    ensures
        with_trailing_space_spec(with_trailing_space_spec(text)) == with_trailing_space_spec(text),
{
    if !(text.len() == 0 || is_ws(text.last())) {
        assert(text.push(' ').last() == ' ');
        assert(is_ws(' ')) by {
            assert((' ' as u32) == 0x20);
        }
    }
}

} // verus!
