//! Texts: comparing them, and reading string literals.

use vstd::prelude::*;
use crate::error::DecodeError;
use crate::error::DecodeErrorView;

verus! {

/// Whether two texts hold the same characters.
pub fn same_text(a: &str, b: &str) -> (same: bool)
    ensures
        same == (a@ == b@),
{
    a.to_owned() == b.to_owned()
}

/// The text between the quotes of a string literal: `Some` exactly when the
/// literal starts with a `"` and ends with another one.
pub open spec fn unquoted(literal: Seq<char>) -> Option<Seq<char>> {
    if literal.len() >= 2 && literal.first() == '"' && literal.last() == '"' {
        Some(literal.subrange(1, literal.len() - 1))
    } else {
        None
    }
}

/// The text of a string literal, or the fault of a value that is none.
pub open spec fn literal(value: Seq<char>) -> Result<Seq<char>, DecodeErrorView> {
    match unquoted(value) {
        Some(text) => Ok(text),
        None => Err(DecodeErrorView::UnquotedString),
    }
}

/// A text enclosed in double quotes.
pub open spec fn quoted(text: Seq<char>) -> Seq<char> {
    seq!['"'] + text + seq!['"']
}

/// Strips the double quotes that enclose a string literal.
pub fn parse_string(s: &str) -> (text: Result<String, DecodeError>)
    ensures
        match literal(s@) {
            Ok(inner) => text matches Ok(t) && t@ == inner,
            Err(error) => text matches Err(e) && e@ == error,
        },
{
    let n: usize = s.unicode_len();
    if n >= 2 && s.get_char(0) == '"' && s.get_char(n - 1) == '"' {
        Ok(s.substring_char(1, n - 1).to_owned())
    } else {
        Err(DecodeError::UnquotedString)
    }
}

/// Quoting a text and reading it back gives the text.
pub proof fn lemma_unquoted_quoted(text: Seq<char>)
    ensures
        unquoted(quoted(text)) == Some(text),
{
}

} // verus!
