//! The casing styles and the conversion of a text into one of them.

use vstd::prelude::*;
use vstd::std_specs::convert::TryFromSpecImpl;
use convert_case::Case as Style;
use crate::error::DecodeError;
use crate::text::quoted;
use crate::text::same_text;

verus! {

/// A casing style. The examples show what becomes of `My variable NAME`.
#[derive(Debug, Clone, Copy, PartialEq, Eq, Structural)]
pub enum Case {
    /// Words in upper case, with spaces between them: `MY VARIABLE NAME`.
    Upper,
    /// Words in lower case, with spaces between them: `my variable name`.
    Lower,
    /// Words with a capital first letter, with spaces between them: `My Variable Name`.
    Title,
    /// Words in upper case but for the first letter, with spaces between them:
    /// `mY vARIABLE nAME`.
    Toggle,
    /// Words with a capital first letter, but for the first word, and nothing
    /// between them: `myVariableName`.
    Camel,
    /// Words with a capital first letter and nothing between them:
    /// `MyVariableName`.
    Pascal,
    /// Another name of [`Case::Pascal`].
    UpperCamel,
    /// Words in lower case, with `_` between them: `my_variable_name`.
    Snake,
    /// Words in upper case, with `_` between them: `MY_VARIABLE_NAME`.
    UpperSnake,
    /// Another name of [`Case::UpperSnake`].
    ScreamingSnake,
    /// Words in lower case, with `-` between them: `my-variable-name`.
    Kebab,
    /// Words in upper case, with `-` between them: `MY-VARIABLE-NAME`.
    Cobol,
    /// Another name of [`Case::Cobol`].
    UpperKebab,
    /// Words with a capital first letter, with `-` between them:
    /// `My-Variable-Name`.
    Train,
    /// Lower case, with nothing between the words: `myvariablename`.
    Flat,
    /// Upper case, with nothing between the words: `MYVARIABLENAME`.
    UpperFlat,
    /// Letters in lower and upper case by turns, with spaces between the words:
    /// `mY vArIaBlE nAmE`.
    Alternating,
}

/// The text that `convert_case` makes of `text` in the style `case`: what
/// `Casing::to_case` returns. It depends on the style and the text alone.
pub uninterp spec fn cased(case: Case, text: Seq<char>) -> Seq<char>;

/// Calls `convert_case::Casing::to_case` on `text`, with the
/// `convert_case::Case` of the same name as `case`. Nothing is proved of the
/// call: the contract gives its result the name [`cased`].
#[verifier::external_body]
fn convert(case: Case, text: &str) -> (out: String)
    ensures
        out@ == cased(case, text@),
{
    let style = match case {
        Case::Upper => Style::Upper, Case::Lower => Style::Lower,
        Case::Title => Style::Title, Case::Toggle => Style::Toggle,
        Case::Camel => Style::Camel, Case::Pascal => Style::Pascal,
        Case::UpperCamel => Style::UpperCamel, Case::Snake => Style::Snake,
        Case::UpperSnake => Style::UpperSnake,
        Case::ScreamingSnake => Style::ScreamingSnake,
        Case::Kebab => Style::Kebab, Case::Cobol => Style::Cobol,
        Case::UpperKebab => Style::UpperKebab, Case::Train => Style::Train,
        Case::Flat => Style::Flat, Case::UpperFlat => Style::UpperFlat,
        Case::Alternating => Style::Alternating,
    };
    convert_case::Casing::to_case(&text, style)
}

impl Case {
    /// The name of the style, as annotations write it between quotes.
    pub open spec fn name(self) -> Seq<char> {
        match self {
            Case::Upper => "upper"@,
            Case::Lower => "lower"@,
            Case::Title => "title"@,
            Case::Toggle => "toggle"@,
            Case::Camel => "camel"@,
            Case::Pascal => "pascal"@,
            Case::UpperCamel => "upper_camel"@,
            Case::Snake => "snake"@,
            Case::UpperSnake => "upper_snake"@,
            Case::ScreamingSnake => "screaming_snake"@,
            Case::Kebab => "kebab"@,
            Case::Cobol => "cobol"@,
            Case::UpperKebab => "upper_kebab"@,
            Case::Train => "train"@,
            Case::Flat => "flat"@,
            Case::UpperFlat => "upper_flat"@,
            Case::Alternating => "alternating"@,
        }
    }

    /// The style that a quoted name stands for, if it stands for one. The
    /// quotes belong to the name, and the match is exact.
    pub open spec fn named(literal: Seq<char>) -> Option<Case> {
        if literal == "\"upper\""@ {
            Some(Case::Upper)
        } else if literal == "\"lower\""@ {
            Some(Case::Lower)
        } else if literal == "\"title\""@ {
            Some(Case::Title)
        } else if literal == "\"toggle\""@ {
            Some(Case::Toggle)
        } else if literal == "\"camel\""@ {
            Some(Case::Camel)
        } else if literal == "\"pascal\""@ {
            Some(Case::Pascal)
        } else if literal == "\"upper_camel\""@ {
            Some(Case::UpperCamel)
        } else if literal == "\"snake\""@ {
            Some(Case::Snake)
        } else if literal == "\"upper_snake\""@ {
            Some(Case::UpperSnake)
        } else if literal == "\"screaming_snake\""@ {
            Some(Case::ScreamingSnake)
        } else if literal == "\"kebab\""@ {
            Some(Case::Kebab)
        } else if literal == "\"cobol\""@ {
            Some(Case::Cobol)
        } else if literal == "\"upper_kebab\""@ {
            Some(Case::UpperKebab)
        } else if literal == "\"train\""@ {
            Some(Case::Train)
        } else if literal == "\"flat\""@ {
            Some(Case::Flat)
        } else if literal == "\"upper_flat\""@ {
            Some(Case::UpperFlat)
        } else if literal == "\"alternating\""@ {
            Some(Case::Alternating)
        } else {
            None
        }
    }

    /// The name of the style.
    pub fn to_string(&self) -> (name: String)
        ensures
            name@ == self.name(),
    {
        match self {
            Case::Upper => "upper".to_owned(),
            Case::Lower => "lower".to_owned(),
            Case::Title => "title".to_owned(),
            Case::Toggle => "toggle".to_owned(),
            Case::Camel => "camel".to_owned(),
            Case::Pascal => "pascal".to_owned(),
            Case::UpperCamel => "upper_camel".to_owned(),
            Case::Snake => "snake".to_owned(),
            Case::UpperSnake => "upper_snake".to_owned(),
            Case::ScreamingSnake => "screaming_snake".to_owned(),
            Case::Kebab => "kebab".to_owned(),
            Case::Cobol => "cobol".to_owned(),
            Case::UpperKebab => "upper_kebab".to_owned(),
            Case::Train => "train".to_owned(),
            Case::Flat => "flat".to_owned(),
            Case::UpperFlat => "upper_flat".to_owned(),
            Case::Alternating => "alternating".to_owned(),
        }
    }

    /// Converts `s` into this style.
    pub fn to_case(&self, s: &str) -> (out: String)
        ensures
            out@ == cased(*self, s@),
    {
        convert(*self, s)
    }
}

impl TryFrom<String> for Case {
    type Error = DecodeError;

    /// Reads a style from its quoted name.
    fn try_from(value: String) -> (case: Result<Case, DecodeError>)
        ensures
            case == match Case::named(value@) {
                Some(style) => Ok::<Case, DecodeError>(style),
                None => Err(DecodeError::UnknownCaseStyle),
            },
    {
        let name = value.as_str();
        if same_text(name, "\"upper\"") {
            Ok(Case::Upper)
        } else if same_text(name, "\"lower\"") {
            Ok(Case::Lower)
        } else if same_text(name, "\"title\"") {
            Ok(Case::Title)
        } else if same_text(name, "\"toggle\"") {
            Ok(Case::Toggle)
        } else if same_text(name, "\"camel\"") {
            Ok(Case::Camel)
        } else if same_text(name, "\"pascal\"") {
            Ok(Case::Pascal)
        } else if same_text(name, "\"upper_camel\"") {
            Ok(Case::UpperCamel)
        } else if same_text(name, "\"snake\"") {
            Ok(Case::Snake)
        } else if same_text(name, "\"upper_snake\"") {
            Ok(Case::UpperSnake)
        } else if same_text(name, "\"screaming_snake\"") {
            Ok(Case::ScreamingSnake)
        } else if same_text(name, "\"kebab\"") {
            Ok(Case::Kebab)
        } else if same_text(name, "\"cobol\"") {
            Ok(Case::Cobol)
        } else if same_text(name, "\"upper_kebab\"") {
            Ok(Case::UpperKebab)
        } else if same_text(name, "\"train\"") {
            Ok(Case::Train)
        } else if same_text(name, "\"flat\"") {
            Ok(Case::Flat)
        } else if same_text(name, "\"upper_flat\"") {
            Ok(Case::UpperFlat)
        } else if same_text(name, "\"alternating\"") {
            Ok(Case::Alternating)
        } else {
            Err(DecodeError::UnknownCaseStyle)
        }
    }
}

impl TryFromSpecImpl<String> for Case {
    open spec fn obeys_try_from_spec() -> bool {
        true
    }

    /// The style that a quoted name stands for; a fault where it stands for
    /// none.
    open spec fn try_from_spec(value: String) -> Result<Case, DecodeError> {
        match Case::named(value@) {
            Some(case) => Ok(case),
            None => Err(DecodeError::UnknownCaseStyle),
        }
    }
}

impl TryFrom<(String, String)> for Case {
    type Error = DecodeError;

    /// Reads a style from a `case = "name"` record.
    fn try_from(value: (String, String)) -> (case: Result<Case, DecodeError>)
        ensures
            case == if value.0@ == "case"@ {
                match Case::named(value.1@) {
                    Some(style) => Ok::<Case, DecodeError>(style),
                    None => Err(DecodeError::UnknownCaseStyle),
                }
            } else {
                Err(DecodeError::NotCase)
            },
    {
        if same_text(value.0.as_str(), "case") {
            Case::try_from(value.1)
        } else {
            Err(DecodeError::NotCase)
        }
    }
}

impl TryFromSpecImpl<(String, String)> for Case {
    open spec fn obeys_try_from_spec() -> bool {
        true
    }

    /// The style that a record stands for: its key is `case`, and its value
    /// the quoted name of the style.
    open spec fn try_from_spec(value: (String, String)) -> Result<Case, DecodeError> {
        if value.0@ == "case"@ {
            match Case::named(value.1@) {
                Some(case) => Ok(case),
                None => Err(DecodeError::UnknownCaseStyle),
            }
        } else {
            Err(DecodeError::NotCase)
        }
    }
}

/// What tells the quoted names of the styles apart: the length and three of
/// the characters.
spec fn mark(literal: Seq<char>) -> (nat, char, char, char) {
    (literal.len(), literal[1], literal[2], if literal.len() > 7 { literal[7] } else { ' ' })
}

/// The name of a style in quotes is the literal that stands for it.
pub proof fn lemma_quoted_name(case: Case)
    ensures
        Case::named(quoted(case.name())) == Some(case),
{
    reveal_strlit("\"upper\"");
    assert(mark("\"upper\""@) == (7nat, 'u', 'p', ' '));
    reveal_strlit("\"lower\"");
    assert(mark("\"lower\""@) == (7nat, 'l', 'o', ' '));
    reveal_strlit("\"title\"");
    assert(mark("\"title\""@) == (7nat, 't', 'i', ' '));
    reveal_strlit("\"toggle\"");
    assert(mark("\"toggle\""@) == (8nat, 't', 'o', '\"'));
    reveal_strlit("\"camel\"");
    assert(mark("\"camel\""@) == (7nat, 'c', 'a', ' '));
    reveal_strlit("\"pascal\"");
    assert(mark("\"pascal\""@) == (8nat, 'p', 'a', '\"'));
    reveal_strlit("\"upper_camel\"");
    assert(mark("\"upper_camel\""@) == (13nat, 'u', 'p', 'c'));
    reveal_strlit("\"snake\"");
    assert(mark("\"snake\""@) == (7nat, 's', 'n', ' '));
    reveal_strlit("\"upper_snake\"");
    assert(mark("\"upper_snake\""@) == (13nat, 'u', 'p', 's'));
    reveal_strlit("\"screaming_snake\"");
    assert(mark("\"screaming_snake\""@) == (17nat, 's', 'c', 'i'));
    reveal_strlit("\"kebab\"");
    assert(mark("\"kebab\""@) == (7nat, 'k', 'e', ' '));
    reveal_strlit("\"cobol\"");
    assert(mark("\"cobol\""@) == (7nat, 'c', 'o', ' '));
    reveal_strlit("\"upper_kebab\"");
    assert(mark("\"upper_kebab\""@) == (13nat, 'u', 'p', 'k'));
    reveal_strlit("\"train\"");
    assert(mark("\"train\""@) == (7nat, 't', 'r', ' '));
    reveal_strlit("\"flat\"");
    assert(mark("\"flat\""@) == (6nat, 'f', 'l', ' '));
    reveal_strlit("\"upper_flat\"");
    assert(mark("\"upper_flat\""@) == (12nat, 'u', 'p', 'f'));
    reveal_strlit("\"alternating\"");
    assert(mark("\"alternating\""@) == (13nat, 'a', 'l', 'a'));
    match case {
        Case::Upper => {
            reveal_strlit("upper");
            assert(quoted(case.name()) =~= "\"upper\""@);
        },
        Case::Lower => {
            reveal_strlit("lower");
            assert(quoted(case.name()) =~= "\"lower\""@);
        },
        Case::Title => {
            reveal_strlit("title");
            assert(quoted(case.name()) =~= "\"title\""@);
        },
        Case::Toggle => {
            reveal_strlit("toggle");
            assert(quoted(case.name()) =~= "\"toggle\""@);
        },
        Case::Camel => {
            reveal_strlit("camel");
            assert(quoted(case.name()) =~= "\"camel\""@);
        },
        Case::Pascal => {
            reveal_strlit("pascal");
            assert(quoted(case.name()) =~= "\"pascal\""@);
        },
        Case::UpperCamel => {
            reveal_strlit("upper_camel");
            assert(quoted(case.name()) =~= "\"upper_camel\""@);
        },
        Case::Snake => {
            reveal_strlit("snake");
            assert(quoted(case.name()) =~= "\"snake\""@);
        },
        Case::UpperSnake => {
            reveal_strlit("upper_snake");
            assert(quoted(case.name()) =~= "\"upper_snake\""@);
        },
        Case::ScreamingSnake => {
            reveal_strlit("screaming_snake");
            assert(quoted(case.name()) =~= "\"screaming_snake\""@);
        },
        Case::Kebab => {
            reveal_strlit("kebab");
            assert(quoted(case.name()) =~= "\"kebab\""@);
        },
        Case::Cobol => {
            reveal_strlit("cobol");
            assert(quoted(case.name()) =~= "\"cobol\""@);
        },
        Case::UpperKebab => {
            reveal_strlit("upper_kebab");
            assert(quoted(case.name()) =~= "\"upper_kebab\""@);
        },
        Case::Train => {
            reveal_strlit("train");
            assert(quoted(case.name()) =~= "\"train\""@);
        },
        Case::Flat => {
            reveal_strlit("flat");
            assert(quoted(case.name()) =~= "\"flat\""@);
        },
        Case::UpperFlat => {
            reveal_strlit("upper_flat");
            assert(quoted(case.name()) =~= "\"upper_flat\""@);
        },
        Case::Alternating => {
            reveal_strlit("alternating");
            assert(quoted(case.name()) =~= "\"alternating\""@);
        },
    }
}

/// A literal that stands for a style is the name of that style in quotes.
pub proof fn lemma_literal_of_name(literal: Seq<char>)
    ensures
        Case::named(literal) matches Some(case) ==> literal == quoted(case.name()),
{
    match Case::named(literal) {
        Some(case) => {
            lemma_quoted_name(case);
        },
        None => {},
    }
}

/// Every style is read from its own name in quotes, and from no other
/// literal.
pub proof fn lemma_named(case: Case, literal: Seq<char>)
    ensures
        Case::named(literal) == Some(case) <==> literal == quoted(case.name()),
{
    lemma_quoted_name(case);
    lemma_literal_of_name(literal);
}

} // verus!
