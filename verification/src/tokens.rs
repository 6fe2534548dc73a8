//! The token-list parser: `key = value [, key = value]*`.

use vstd::prelude::*;
use crate::error::ParseError;
use crate::error::ParseErrorView;
use crate::text::same_text;

verus! {

/// `proc_macro2::TokenStream`, carried as it is. What a stream holds is read
/// through [`token_strings`] alone.
#[verifier::external_type_specification]
#[verifier::external_body]
pub struct ExTokenStream(proc_macro2::TokenStream);

/// What a `proc_macro2::TokenStream` holds: the texts of its token trees, in
/// order, each as the tree's `to_string` gives it.
pub uninterp spec fn token_texts(tokens: proc_macro2::TokenStream) -> Seq<Seq<char>>;

/// Walks a copy of a `proc_macro2::TokenStream` with `into_iter` and turns
/// each `TokenTree` into text with `to_string`. Nothing is proved of these
/// calls: the contract gives what they hand out the name [`token_texts`].
#[verifier::external_body]
pub(crate) fn token_strings(tokens: &proc_macro2::TokenStream) -> (texts: Vec<String>)
    ensures
        texts.deep_view() == token_texts(*tokens),
{
    tokens.clone().into_iter().map(|token| token.to_string()).collect()
}

/// A `key = value` record in the mathematical model.
pub type Record = (Seq<char>, Seq<char>);

/// The records that a list of tokens spells, or the first fault in it.
///
/// The list is empty, or it is a key, `=` and a value, and then either ends
/// or goes on with `,` and a list that is not empty.
pub open spec fn records(tokens: Seq<Seq<char>>) -> Result<Seq<Record>, ParseErrorView>
    decreases tokens.len(),
{
    if tokens.len() == 0 {
        Ok(Seq::empty())
    } else if tokens.len() == 1 {
        Err(ParseErrorView::ExpectedEquals { key: tokens[0], found: None })
    } else if tokens[1] != "="@ {
        Err(ParseErrorView::ExpectedEquals { key: tokens[0], found: Some(tokens[1]) })
    } else if tokens.len() == 2 {
        Err(ParseErrorView::MissingValue)
    } else if tokens.len() == 3 {
        Ok(seq![(tokens[0], tokens[2])])
    } else if tokens[3] != ","@ {
        Err(ParseErrorView::ExpectedComma)
    } else if tokens.len() == 4 {
        Err(ParseErrorView::TrailingComma)
    } else {
        match records(tokens.skip(4)) {
            Ok(rest) => Ok(seq![(tokens[0], tokens[2])] + rest),
            Err(error) => Err(error),
        }
    }
}

/// The outcome of a list of which `done` was read and `rest` is the outcome
/// of what is left.
spec fn after(done: Seq<Record>, rest: Result<Seq<Record>, ParseErrorView>) -> Result<
    Seq<Record>,
    ParseErrorView,
> {
    match rest {
        Ok(records) => Ok(done + records),
        Err(error) => Err(error),
    }
}

/// Whether `parsed` is the outcome `expected`, taken by its view.
pub open spec fn parsed_as(
    parsed: Result<Vec<(String, String)>, ParseError>,
    expected: Result<Seq<Record>, ParseErrorView>,
) -> bool {
    match expected {
        Ok(records) => parsed matches Ok(list) && list.deep_view() == records,
        Err(error) => parsed matches Err(e) && e@ == error,
    }
}

/// Parses the texts of a token list into records.
pub fn parse_records(tokens: &Vec<String>) -> (parsed: Result<Vec<(String, String)>, ParseError>)
    ensures
        parsed_as(parsed, records(tokens.deep_view())),
{
    let ghost all = tokens.deep_view();
    let n: usize = tokens.len();
    let mut list: Vec<(String, String)> = Vec::new();
    let mut i: usize = 0;
    proof {
        assert(all.skip(0) =~= all);
        match records(all) {
            Ok(found) => assert(list.deep_view() + found =~= found),
            Err(_) => {},
        }
    }
    while i < n
        invariant
            i <= n,
            n == tokens.len(),
            all == tokens.deep_view(),
            records(all) == after(list.deep_view(), records(all.skip(i as int))),
        decreases n - i,
    {
        let ghost rest = all.skip(i as int);
        let ghost before = list.deep_view();
        let key = tokens[i].clone();
        if n - i < 2 {
            return Err(ParseError::ExpectedEquals { key, found: None });
        }
        if !same_text(tokens[i + 1].as_str(), "=") {
            return Err(ParseError::ExpectedEquals { key, found: Some(tokens[i + 1].clone()) });
        }
        if n - i < 3 {
            return Err(ParseError::MissingValue);
        }
        let value = tokens[i + 2].clone();
        list.push((key, value));
        assert(list.deep_view() =~= before + seq![(rest[0], rest[2])]);
        if n - i < 4 {
            i = n;
        } else {
            if !same_text(tokens[i + 3].as_str(), ",") {
                return Err(ParseError::ExpectedComma);
            }
            if n - i < 5 {
                return Err(ParseError::TrailingComma);
            }
            i = i + 4;
            assert(all.skip(i as int) =~= rest.skip(4));
            assert(after(before, records(rest)) == after(
                list.deep_view(),
                records(all.skip(i as int)),
            )) by {
                match records(rest.skip(4)) {
                    Ok(more) => {
                        assert(before + (seq![(rest[0], rest[2])] + more) =~= (before + seq![
                            (rest[0], rest[2]),
                        ]) + more);
                    },
                    Err(_) => {},
                }
            }
        }
    }
    Ok(list)
}

/// Parses a token list into records.
pub fn parse_token_list(tokens: &proc_macro2::TokenStream) -> (parsed: Result<
    Vec<(String, String)>,
    ParseError,
>)
    ensures
        parsed_as(parsed, records(token_texts(*tokens))),
{
    let texts = token_strings(tokens);
    parse_records(&texts)
}

} // verus!
