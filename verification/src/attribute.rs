//! Attributes: what the records of an annotation ask for.

use vstd::prelude::*;
use crate::case::Case;
use crate::declaration::AnnotationView;
use crate::error::DecodeError;
use crate::error::DecodeErrorView;
use crate::error::ErrorView;
use crate::text::literal;
use crate::text::parse_string;
use crate::text::same_text;
use crate::tokens::Record;
use crate::tokens::records;
use crate::variants::VariantRename;

verus! {

/// What one `key = value` record asks for.
#[derive(Debug, Clone, PartialEq, Eq)]
pub enum Attribute {
    /// A text put before the identifier of every case.
    Prefix(String),
    /// A text put after the identifier of every case.
    Suffix(String),
    /// The casing style that every case is converted into.
    CaseStyle(Case),
    /// The text of one case, taken as it is.
    Rename(String),
}

/// The mathematical value of an [`Attribute`].
pub enum AttributeView {
    Prefix(Seq<char>),
    Suffix(Seq<char>),
    CaseStyle(Case),
    Rename(Seq<char>),
}

impl View for Attribute {
    type V = AttributeView;

    open spec fn view(&self) -> AttributeView {
        match self {
            Attribute::Prefix(text) => AttributeView::Prefix(text@),
            Attribute::Suffix(text) => AttributeView::Suffix(text@),
            Attribute::CaseStyle(case) => AttributeView::CaseStyle(*case),
            Attribute::Rename(text) => AttributeView::Rename(text@),
        }
    }
}

/// The attribute that a record stands for, or why it stands for none.
pub open spec fn decoded(record: Record) -> Result<AttributeView, DecodeErrorView> {
    let (key, value) = record;
    if key == "prefix"@ {
        match literal(value) {
            Ok(text) => Ok(AttributeView::Prefix(text)),
            Err(error) => Err(error),
        }
    } else if key == "suffix"@ {
        match literal(value) {
            Ok(text) => Ok(AttributeView::Suffix(text)),
            Err(error) => Err(error),
        }
    } else if key == "case"@ {
        match Case::named(value) {
            Some(case) => Ok(AttributeView::CaseStyle(case)),
            None => Err(DecodeErrorView::UnknownCaseStyle),
        }
    } else if key == "rename"@ {
        match literal(value) {
            Ok(text) => Ok(AttributeView::Rename(text)),
            Err(error) => Err(error),
        }
    } else {
        Err(DecodeErrorView::UnsupportedKey(key))
    }
}

/// Decodes one record into the attribute that it stands for.
pub fn decode(record: (String, String)) -> (attribute: Result<Attribute, DecodeError>)
    ensures
        match decoded(record.deep_view()) {
            Ok(expected) => attribute matches Ok(a) && a@ == expected,
            Err(error) => attribute matches Err(e) && e@ == error,
        },
{
    if same_text(record.0.as_str(), "prefix") {
        match parse_string(record.1.as_str()) {
            Ok(text) => Ok(Attribute::Prefix(text)),
            Err(error) => Err(error),
        }
    } else if same_text(record.0.as_str(), "suffix") {
        match parse_string(record.1.as_str()) {
            Ok(text) => Ok(Attribute::Suffix(text)),
            Err(error) => Err(error),
        }
    } else if same_text(record.0.as_str(), "case") {
        match Case::try_from(record) {
            Ok(case) => Ok(Attribute::CaseStyle(case)),
            Err(error) => Err(error),
        }
    } else if same_text(record.0.as_str(), "rename") {
        match VariantRename::try_from(record) {
            Ok(rename) => Ok(Attribute::Rename(rename.0)),
            Err(error) => Err(error),
        }
    } else {
        Err(DecodeError::UnsupportedKey(record.0))
    }
}

/// The attributes that a list of records stands for, or the first fault
/// among them.
pub open spec fn decoded_all(list: Seq<Record>) -> Result<Seq<AttributeView>, DecodeErrorView>
    decreases list.len(),
{
    if list.len() == 0 {
        Ok(Seq::empty())
    } else {
        match decoded_all(list.drop_last()) {
            Err(error) => Err(error),
            Ok(before) => match decoded(list.last()) {
                Ok(attribute) => Ok(before.push(attribute)),
                Err(error) => Err(error),
            },
        }
    }
}

/// The attributes that one annotation holds, or the first fault in it. An
/// annotation that is not addressed to this library holds none.
pub open spec fn attributes_of(annotation: AnnotationView) -> Result<
    Seq<AttributeView>,
    ErrorView,
> {
    if annotation.addressed() {
        match records(annotation.tokens->0) {
            Err(error) => Err(ErrorView::Parse(error)),
            Ok(list) => match decoded_all(list) {
                Err(error) => Err(ErrorView::Decode(error)),
                Ok(attributes) => Ok(attributes),
            },
        }
    } else {
        Ok(Seq::empty())
    }
}

/// The attributes that a run of annotations holds, in the order written, or
/// the first fault among them.
pub open spec fn all_attributes(annotations: Seq<AnnotationView>) -> Result<
    Seq<AttributeView>,
    ErrorView,
>
    decreases annotations.len(),
{
    if annotations.len() == 0 {
        Ok(Seq::empty())
    } else {
        match all_attributes(annotations.drop_last()) {
            Err(error) => Err(error),
            Ok(before) => match attributes_of(annotations.last()) {
                Ok(more) => Ok(before + more),
                Err(error) => Err(error),
            },
        }
    }
}

/// A fault among the first records of a list is the fault of the list.
pub proof fn lemma_decoded_all_fault(list: Seq<Record>, n: int)
    requires
        0 <= n <= list.len(),
        decoded_all(list.take(n)) is Err,
    ensures
        decoded_all(list) == decoded_all(list.take(n)),
    decreases list.len() - n,
{
    if n < list.len() {
        assert(list.take(n + 1).drop_last() =~= list.take(n));
        lemma_decoded_all_fault(list, n + 1);
    } else {
        assert(list.take(n) =~= list);
    }
}

/// A fault among the first annotations of a run is the fault of the run.
pub proof fn lemma_all_attributes_fault(annotations: Seq<AnnotationView>, n: int)
    requires
        0 <= n <= annotations.len(),
        all_attributes(annotations.take(n)) is Err,
    ensures
        all_attributes(annotations) == all_attributes(annotations.take(n)),
    decreases annotations.len() - n,
{
    if n < annotations.len() {
        assert(annotations.take(n + 1).drop_last() =~= annotations.take(n));
        lemma_all_attributes_fault(annotations, n + 1);
    } else {
        assert(annotations.take(n) =~= annotations);
    }
}

} // verus!
