//! The cases of a type and the texts that they are renamed to.

use vstd::prelude::*;
use crate::attribute::all_attributes;
use crate::attribute::Attribute;
use crate::attribute::attributes_of;
use crate::attribute::AttributeView;
use crate::attribute::decode;
use crate::attribute::decoded_all;
use crate::attribute::lemma_all_attributes_fault;
use crate::attribute::lemma_decoded_all_fault;
use crate::attributes::Attributes;
use crate::attributes::AttributesView;
use crate::declaration::Annotation;
use crate::declaration::ATTRIBUTE_NAME;
use crate::declaration::Declaration;
use crate::declaration::Variant;
use crate::declaration::VariantView;
use crate::error::DecodeError;
use crate::error::DecodeErrorView;
use crate::error::Error;
use crate::error::ErrorView;
use crate::error::ParseErrorView;
use crate::text::literal;
use crate::text::parse_string;
use crate::text::same_text;
use crate::tokens::parse_records;
use crate::tokens::Record;
use crate::tokens::records;

verus! {

/// The text that a case is renamed to.
#[derive(Debug, Clone, PartialEq, Eq)]
pub struct VariantRename(pub String);

impl View for VariantRename {
    type V = Seq<char>;

    open spec fn view(&self) -> Seq<char> {
        self.0@
    }
}

impl DeepView for VariantRename {
    type V = Seq<char>;

    open spec fn deep_view(&self) -> Seq<char> {
        self@
    }
}

impl VariantRename {
    /// The rename that a record stands for, or why it stands for none.
    pub open spec fn of_record(record: Record) -> Result<Seq<char>, DecodeErrorView> {
        if record.0 == "rename"@ {
            literal(record.1)
        } else {
            Err(DecodeErrorView::NotRename)
        }
    }

    /// Reads a rename from a `rename = "text"` record.
    pub fn try_from(value: (String, String)) -> (rename: Result<VariantRename, DecodeError>)
        ensures
            match VariantRename::of_record(value.deep_view()) {
                Ok(text) => rename matches Ok(r) && r@ == text,
                Err(error) => rename matches Err(e) && e@ == error,
            },
    {
        if same_text(value.0.as_str(), "rename") {
            match parse_string(value.1.as_str()) {
                Ok(text) => Ok(VariantRename(text)),
                Err(error) => Err(error),
            }
        } else {
            Err(DecodeError::NotRename)
        }
    }

    /// The rename that one annotation asks for, if it asks for one.
    pub fn parse_args(attribute: &Annotation) -> (rename: Result<Option<VariantRename>, Error>)
        ensures
            match attributes_of(attribute@) {
                Ok(found) => rename matches Ok(r) && r.deep_view() == last_rename(found),
                Err(error) => rename matches Err(e) && e@ == error,
            },
    {
        if !same_text(attribute.name.as_str(), ATTRIBUTE_NAME) {
            return Ok(None);
        }
        match &attribute.tokens {
            None => Ok(None),
            Some(tokens) => {
                let list = match parse_records(tokens) {
                    Ok(list) => list,
                    Err(error) => {
                        return Err(Error::Parse(error));
                    },
                };
                let ghost all = list.deep_view();
                let mut rename: Option<VariantRename> = None;
                let ghost mut found: Seq<AttributeView> = Seq::empty();
                let n: usize = list.len();
                let mut i: usize = 0;
                while i < n
                    invariant
                        i <= n,
                        n == list.len(),
                        all == list.deep_view(),
                        attribute@.addressed(),
                        records(attribute@.tokens->0) == Ok::<Seq<Record>, ParseErrorView>(all),
                        decoded_all(all.take(i as int)) == Ok::<
                            Seq<AttributeView>,
                            DecodeErrorView,
                        >(found),
                        rename.deep_view() == last_rename(found),
                    decreases n - i,
                {
                    assert(all.take(i + 1).drop_last() =~= all.take(i as int));
                    let value = (list[i].0.clone(), list[i].1.clone());
                    match decode(value) {
                        Ok(attribute) => {
                            proof {
                                found = found.push(attribute@);
                                assert(found.drop_last() =~= decoded_all(all.take(i as int))->Ok_0);
                            }
                            if let Attribute::Rename(text) = attribute {
                                rename = Some(VariantRename(text));
                            }
                        },
                        Err(error) => {
                            proof {
                                lemma_decoded_all_fault(all, i + 1);
                            }
                            return Err(Error::Decode(error));
                        },
                    }
                    i = i + 1;
                }
                assert(all.take(n as int) =~= all);
                Ok(rename)
            },
        }
    }
}

/// The rename in force after a run of attributes: that of the last
/// `Rename` among them.
pub open spec fn last_rename(attributes: Seq<AttributeView>) -> Option<Seq<char>>
    decreases attributes.len(),
{
    if attributes.len() == 0 {
        None
    } else {
        match attributes.last() {
            AttributeView::Rename(text) => Some(text),
            _ => last_rename(attributes.drop_last()),
        }
    }
}

/// The rename in force after two runs is that of the second, or else that
/// of the first.
pub proof fn lemma_last_rename_add(first: Seq<AttributeView>, second: Seq<AttributeView>)
    ensures
        last_rename(first + second) == if last_rename(second) is Some {
            last_rename(second)
        } else {
            last_rename(first)
        },
    decreases second.len(),
{
    if second.len() > 0 {
        assert((first + second).drop_last() =~= first + second.drop_last());
        lemma_last_rename_add(first, second.drop_last());
    }
}

/// A case and the text that it is renamed to, if it is renamed.
pub type Renamed = (Seq<char>, Option<Seq<char>>);

/// A case with its rename: that of the last `Rename` among its annotations.
pub open spec fn renamed_case(variant: VariantView) -> Result<Renamed, ErrorView> {
    match all_attributes(variant.attrs) {
        Ok(found) => Ok((variant.ident, last_rename(found))),
        Err(error) => Err(error),
    }
}

/// The cases with their renames, in the order declared, or the first fault
/// among their annotations.
pub open spec fn renamed_cases(variants: Seq<VariantView>) -> Result<Seq<Renamed>, ErrorView>
    decreases variants.len(),
{
    if variants.len() == 0 {
        Ok(Seq::empty())
    } else {
        match renamed_cases(variants.drop_last()) {
            Err(error) => Err(error),
            Ok(before) => match renamed_case(variants.last()) {
                Ok(entry) => Ok(before.push(entry)),
                Err(error) => Err(error),
            },
        }
    }
}

/// A fault among the first cases is the fault of them all.
pub proof fn lemma_renamed_cases_fault(variants: Seq<VariantView>, n: int)
    requires
        0 <= n <= variants.len(),
        renamed_cases(variants.take(n)) is Err,
    ensures
        renamed_cases(variants) == renamed_cases(variants.take(n)),
    decreases variants.len() - n,
{
    if n < variants.len() {
        assert(variants.take(n + 1).drop_last() =~= variants.take(n));
        lemma_renamed_cases_fault(variants, n + 1);
    } else {
        assert(variants.take(n) =~= variants);
    }
}

/// The text of a case: its rename where it has one, as it is; else what the
/// configuration of the type makes of its identifier.
pub open spec fn resolved_text(entry: Renamed, attributes: AttributesView) -> Seq<char> {
    match entry.1 {
        Some(text) => text,
        None => attributes.renamed(entry.0),
    }
}

/// Each case with its text, in the order of the cases.
pub open spec fn resolved_names(cases: Seq<Renamed>, attributes: AttributesView) -> Seq<
    (Seq<char>, Seq<char>),
> {
    Seq::new(cases.len(), |i: int| (cases[i].0, resolved_text(cases[i], attributes)))
}

/// The cases of a type, each with its rename, in the order declared.
#[derive(Debug, Clone, PartialEq, Eq)]
pub struct Variants {
    variant_renames: Vec<(String, Option<VariantRename>)>,
}

impl View for Variants {
    type V = Seq<Renamed>;

    closed spec fn view(&self) -> Seq<Renamed> {
        self.variant_renames.deep_view()
    }
}

impl Variants {
    /// The cases of a type with their renames.
    pub fn new(ast: &Declaration) -> (variants: Result<Variants, Error>)
        ensures
            match renamed_cases(ast@.variants) {
                Ok(cases) => variants matches Ok(v) && v@ == cases,
                Err(error) => variants matches Err(e) && e@ == error,
            },
    {
        let ghost all = ast@.variants;
        let mut new = Variants { variant_renames: Vec::new() };
        let n: usize = ast.variants.len();
        let mut i: usize = 0;
        assert(new@ =~= Seq::empty());
        while i < n
            invariant
                i <= n,
                n == ast.variants.len(),
                all == ast@.variants,
                renamed_cases(all.take(i as int)) == Ok::<Seq<Renamed>, ErrorView>(new@),
            decreases n - i,
        {
            assert(all.take(i + 1).drop_last() =~= all.take(i as int));
            match new.parse_variant_attribute(&ast.variants[i]) {
                Ok(()) => {},
                Err(error) => {
                    proof {
                        lemma_renamed_cases_fault(all, i + 1);
                    }
                    return Err(error);
                },
            }
            i = i + 1;
        }
        assert(all.take(n as int) =~= all);
        Ok(new)
    }

    /// Reads the rename of one case and adds the case.
    pub fn parse_variant_attribute(&mut self, variant: &Variant) -> (done: Result<(), Error>)
        ensures
            match renamed_case(variant@) {
                Ok(entry) => done is Ok && final(self)@ == old(self)@.push(entry),
                Err(error) => done matches Err(e) && e@ == error && final(self)@ == old(self)@,
            },
    {
        let ghost all = variant@.attrs;
        let mut rename: Option<VariantRename> = None;
        let ghost mut found: Seq<AttributeView> = Seq::empty();
        let n: usize = variant.attrs.len();
        let mut i: usize = 0;
        while i < n
            invariant
                i <= n,
                n == variant.attrs.len(),
                all == variant@.attrs,
                all_attributes(all.take(i as int)) == Ok::<Seq<AttributeView>, ErrorView>(found),
                rename.deep_view() == last_rename(found),
                *self == *old(self),
            decreases n - i,
        {
            assert(all.take(i + 1).drop_last() =~= all.take(i as int));
            match VariantRename::parse_args(&variant.attrs[i]) {
                Ok(new) => {
                    proof {
                        let more = attributes_of(all[i as int])->Ok_0;
                        lemma_last_rename_add(found, more);
                        found = found + more;
                    }
                    if new.is_some() {
                        rename = new;
                    }
                },
                Err(error) => {
                    proof {
                        lemma_all_attributes_fault(all, i + 1);
                    }
                    return Err(error);
                },
            }
            i = i + 1;
        }
        assert(all.take(n as int) =~= all);
        self.variant_renames.push((variant.ident.clone(), rename));
        Ok(())
    }

    /// The text of each case under the configuration of the type.
    pub fn apply(&self, attributes: &Attributes) -> (names: Vec<(String, String)>)
        ensures
            names.deep_view() == resolved_names(self@, attributes@),
    {
        let mut names: Vec<(String, String)> = Vec::new();
        let n: usize = self.variant_renames.len();
        let mut i: usize = 0;
        while i < n
            invariant
                i <= n,
                n == self.variant_renames.len(),
                names.len() == i,
                forall|j: int|
                    0 <= j < i ==> (#[trigger] names[j]).deep_view() == resolved_names(
                        self@,
                        attributes@,
                    )[j],
            decreases n - i,
        {
            let ident = &self.variant_renames[i].0;
            let new_name = match &self.variant_renames[i].1 {
                Some(rename) => rename.0.clone(),
                None => attributes.rename(ident.as_str()),
            };
            names.push((ident.clone(), new_name));
            i = i + 1;
        }
        names
    }
}

} // verus!
