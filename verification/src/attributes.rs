//! The configuration of a type: prefix, suffix and case style.

use vstd::prelude::*;
use crate::attribute::all_attributes;
use crate::attribute::Attribute;
use crate::attribute::attributes_of;
use crate::attribute::AttributeView;
use crate::attribute::decode;
use crate::attribute::decoded;
use crate::attribute::decoded_all;
use crate::attribute::lemma_all_attributes_fault;
use crate::attribute::lemma_decoded_all_fault;
use crate::case::Case;
use crate::case::cased;
use crate::declaration::Annotation;
use crate::declaration::ATTRIBUTE_NAME;
use crate::declaration::Declaration;
use crate::error::DecodeError;
use crate::error::DecodeErrorView;
use crate::error::Error;
use crate::error::ErrorView;
use crate::error::ParseErrorView;
use crate::text::same_text;
use crate::tokens::parse_records;
use crate::tokens::Record;
use crate::tokens::records;

verus! {

/// The configuration of a type: what its annotations set, each key at most
/// once.
#[derive(Debug, Clone, PartialEq, Eq)]
pub struct Attributes {
    pub case: Option<Case>,
    pub prefix: Option<String>,
    pub suffix: Option<String>,
}

/// The mathematical value of [`Attributes`].
pub struct AttributesView {
    pub case: Option<Case>,
    pub prefix: Option<Seq<char>>,
    pub suffix: Option<Seq<char>>,
}

impl View for Attributes {
    type V = AttributesView;

    open spec fn view(&self) -> AttributesView {
        AttributesView {
            case: self.case,
            prefix: self.prefix.deep_view(),
            suffix: self.suffix.deep_view(),
        }
    }
}

/// The text of an affix: nothing where none is set.
pub open spec fn affix(text: Option<Seq<char>>) -> Seq<char> {
    match text {
        Some(text) => text,
        None => Seq::empty(),
    }
}

impl AttributesView {
    /// The configuration that sets nothing.
    pub open spec fn empty() -> AttributesView {
        AttributesView { case: None, prefix: None, suffix: None }
    }

    /// This configuration after one more attribute: the attribute's key is
    /// set anew, the others stay. A rename is no matter of the type's.
    pub open spec fn with(self, attribute: AttributeView) -> AttributesView {
        match attribute {
            AttributeView::Prefix(text) => AttributesView { prefix: Some(text), ..self },
            AttributeView::Suffix(text) => AttributesView { suffix: Some(text), ..self },
            AttributeView::CaseStyle(case) => AttributesView { case: Some(case), ..self },
            AttributeView::Rename(_) => self,
        }
    }

    /// This configuration after a run of attributes, taken in order.
    pub open spec fn with_all(self, attributes: Seq<AttributeView>) -> AttributesView
        decreases attributes.len(),
    {
        if attributes.len() == 0 {
            self
        } else {
            self.with_all(attributes.drop_last()).with(attributes.last())
        }
    }

    /// This configuration under a later one: what the later one sets holds,
    /// the rest is kept.
    pub open spec fn under(self, later: AttributesView) -> AttributesView {
        AttributesView {
            case: if later.case is Some { later.case } else { self.case },
            prefix: if later.prefix is Some { later.prefix } else { self.prefix },
            suffix: if later.suffix is Some { later.suffix } else { self.suffix },
        }
    }

    /// The text of a case that is not renamed: prefix, identifier and suffix
    /// joined, and the whole converted into the case style where one is set.
    pub open spec fn renamed(self, ident: Seq<char>) -> Seq<char> {
        let joined = affix(self.prefix) + ident + affix(self.suffix);
        match self.case {
            Some(case) => cased(case, joined),
            None => joined,
        }
    }
}

/// The configuration that a run of attributes leaves.
pub open spec fn configured(attributes: Seq<AttributeView>) -> AttributesView {
    AttributesView::empty().with_all(attributes)
}

/// Folding two runs one after the other is folding the first and then
/// the second.
pub proof fn lemma_with_all_add(
    start: AttributesView,
    first: Seq<AttributeView>,
    second: Seq<AttributeView>,
)
    ensures
        start.with_all(first + second) == start.with_all(first).with_all(second),
    decreases second.len(),
{
    if second.len() > 0 {
        assert((first + second).drop_last() =~= first + second.drop_last());
        lemma_with_all_add(start, first, second.drop_last());
    }
}

/// What a run of attributes sets does not depend on where the fold starts.
pub proof fn lemma_with_all_under(start: AttributesView, attributes: Seq<AttributeView>)
    ensures
        start.with_all(attributes) == start.under(configured(attributes)),
    decreases attributes.len(),
{
    if attributes.len() > 0 {
        lemma_with_all_under(start, attributes.drop_last());
    }
}

impl Default for Attributes {
    fn default() -> (attributes: Attributes)
        ensures
            attributes@ == AttributesView::empty(),
    {
        Attributes { case: None, prefix: None, suffix: None }
    }
}

impl Attributes {
    /// The configuration of a type, from the annotations attached to it.
    pub fn new(ast: &Declaration) -> (attributes: Result<Attributes, Error>)
        ensures
            match all_attributes(ast@.attrs) {
                Ok(found) => attributes matches Ok(a) && a@ == configured(found),
                Err(error) => attributes matches Err(e) && e@ == error,
            },
    {
        let ghost all = ast@.attrs;
        let mut new = Attributes::default();
        let ghost mut found: Seq<AttributeView> = Seq::empty();
        let n: usize = ast.attrs.len();
        let mut i: usize = 0;
        while i < n
            invariant
                i <= n,
                n == ast.attrs.len(),
                all == ast@.attrs,
                all_attributes(all.take(i as int)) == Ok::<Seq<AttributeView>, ErrorView>(found),
                new@ == configured(found),
            decreases n - i,
        {
            assert(all.take(i + 1).drop_last() =~= all.take(i as int));
            match Attributes::parse_args(&ast.attrs[i]) {
                Err(error) => {
                    proof {
                        lemma_all_attributes_fault(all, i + 1);
                    }
                    return Err(error);
                },
                Ok(None) => {},
                Ok(Some(rename_rules)) => {
                    proof {
                        let more = attributes_of(all[i as int])->Ok_0;
                        lemma_with_all_add(AttributesView::empty(), found, more);
                        lemma_with_all_under(configured(found), more);
                        found = found + more;
                    }
                    if rename_rules.prefix.is_some() {
                        new.prefix = rename_rules.prefix;
                    }
                    if rename_rules.suffix.is_some() {
                        new.suffix = rename_rules.suffix;
                    }
                    if rename_rules.case.is_some() {
                        new.case = rename_rules.case;
                    }
                },
            }
            i = i + 1;
        }
        assert(all.take(n as int) =~= all);
        Ok(new)
    }

    /// The configuration that one annotation asks for; `None` where the
    /// annotation is not addressed to this library.
    pub fn parse_args(attribute: &Annotation) -> (attributes: Result<Option<Attributes>, Error>)
        ensures
            match attributes_of(attribute@) {
                Ok(found) => attributes matches Ok(option) && match option {
                    Some(a) => attribute@.addressed() && a@ == configured(found),
                    None => !attribute@.addressed(),
                },
                Err(error) => attributes matches Err(e) && e@ == error,
            },
    {
        if !same_text(attribute.name.as_str(), ATTRIBUTE_NAME) {
            return Ok(None);
        }
        match &attribute.tokens {
            None => Ok(None),
            Some(tokens) => {
                let list = match parse_records(tokens) {
                    Ok(list) => list,
                    Err(error) => {
                        return Err(Error::Parse(error));
                    },
                };
                let ghost all = list.deep_view();
                let mut new = Attributes::default();
                let ghost mut found: Seq<AttributeView> = Seq::empty();
                let n: usize = list.len();
                let mut i: usize = 0;
                while i < n
                    invariant
                        i <= n,
                        n == list.len(),
                        all == list.deep_view(),
                        attribute@.addressed(),
                        records(attribute@.tokens->0) == Ok::<Seq<Record>, ParseErrorView>(all),
                        decoded_all(all.take(i as int)) == Ok::<
                            Seq<AttributeView>,
                            DecodeErrorView,
                        >(found),
                        new@ == configured(found),
                    decreases n - i,
                {
                    assert(all.take(i + 1).drop_last() =~= all.take(i as int));
                    let value = (list[i].0.clone(), list[i].1.clone());
                    match new.update_attribute(value) {
                        Ok(()) => {
                            proof {
                                found = found.push(decoded(all[i as int])->Ok_0);
                                assert(found.drop_last() =~= decoded_all(all.take(i as int))->Ok_0);
                            }
                        },
                        Err(error) => {
                            proof {
                                lemma_decoded_all_fault(all, i + 1);
                            }
                            return Err(Error::Decode(error));
                        },
                    }
                    i = i + 1;
                }
                assert(all.take(n as int) =~= all);
                Ok(Some(new))
            },
        }
    }

    /// Sets what one record asks for. A record that stands for no attribute
    /// changes nothing.
    pub fn update_attribute(&mut self, value: (String, String)) -> (done: Result<(), DecodeError>)
        ensures
            match decoded(value.deep_view()) {
                Ok(attribute) => done is Ok && final(self)@ == old(self)@.with(attribute),
                Err(error) => done matches Err(e) && e@ == error && final(self)@ == old(self)@,
            },
    {
        match decode(value) {
            Ok(Attribute::Prefix(text)) => {
                self.prefix = Some(text);
                Ok(())
            },
            Ok(Attribute::Suffix(text)) => {
                self.suffix = Some(text);
                Ok(())
            },
            Ok(Attribute::CaseStyle(case)) => {
                self.case = Some(case);
                Ok(())
            },
            Ok(Attribute::Rename(_)) => Ok(()),
            Err(error) => Err(error),
        }
    }

    /// The text of a case with the identifier `s` that is not renamed.
    pub fn rename(&self, s: &str) -> (text: String)
        ensures
            text@ == self@.renamed(s@),
    {
        let mut new_name = match &self.prefix {
            Some(prefix) => {
                let mut joined = prefix.clone();
                joined.append(s);
                joined
            },
            None => s.to_owned(),
        };
        if let Some(suffix) = &self.suffix {
            new_name.append(suffix.as_str());
        }
        if let Some(case) = &self.case {
            new_name = case.to_case(new_name.as_str());
        }
        new_name
    }
}

} // verus!
