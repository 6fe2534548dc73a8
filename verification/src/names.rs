//! The table of the resolved names of a type, and the two conversions that
//! it stands for: from a case to its text, and from a text back to the case.

use vstd::prelude::*;
use crate::attribute::all_attributes;
use crate::attributes::Attributes;
use crate::attributes::configured;
use crate::declaration::Declaration;
use crate::declaration::DeclarationView;
use crate::error::Error;
use crate::error::ErrorView;
use crate::text::same_text;
use crate::variants::renamed_cases;
use crate::variants::resolved_names;
use crate::variants::Variants;

verus! {

/// A case and its text, in the mathematical model: identifier first.
pub type Name = (Seq<char>, Seq<char>);

/// The resolved names of a type.
#[derive(Debug, Clone, PartialEq, Eq)]
pub struct NameTable {
    /// The name of the type.
    pub name: String,
    /// Each case with its text, in the order declared.
    pub pairs: Vec<(String, String)>,
}

/// The mathematical value of a [`NameTable`].
pub struct NameTableView {
    pub name: Seq<char>,
    pub pairs: Seq<Name>,
}

impl View for NameTable {
    type V = NameTableView;

    open spec fn view(&self) -> NameTableView {
        NameTableView { name: self.name@, pairs: self.pairs.deep_view() }
    }
}

/// The text of the first case with the identifier `ident`.
pub open spec fn text_of(pairs: Seq<Name>, ident: Seq<char>) -> Option<Seq<char>>
    decreases pairs.len(),
{
    if pairs.len() == 0 {
        None
    } else if pairs.first().0 == ident {
        Some(pairs.first().1)
    } else {
        text_of(pairs.drop_first(), ident)
    }
}

/// The identifier of the first case with the text `text`.
pub open spec fn ident_of(pairs: Seq<Name>, text: Seq<char>) -> Option<Seq<char>>
    decreases pairs.len(),
{
    if pairs.len() == 0 {
        None
    } else if pairs.first().1 == text {
        Some(pairs.first().0)
    } else {
        ident_of(pairs.drop_first(), text)
    }
}

/// What is said of a text that is the text of no case of the type `name`.
pub open spec fn rejection(text: Seq<char>, name: Seq<char>) -> Seq<char> {
    "Failed to parse string '"@ + text + "' for enum "@ + name
}

impl NameTable {
    /// The text of the case `ident`; `None` where the type has no such case.
    pub fn to_string(&self, ident: &str) -> (text: Option<String>)
        ensures
            text.deep_view() == text_of(self@.pairs, ident@),
    {
        let ghost all = self@.pairs;
        let n: usize = self.pairs.len();
        let mut i: usize = 0;
        assert(all.skip(0) =~= all);
        while i < n
            invariant
                i <= n,
                n == self.pairs.len(),
                all == self@.pairs,
                text_of(all, ident@) == text_of(all.skip(i as int), ident@),
            decreases n - i,
        {
            assert(all.skip(i as int).drop_first() =~= all.skip(i + 1));
            if same_text(self.pairs[i].0.as_str(), ident) {
                return Some(self.pairs[i].1.clone());
            }
            i = i + 1;
        }
        None
    }

    /// The case whose text is `s`: the first one where several share it.
    /// Where there is none, the error says which text was refused, and for
    /// which type.
    pub fn try_from(&self, s: &str) -> (ident: Result<String, String>)
        ensures
            match ident_of(self@.pairs, s@) {
                Some(case) => ident matches Ok(found) && found@ == case,
                None => ident matches Err(message) && message@ == rejection(s@, self@.name),
            },
    {
        let ghost all = self@.pairs;
        let n: usize = self.pairs.len();
        let mut i: usize = 0;
        assert(all.skip(0) =~= all);
        while i < n
            invariant
                i <= n,
                n == self.pairs.len(),
                all == self@.pairs,
                ident_of(all, s@) == ident_of(all.skip(i as int), s@),
            decreases n - i,
        {
            assert(all.skip(i as int).drop_first() =~= all.skip(i + 1));
            if same_text(self.pairs[i].1.as_str(), s) {
                return Ok(self.pairs[i].0.clone());
            }
            i = i + 1;
        }
        let mut message = "Failed to parse string '".to_owned();
        message.append(s);
        message.append("' for enum ");
        message.append(self.name.as_str());
        Err(message)
    }
}

/// The resolved names of a declaration, or the first fault among its
/// annotations: those of the type come first, then those of the cases.
pub open spec fn stringified(ast: DeclarationView) -> Result<NameTableView, ErrorView> {
    match all_attributes(ast.attrs) {
        Err(error) => Err(error),
        Ok(found) => match renamed_cases(ast.variants) {
            Err(error) => Err(error),
            Ok(cases) => Ok(
                NameTableView {
                    name: ast.ident,
                    pairs: resolved_names(cases, configured(found)),
                },
            ),
        },
    }
}

/// Resolves the text of every case of a declaration.
pub fn enum_stringify(ast: &Declaration) -> (table: Result<NameTable, Error>)
    ensures
        match stringified(ast@) {
            Ok(names) => table matches Ok(t) && t@ == names,
            Err(error) => table matches Err(e) && e@ == error,
        },
{
    let attributes = match Attributes::new(ast) {
        Ok(attributes) => attributes,
        Err(error) => {
            return Err(error);
        },
    };
    let variants = match Variants::new(ast) {
        Ok(variants) => variants,
        Err(error) => {
            return Err(error);
        },
    };
    let pairs = variants.apply(&attributes);
    Ok(NameTable { name: ast.ident.clone(), pairs })
}

} // verus!
