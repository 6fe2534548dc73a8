//! What is read of an enumeration's declaration: its name, its cases, and
//! the annotations attached to either.

use vstd::prelude::*;
use crate::tokens::token_strings;
use crate::tokens::token_texts;

verus! {

/// The name that an annotation carries when it is addressed to this library.
pub const ATTRIBUTE_NAME: &'static str = "enum_stringify";

/// One annotation, attached to the type or to a case.
#[derive(Debug, Clone, PartialEq, Eq)]
pub struct Annotation {
    /// The path that the annotation starts with.
    pub name: String,
    /// The texts of the tokens between its parentheses; `None` where the
    /// annotation has no parentheses.
    pub tokens: Option<Vec<String>>,
}

/// The mathematical value of an [`Annotation`].
pub struct AnnotationView {
    pub name: Seq<char>,
    pub tokens: Option<Seq<Seq<char>>>,
}

impl View for Annotation {
    type V = AnnotationView;

    open spec fn view(&self) -> AnnotationView {
        AnnotationView { name: self.name@, tokens: self.tokens.deep_view() }
    }
}

impl DeepView for Annotation {
    type V = AnnotationView;

    open spec fn deep_view(&self) -> AnnotationView {
        self@
    }
}

impl AnnotationView {
    /// Whether the annotation is addressed to this library and has a list
    /// to read. Any other annotation is passed over.
    pub open spec fn addressed(self) -> bool {
        self.name == ATTRIBUTE_NAME@ && self.tokens is Some
    }
}

impl Annotation {
    /// The annotation `#[name(tokens)]`.
    pub fn list(name: &str, tokens: &proc_macro2::TokenStream) -> (annotation: Annotation)
        ensures
            annotation@ == (AnnotationView { name: name@, tokens: Some(token_texts(*tokens)) }),
    {
        Annotation { name: name.to_owned(), tokens: Some(token_strings(tokens)) }
    }

    /// The annotation `#[name]`, or `#[name = ..]`: one without parentheses.
    pub fn bare(name: &str) -> (annotation: Annotation)
        ensures
            annotation@ == (AnnotationView { name: name@, tokens: None }),
    {
        Annotation { name: name.to_owned(), tokens: None }
    }
}

/// One case of an enumeration.
#[derive(Debug, Clone, PartialEq, Eq)]
pub struct Variant {
    /// The identifier of the case.
    pub ident: String,
    /// The annotations attached to the case, in the order written.
    pub attrs: Vec<Annotation>,
}

/// The mathematical value of a [`Variant`].
pub struct VariantView {
    pub ident: Seq<char>,
    pub attrs: Seq<AnnotationView>,
}

impl View for Variant {
    type V = VariantView;

    open spec fn view(&self) -> VariantView {
        VariantView { ident: self.ident@, attrs: self.attrs.deep_view() }
    }
}

impl DeepView for Variant {
    type V = VariantView;

    open spec fn deep_view(&self) -> VariantView {
        self@
    }
}

/// The declaration of an enumeration.
#[derive(Debug, Clone, PartialEq, Eq)]
pub struct Declaration {
    /// The name of the type.
    pub ident: String,
    /// The annotations attached to the type, in the order written.
    pub attrs: Vec<Annotation>,
    /// The cases, in the order declared.
    pub variants: Vec<Variant>,
}

/// The mathematical value of a [`Declaration`].
pub struct DeclarationView {
    pub ident: Seq<char>,
    pub attrs: Seq<AnnotationView>,
    pub variants: Seq<VariantView>,
}

impl View for Declaration {
    type V = DeclarationView;

    open spec fn view(&self) -> DeclarationView {
        DeclarationView {
            ident: self.ident@,
            attrs: self.attrs.deep_view(),
            variants: self.variants.deep_view(),
        }
    }
}

} // verus!
