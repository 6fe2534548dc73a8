//! What holds of the resolved names, whatever the declaration.

use vstd::prelude::*;
use crate::attribute::all_attributes;
use crate::attribute::attributes_of;
use crate::attribute::AttributeView;
use crate::attribute::lemma_all_attributes_fault;
use crate::attributes::affix;
use crate::attributes::AttributesView;
use crate::attributes::configured;
use crate::case::cased;
use crate::declaration::AnnotationView;
use crate::declaration::DeclarationView;
use crate::declaration::VariantView;
use crate::error::ErrorView;
use crate::names::ident_of;
use crate::names::Name;
use crate::names::stringified;
use crate::names::text_of;
use crate::variants::last_rename;
use crate::variants::Renamed;
use crate::variants::renamed_case;
use crate::variants::renamed_cases;
use crate::variants::resolved_text;

verus! {

/// A run of annotations is free of faults exactly when each of them is.
pub proof fn lemma_all_attributes_ok(annotations: Seq<AnnotationView>)
    ensures
        all_attributes(annotations) is Ok <==> forall|j: int|
            0 <= j < annotations.len() ==> attributes_of(#[trigger] annotations[j]) is Ok,
    decreases annotations.len(),
{
    if annotations.len() > 0 {
        let before = annotations.drop_last();
        lemma_all_attributes_ok(before);
        if all_attributes(annotations) is Ok {
            assert forall|j: int| 0 <= j < annotations.len() implies attributes_of(
                #[trigger] annotations[j],
            ) is Ok by {
                if j < before.len() {
                    assert(before[j] == annotations[j]);
                }
            }
        }
    }
}

/// Annotations that are not addressed to this library hold no attribute.
pub proof fn lemma_all_attributes_of_others(annotations: Seq<AnnotationView>)
    requires
        forall|j: int| 0 <= j < annotations.len() ==> !(#[trigger] annotations[j]).addressed(),
    ensures
        all_attributes(annotations) == Ok::<Seq<AttributeView>, ErrorView>(
            Seq::empty(),
        ),
    decreases annotations.len(),
{
    if annotations.len() > 0 {
        let before = annotations.drop_last();
        lemma_all_attributes_of_others(before);
    }
}

/// The attributes of two runs of annotations, one after the other, are
/// those of the first and then those of the second; a fault in the first
/// comes before one in the second.
pub proof fn lemma_all_attributes_add(first: Seq<AnnotationView>, second: Seq<AnnotationView>)
    ensures
        all_attributes(first + second) == match all_attributes(first) {
            Err(error) => Err::<Seq<AttributeView>, ErrorView>(error),
            Ok(found) => match all_attributes(second) {
                Err(error) => Err(error),
                Ok(more) => Ok(found + more),
            },
        },
    decreases second.len(),
{
    if second.len() == 0 {
        assert(first + second =~= first);
        match all_attributes(first) {
            Ok(found) => assert(found + Seq::<AttributeView>::empty() =~= found),
            Err(_) => {},
        }
    } else {
        assert((first + second).drop_last() =~= first + second.drop_last());
        lemma_all_attributes_add(first, second.drop_last());
        let rest = second.drop_last();
        match (all_attributes(first), all_attributes(rest), attributes_of(second.last())) {
            (Ok(found), Ok(more), Ok(last)) => {
                assert((found + more) + last =~= found + (more + last));
            },
            _ => {},
        }
    }
}

/// An annotation that is not addressed to this library can be taken away,
/// wherever it stands: what the others hold stays as it is.
pub proof fn lemma_others_are_passed_over(annotations: Seq<AnnotationView>, j: int)
    requires
        0 <= j < annotations.len(),
        !annotations[j].addressed(),
    ensures
        all_attributes(annotations.remove(j)) == all_attributes(annotations),
{
    let before = annotations.take(j);
    let after = annotations.skip(j + 1);
    let other = seq![annotations[j]];
    assert(annotations =~= before + (other + after));
    assert(annotations.remove(j) =~= before + after);
    lemma_all_attributes_of_others(other);
    lemma_all_attributes_add(other, after);
    lemma_all_attributes_add(before, other + after);
    lemma_all_attributes_add(before, after);
    match all_attributes(after) {
        Ok(more) => assert(Seq::<AttributeView>::empty() + more =~= more),
        Err(_) => {},
    }
}

/// Where the cases resolve, there is one entry for each case, and it is
/// that case with its own rename.
pub proof fn lemma_renamed_cases_each(variants: Seq<VariantView>)
    ensures
        renamed_cases(variants) matches Ok(cases) ==> cases.len() == variants.len() && forall|
            i: int,
        |
            0 <= i < variants.len() ==> renamed_case(#[trigger] variants[i]) == Ok::<
                Renamed,
                ErrorView,
            >(cases[i]),
        renamed_cases(variants) is Ok <==> forall|i: int|
            0 <= i < variants.len() ==> renamed_case(#[trigger] variants[i]) is Ok,
    decreases variants.len(),
{
    if variants.len() > 0 {
        let before = variants.drop_last();
        lemma_renamed_cases_each(before);
        if renamed_cases(variants) is Ok {
            let cases = renamed_cases(variants)->Ok_0;
            assert forall|i: int| 0 <= i < variants.len() implies renamed_case(
                #[trigger] variants[i],
            ) == Ok::<Renamed, ErrorView>(cases[i]) by {
                if i < before.len() {
                    assert(before[i] == variants[i]);
                }
            }
        }
    }
}

/// Every case gets exactly one text: where a declaration resolves, the table
/// holds its cases in the order declared, each under its own identifier,
/// with its rename where it has one and else with what the configuration of
/// the type makes of the identifier.
pub proof fn lemma_stringified_each(ast: DeclarationView, i: int)
    requires
        stringified(ast) is Ok,
        0 <= i < ast.variants.len(),
    ensures
        all_attributes(ast.attrs) is Ok,
        all_attributes(ast.variants[i].attrs) is Ok,
        stringified(ast)->Ok_0.name == ast.ident,
        stringified(ast)->Ok_0.pairs.len() == ast.variants.len(),
        stringified(ast)->Ok_0.pairs[i] == (
            ast.variants[i].ident,
            resolved_text(
                (ast.variants[i].ident, last_rename(all_attributes(ast.variants[i].attrs)->Ok_0)),
                configured(all_attributes(ast.attrs)->Ok_0),
            ),
        ),
{
    lemma_renamed_cases_each(ast.variants);
}

/// Default identity: in a type none of whose annotations is addressed to
/// this library, a case with no such annotation either has its identifier
/// as its text.
pub proof fn lemma_default_identity(ast: DeclarationView, i: int)
    requires
        stringified(ast) is Ok,
        0 <= i < ast.variants.len(),
        forall|j: int| 0 <= j < ast.attrs.len() ==> !(#[trigger] ast.attrs[j]).addressed(),
        forall|j: int|
            0 <= j < ast.variants[i].attrs.len() ==> !(
            #[trigger] ast.variants[i].attrs[j]).addressed(),
    ensures
        stringified(ast)->Ok_0.pairs[i] == (ast.variants[i].ident, ast.variants[i].ident),
{
    lemma_stringified_each(ast, i);
    lemma_all_attributes_of_others(ast.attrs);
    lemma_all_attributes_of_others(ast.variants[i].attrs);
}

/// A declaration without any annotation resolves, and every case has its
/// identifier as its text.
pub proof fn lemma_plain_declaration(ast: DeclarationView)
    requires
        ast.attrs.len() == 0,
        forall|i: int|
            0 <= i < ast.variants.len() ==> (#[trigger] ast.variants[i]).attrs.len() == 0,
    ensures
        stringified(ast) is Ok,
        stringified(ast)->Ok_0.pairs.len() == ast.variants.len(),
        forall|i: int|
            0 <= i < ast.variants.len() ==> (#[trigger] stringified(ast)->Ok_0.pairs[i]) == (
                ast.variants[i].ident,
                ast.variants[i].ident,
            ),
{
    lemma_renamed_cases_each(ast.variants);
}

/// Rename precedence: a case with a rename has that rename as its text,
/// whatever the configuration of the type.
pub proof fn lemma_rename_precedence(ast: DeclarationView, i: int, text: Seq<char>)
    requires
        stringified(ast) is Ok,
        0 <= i < ast.variants.len(),
        all_attributes(ast.variants[i].attrs) matches Ok(found) && last_rename(found) == Some(
            text,
        ),
    ensures
        stringified(ast)->Ok_0.pairs[i] == (ast.variants[i].ident, text),
{
    lemma_stringified_each(ast, i);
}

/// Order of composition: the text of a case that is not renamed is its
/// identifier between prefix and suffix, and that whole text converted into
/// the case style where one is set.
pub proof fn lemma_order_of_composition(ast: DeclarationView, i: int)
    requires
        stringified(ast) is Ok,
        0 <= i < ast.variants.len(),
        all_attributes(ast.variants[i].attrs) matches Ok(found) && last_rename(found) is None,
    ensures
        all_attributes(ast.attrs) is Ok,
        ({
            let config = configured(all_attributes(ast.attrs)->Ok_0);
            let joined = affix(config.prefix) + ast.variants[i].ident + affix(config.suffix);
            stringified(ast)->Ok_0.pairs[i].1 == match config.case {
                Some(case) => cased(case, joined),
                None => joined,
            }
        }),
{
    lemma_stringified_each(ast, i);
}

/// Whether two attributes set the same key.
pub open spec fn same_key(a: AttributeView, b: AttributeView) -> bool {
    ||| a is Prefix && b is Prefix
    ||| a is Suffix && b is Suffix
    ||| a is CaseStyle && b is CaseStyle
    ||| a is Rename && b is Rename
}

/// Last wins: of the attributes of a run that set one key, the last is the
/// one in force.
pub proof fn lemma_last_wins(attributes: Seq<AttributeView>, i: int)
    requires
        0 <= i < attributes.len(),
        forall|j: int|
            i < j < attributes.len() ==> !same_key(#[trigger] attributes[j], attributes[i]),
    ensures
        match attributes[i] {
            AttributeView::Prefix(text) => configured(attributes).prefix == Some(text),
            AttributeView::Suffix(text) => configured(attributes).suffix == Some(text),
            AttributeView::CaseStyle(case) => configured(attributes).case == Some(case),
            AttributeView::Rename(text) => last_rename(attributes) == Some(text),
        },
    decreases attributes.len(),
{
    if i < attributes.len() - 1 {
        lemma_last_wins(attributes.drop_last(), i);
    }
}

/// A key that no attribute of a run sets is not set.
pub proof fn lemma_unset_stays_unset(attributes: Seq<AttributeView>)
    ensures
        (forall|j: int| 0 <= j < attributes.len() ==> !((#[trigger] attributes[j]) is Prefix))
            ==> configured(attributes).prefix is None,
        (forall|j: int| 0 <= j < attributes.len() ==> !((#[trigger] attributes[j]) is Suffix))
            ==> configured(attributes).suffix is None,
        (forall|j: int| 0 <= j < attributes.len() ==> !((#[trigger] attributes[j]) is CaseStyle))
            ==> configured(attributes).case is None,
        (forall|j: int| 0 <= j < attributes.len() ==> !((#[trigger] attributes[j]) is Rename))
            ==> last_rename(attributes) is None,
    decreases attributes.len(),
{
    if attributes.len() > 0 {
        lemma_unset_stays_unset(attributes.drop_last());
    }
}

/// Whether no two cases share a text.
pub open spec fn distinct_texts(pairs: Seq<Name>) -> bool {
    forall|i: int, j: int|
        0 <= i < j < pairs.len() ==> (#[trigger] pairs[i]).1 != (#[trigger] pairs[j]).1
}

/// A text leads to the first case that has it, and to none where no case
/// has it.
pub proof fn lemma_ident_of(pairs: Seq<Name>, text: Seq<char>)
    ensures
        match ident_of(pairs, text) {
            Some(ident) => exists|i: int|
                0 <= i < pairs.len() && (#[trigger] pairs[i]) == (ident, text) && forall|j: int|
                    0 <= j < i ==> (#[trigger] pairs[j]).1 != text,
            None => forall|i: int| 0 <= i < pairs.len() ==> (#[trigger] pairs[i]).1 != text,
        },
    decreases pairs.len(),
{
    if pairs.len() > 0 && pairs.first().1 != text {
        let rest = pairs.drop_first();
        lemma_ident_of(rest, text);
        match ident_of(rest, text) {
            Some(ident) => {
                let k = choose|i: int|
                    0 <= i < rest.len() && (#[trigger] rest[i]) == (ident, text) && forall|j: int|
                        0 <= j < i ==> (#[trigger] rest[j]).1 != text;
                assert forall|j: int| 0 <= j < k + 1 implies (#[trigger] pairs[j]).1 != text by {
                    if j > 0 {
                        assert(rest[j - 1] == pairs[j]);
                    }
                }
            },
            None => {
                assert forall|i: int| 0 <= i < pairs.len() implies (#[trigger] pairs[i]).1
                    != text by {
                    if i > 0 {
                        assert(rest[i - 1] == pairs[i]);
                    }
                }
            },
        }
    }
}

/// An identifier leads to the text of the first case that has it, and to
/// none where no case has it.
pub proof fn lemma_text_of(pairs: Seq<Name>, ident: Seq<char>)
    ensures
        match text_of(pairs, ident) {
            Some(text) => exists|i: int|
                0 <= i < pairs.len() && (#[trigger] pairs[i]) == (ident, text) && forall|j: int|
                    0 <= j < i ==> (#[trigger] pairs[j]).0 != ident,
            None => forall|i: int| 0 <= i < pairs.len() ==> (#[trigger] pairs[i]).0 != ident,
        },
    decreases pairs.len(),
{
    if pairs.len() > 0 && pairs.first().0 != ident {
        let rest = pairs.drop_first();
        lemma_text_of(rest, ident);
        match text_of(rest, ident) {
            Some(text) => {
                let k = choose|i: int|
                    0 <= i < rest.len() && (#[trigger] rest[i]) == (ident, text) && forall|j: int|
                        0 <= j < i ==> (#[trigger] rest[j]).0 != ident;
                assert forall|j: int| 0 <= j < k + 1 implies (#[trigger] pairs[j]).0 != ident by {
                    if j > 0 {
                        assert(rest[j - 1] == pairs[j]);
                    }
                }
            },
            None => {
                assert forall|i: int| 0 <= i < pairs.len() implies (#[trigger] pairs[i]).0
                    != ident by {
                    if i > 0 {
                        assert(rest[i - 1] == pairs[i]);
                    }
                }
            },
        }
    }
}

/// Round trip: where no two cases share a text, the text of a case leads
/// back to that case.
pub proof fn lemma_round_trip(pairs: Seq<Name>, i: int)
    requires
        distinct_texts(pairs),
        0 <= i < pairs.len(),
    ensures
        ident_of(pairs, pairs[i].1) == Some(pairs[i].0),
{
    lemma_ident_of(pairs, pairs[i].1);
}

/// Round trip, from the identifier: where no two cases share a text, the
/// text that an identifier is rendered to is read back as that identifier.
pub proof fn lemma_round_trip_of_ident(pairs: Seq<Name>, ident: Seq<char>)
    requires
        distinct_texts(pairs),
    ensures
        text_of(pairs, ident) matches Some(text) ==> ident_of(pairs, text) == Some(ident),
{
    lemma_text_of(pairs, ident);
    match text_of(pairs, ident) {
        Some(text) => {
            let k = choose|i: int|
                0 <= i < pairs.len() && (#[trigger] pairs[i]) == (ident, text) && forall|j: int|
                    0 <= j < i ==> (#[trigger] pairs[j]).0 != ident;
            lemma_round_trip(pairs, k);
        },
        None => {},
    }
}

/// Rejection: a text is refused exactly when it is the text of no case.
pub proof fn lemma_rejection(pairs: Seq<Name>, text: Seq<char>)
    ensures
        ident_of(pairs, text) is None <==> forall|i: int|
            0 <= i < pairs.len() ==> (#[trigger] pairs[i]).1 != text,
{
    lemma_ident_of(pairs, text);
}

/// Malformed configuration is fatal: a declaration resolves exactly when
/// every annotation of the type and of each case is free of faults. One
/// fault anywhere leaves no table at all.
pub proof fn lemma_fault_is_fatal(ast: DeclarationView)
    ensures
        stringified(ast) is Ok <==> (forall|j: int|
            0 <= j < ast.attrs.len() ==> attributes_of(#[trigger] ast.attrs[j]) is Ok) && (forall|
            i: int,
            j: int,
        |
            0 <= i < ast.variants.len() && 0 <= j < ast.variants[i].attrs.len() ==> attributes_of(
                #[trigger] ast.variants[i].attrs[j],
            ) is Ok),
{
    lemma_all_attributes_ok(ast.attrs);
    lemma_renamed_cases_each(ast.variants);
    assert forall|i: int| 0 <= i < ast.variants.len() implies (renamed_case(
        #[trigger] ast.variants[i],
    ) is Ok <==> forall|j: int|
        0 <= j < ast.variants[i].attrs.len() ==> attributes_of(
            #[trigger] ast.variants[i].attrs[j],
        ) is Ok) by {
        lemma_all_attributes_ok(ast.variants[i].attrs);
    }
}

/// Of the faults in a run of annotations, the first is the one reported.
pub proof fn lemma_first_fault(annotations: Seq<AnnotationView>, j: int)
    requires
        0 <= j < annotations.len(),
        attributes_of(annotations[j]) is Err,
        forall|k: int| 0 <= k < j ==> attributes_of(#[trigger] annotations[k]) is Ok,
    ensures
        all_attributes(annotations) == Err::<Seq<AttributeView>, ErrorView>(
            attributes_of(annotations[j])->Err_0,
        ),
{
    let before = annotations.take(j);
    lemma_all_attributes_ok(before);
    assert(annotations.take(j + 1).drop_last() =~= before);
    lemma_all_attributes_fault(annotations, j + 1);
}

/// An empty prefix and an empty suffix change no text.
pub proof fn lemma_empty_affixes(config: AttributesView, ident: Seq<char>)
    ensures
        (AttributesView {
            prefix: Some(Seq::empty()),
            suffix: Some(Seq::empty()),
            ..config
        }).renamed(ident) == (AttributesView { prefix: None, suffix: None, ..config }).renamed(
            ident,
        ),
{
}

} // verus!
