use enum_stringify::declaration::{Annotation, Declaration, Variant};
use enum_stringify::names::{enum_stringify, NameTable};

/// An annotation addressed to the library, with the tokens of its list.
fn list(tokens: &str) -> Annotation {
    Annotation::list("enum_stringify", &tokens.parse().unwrap())
}

/// A case with the annotations attached to it.
fn case(ident: &str, attrs: Vec<Annotation>) -> Variant {
    Variant { ident: ident.to_string(), attrs }
}

/// The names of an enumeration whose annotations are well formed.
fn names(ident: &str, attrs: Vec<Annotation>, variants: Vec<Variant>) -> NameTable {
    enum_stringify(&Declaration { ident: ident.to_string(), attrs, variants }).unwrap()
}

fn letters() -> NameTable {
    names(
        "Letters",
        vec![list(r#"case = "upper""#)],
        vec![
            case("A", vec![]),
            case("B", vec![]),
        ],
    )
}

#[test]
fn case_test_case_conversion_upper() {
    assert_eq!(letters().to_string("A").unwrap(), "A");
    assert_eq!(letters().to_string("B").unwrap(), "B");

    assert_eq!(letters().try_from("A").unwrap(), "A");
    assert_eq!(letters().try_from("B").unwrap(), "B");
}

fn colors() -> NameTable {
    names(
        "Colors",
        vec![list(r#"case = "lower""#)],
        vec![
            case("Red", vec![]),
            case("Blue", vec![]),
        ],
    )
}

#[test]
fn case_test_case_conversion_lower() {
    assert_eq!(colors().to_string("Red").unwrap(), "red");
    assert_eq!(colors().to_string("Blue").unwrap(), "blue");

    assert_eq!(colors().try_from("red").unwrap(), "Red");
    assert_eq!(colors().try_from("blue").unwrap(), "Blue");
}

fn season() -> NameTable {
    names(
        "Season",
        vec![list(r#"case = "upper_flat""#)],
        vec![
            case("Spring", vec![]),
            case("Summer", vec![]),
            case("Fall", vec![]),
            case("Winter", vec![]),
        ],
    )
}

#[test]
fn case_test_upper_flat_case() {
    assert_eq!(season().to_string("Spring").unwrap(), "SPRING");
    assert_eq!(season().to_string("Summer").unwrap(), "SUMMER");
    assert_eq!(season().to_string("Fall").unwrap(), "FALL");
    assert_eq!(season().to_string("Winter").unwrap(), "WINTER");

    assert_eq!(season().try_from("SPRING").unwrap(), "Spring");
    assert_eq!(season().try_from("SUMMER").unwrap(), "Summer");
    assert_eq!(season().try_from("FALL").unwrap(), "Fall");
    assert_eq!(season().try_from("WINTER").unwrap(), "Winter");
}
