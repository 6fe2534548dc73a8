use enum_stringify::declaration::{Annotation, Declaration, Variant};
use enum_stringify::names::{enum_stringify, NameTable};

/// An annotation addressed to the library, with the tokens of its list.
fn list(tokens: &str) -> Annotation {
    Annotation::list("enum_stringify", &tokens.parse().unwrap())
}

/// A case with the annotations attached to it.
fn case(ident: &str, attrs: Vec<Annotation>) -> Variant {
    Variant { ident: ident.to_string(), attrs }
}

/// The names of an enumeration whose annotations are well formed.
fn names(ident: &str, attrs: Vec<Annotation>, variants: Vec<Variant>) -> NameTable {
    enum_stringify(&Declaration { ident: ident.to_string(), attrs, variants }).unwrap()
}

fn ainur() -> NameTable {
    names(
        "Ainur",
        vec![],
        vec![
            case("Valar", vec![list(r#"rename = "Gods""#)]),
            case("Maiar", vec![]),
        ],
    )
}

#[test]
fn test_simple_rename() {
    assert_eq!(ainur().to_string("Valar").unwrap(), "Gods");
    assert_eq!(ainur().to_string("Maiar").unwrap(), "Maiar");
}

#[test]
fn test_simple_rename_from_str() {
    assert_eq!(ainur().try_from("Gods"), Ok("Valar".to_string()));
    assert_eq!(ainur().try_from("Maiar"), Ok("Maiar".to_string()));
}

fn ainur2() -> NameTable {
    names(
        "Ainur2",
        vec![],
        vec![
            case("Valar", vec![list(r#"rename = "Gods""#)]),
            case("Maiar", vec![list(r#"rename = "Raiam""#)]),
        ],
    )
}

#[test]
fn test_simple_rename2() {
    assert_eq!(ainur2().to_string("Valar").unwrap(), "Gods");
    assert_eq!(ainur2().to_string("Maiar").unwrap(), "Raiam");
}

#[test]
fn test_simple_rename_from_str2() {
    assert_eq!(ainur2().try_from("Gods"), Ok("Valar".to_string()));
    assert_eq!(ainur2().try_from("Raiam"), Ok("Maiar".to_string()));
}

fn double_aniur_rename() -> NameTable {
    names(
        "DoubleAniurRename",
        vec![],
        vec![
            case("Valar", vec![list(r#"rename = "Gods""#), list(r#"rename = "Valar""#)]),
            case("Maiar", vec![list(r#"rename = "Raiam""#)]),
        ],
    )
}

#[test]
fn test_double_rename() {
    assert_eq!(double_aniur_rename().to_string("Valar").unwrap(), "Valar");
    assert_eq!(double_aniur_rename().to_string("Maiar").unwrap(), "Raiam");
}

#[test]
fn test_double_rename_from_str() {
    assert_eq!(double_aniur_rename().try_from("Valar"), Ok("Valar".to_string()));
    assert_eq!(double_aniur_rename().try_from("Raiam"), Ok("Maiar".to_string()));
}

fn seperator() -> NameTable {
    names(
        "Seperator",
        vec![],
        vec![
            case("Space", vec![list(r#"rename = " ""#)]),
            case("Hyphen", vec![list(r#"rename = "-""#)]),
            case("Empty", vec![list(r#"rename = """#)]),
        ],
    )
}

#[test]
fn test_seperator_rename() {
    assert_eq!(seperator().to_string("Space").unwrap(), " ");
    assert_eq!(seperator().to_string("Hyphen").unwrap(), "-");
    assert_eq!(seperator().to_string("Empty").unwrap(), "");
}

#[test]
fn test_seperator_rename_from_str() {
    assert_eq!(seperator().try_from(" "), Ok("Space".to_string()));
    assert_eq!(seperator().try_from("-"), Ok("Hyphen".to_string()));
    assert_eq!(seperator().try_from(""), Ok("Empty".to_string()));
    assert!(seperator().try_from("|").is_err());
}

fn istari() -> NameTable {
    names(
        "Istari",
        vec![],
        vec![
            case("Gandalf", vec![list(r#"rename = "Ã“lorin""#)]),
            case("Saruman", vec![]),
        ],
    )
}

#[test]
fn rename_test_rename_variants() {
    assert_eq!(istari().to_string("Gandalf").unwrap(), "Ã“lorin");
    assert_eq!(istari().try_from("Ã“lorin").unwrap(), "Gandalf");
    assert_eq!(istari().to_string("Saruman").unwrap(), "Saruman");
}

fn severity() -> NameTable {
    names(
        "Severity",
        vec![list(r#"prefix = "Pre", suffix = "Post", case = "upper_flat""#)],
        vec![
            case("High", vec![list(r#"rename = "critical""#)]),
            case("Low", vec![]),
        ],
    )
}

#[test]
fn rename_test_all_options() {
    assert_eq!(severity().to_string("High").unwrap(), "critical");
    assert_eq!(severity().to_string("Low").unwrap(), "PRELOWPOST");

    assert_eq!(severity().try_from("critical").unwrap(), "High");
    assert_eq!(severity().try_from("PRELOWPOST").unwrap(), "Low");
}

fn response() -> NameTable {
    names(
        "Response",
        vec![list(r#"prefix = "Pre", suffix = "Post", case = "upper_flat""#)],
        vec![
            case("Success", vec![list(r#"rename = "okay""#)]),
            case("ErroR", vec![]),
        ],
    )
}

#[test]
fn rename_test_combined_prefix_suffix_case_rename() {
    assert_eq!(response().to_string("Success").unwrap(), "okay");
    assert_eq!(response().to_string("ErroR").unwrap(), "PREERRORPOST");

    assert_eq!(response().try_from("okay").unwrap(), "Success");
    assert_eq!(response().try_from("PREERRORPOST").unwrap(), "ErroR");
}

fn special_chars() -> NameTable {
    names(
        "SpecialChars",
        vec![],
        vec![
            case("HelloWorld", vec![list(r#"rename = "Hello, World!""#)]),
            case("FullSuccess", vec![list(r#"rename = "100%Success""#)]),
            case("Cafe", vec![list(r#"rename = "CafÃ©""#)]),
        ],
    )
}

#[test]
fn rename_test_special_characters() {
    assert_eq!(special_chars().to_string("HelloWorld").unwrap(), "Hello, World!");
    assert_eq!(special_chars().to_string("FullSuccess").unwrap(), "100%Success");
    assert_eq!(special_chars().to_string("Cafe").unwrap(), "CafÃ©");

    assert_eq!(special_chars().try_from("Hello, World!").unwrap(), "HelloWorld");
    assert_eq!(special_chars().try_from("100%Success").unwrap(), "FullSuccess");
    assert_eq!(special_chars().try_from("CafÃ©").unwrap(), "Cafe");
}

fn unicode_enum_rename() -> NameTable {
    names(
        "UnicodeEnumRename",
        vec![],
        vec![
            case("Japanese", vec![list(r#"rename = "æ—¥æœ¬èªž""#)]),
            case("Star", vec![list(r#"rename = "ðŸŒŸ Star""#)]),
        ],
    )
}

#[test]
fn rename_test_unicode_rename() {
    assert_eq!(unicode_enum_rename().to_string("Japanese").unwrap(), "æ—¥æœ¬èªž");
    assert_eq!(unicode_enum_rename().to_string("Star").unwrap(), "ðŸŒŸ Star");

    assert_eq!(unicode_enum_rename().try_from("æ—¥æœ¬èªž").unwrap(), "Japanese");
    assert_eq!(unicode_enum_rename().try_from("ðŸŒŸ Star").unwrap(), "Star");
}

fn empty_string() -> NameTable {
    names(
        "EmptyString",
        vec![],
        vec![
            case("Silent", vec![list(r#"rename = """#)]),
        ],
    )
}

#[test]
fn rename_empty_rename() {
    assert_eq!(empty_string().to_string("Silent").unwrap(), "");
    assert_eq!(empty_string().try_from("").unwrap(), "Silent");
}
