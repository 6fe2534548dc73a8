use enum_stringify::declaration::{Annotation, Declaration, Variant};
use enum_stringify::error::{DecodeError, Error};
use enum_stringify::names::{enum_stringify, NameTable};

/// A case with the annotations attached to it.
fn case(ident: &str, attrs: Vec<Annotation>) -> Variant {
    Variant { ident: ident.to_string(), attrs }
}

/// An annotation of another library, as it stands beside ours.
fn serde() -> Annotation {
    Annotation::list("serde", &r#"rename_all = "snake_case""#.parse().unwrap())
}

/// An annotation addressed to the library, with the tokens of its list.
fn list(tokens: &str) -> Annotation {
    Annotation::list("enum_stringify", &tokens.parse().unwrap())
}

fn cases() -> Vec<Variant> {
    vec![case("A", vec![]), case("B", vec![]), case("C", vec![])]
}

// Testing compatibility with other attribute macros

fn my_enum(own: &str) -> Result<NameTable, Error> {
    enum_stringify(&Declaration {
        ident: "MyEnum".to_string(),
        attrs: vec![serde(), list(own)],
        variants: cases(),
    })
}

#[test]
fn compatibility_test_prefix_suffix_to_string() {
    // Values without quotes are a fault: nothing is resolved.
    assert_eq!(
        my_enum("prefix = MyPrefix, suffix = MySuffix"),
        Err(Error::Decode(DecodeError::UnquotedString))
    );

    let my_enum = my_enum(r#"prefix = "MyPrefix", suffix = "MySuffix""#).unwrap();
    assert_eq!(my_enum.to_string("A").unwrap(), "MyPrefixAMySuffix");
    assert_eq!(my_enum.to_string("B").unwrap(), "MyPrefixBMySuffix");
    assert_eq!(my_enum.to_string("C").unwrap(), "MyPrefixCMySuffix");
}

#[test]
fn compatibility_test_prefix_suffix_from_str() {
    assert!(my_enum("prefix = MyPrefix, suffix = MySuffix").is_err());

    let my_enum = my_enum(r#"prefix = "MyPrefix", suffix = "MySuffix""#).unwrap();
    assert_eq!(my_enum.try_from("MyPrefixAMySuffix"), Ok("A".to_string()));
    assert_eq!(my_enum.try_from("MyPrefixBMySuffix"), Ok("B".to_string()));
    assert_eq!(my_enum.try_from("MyPrefixCMySuffix"), Ok("C".to_string()));
}

// Testing commutativity with other attribute macros

fn my_enum2(own: &str) -> Result<NameTable, Error> {
    enum_stringify(&Declaration {
        ident: "MyEnum2".to_string(),
        attrs: vec![list(own), serde()],
        variants: cases(),
    })
}

#[test]
fn test_suffix_prefix_to_string() {
    assert_eq!(
        my_enum2("suffix = MySuffix, prefix = MyPrefix"),
        Err(Error::Decode(DecodeError::UnquotedString))
    );

    let my_enum2 = my_enum2(r#"suffix = "MySuffix", prefix = "MyPrefix""#).unwrap();
    assert_eq!(my_enum2.to_string("A").unwrap(), "MyPrefixAMySuffix");
    assert_eq!(my_enum2.to_string("B").unwrap(), "MyPrefixBMySuffix");
    assert_eq!(my_enum2.to_string("C").unwrap(), "MyPrefixCMySuffix");
}

#[test]
fn test_suffix_prefix_from_str() {
    assert!(my_enum2("suffix = MySuffix, prefix = MyPrefix").is_err());

    let my_enum2 = my_enum2(r#"suffix = "MySuffix", prefix = "MyPrefix""#).unwrap();
    assert_eq!(my_enum2.try_from("MyPrefixAMySuffix"), Ok("A".to_string()));
    assert_eq!(my_enum2.try_from("MyPrefixBMySuffix"), Ok("B".to_string()));
    assert_eq!(my_enum2.try_from("MyPrefixCMySuffix"), Ok("C".to_string()));
}
