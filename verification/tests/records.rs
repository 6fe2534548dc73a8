use enum_stringify::attributes::Attributes;
use enum_stringify::case::Case;
use enum_stringify::declaration::Annotation;
use enum_stringify::error::DecodeError;
use enum_stringify::text::parse_string;
use enum_stringify::tokens::parse_token_list;
use enum_stringify::variants::VariantRename;

fn unquoted() -> Result<String, String> {
    Err("String must be enclosed in double quotes".to_string())
}

#[test]
fn test_parse_string() {
    assert_eq!(parse_string("\"hello\""), Ok("hello".to_string()));
    assert_eq!(parse_string("hello").map_err(|e| e.message()), unquoted());

    assert_eq!(parse_string("\"hello").map_err(|e| e.message()), unquoted());
    assert_eq!(parse_string("hello\"").map_err(|e| e.message()), unquoted());
    assert_eq!(parse_string("\"he\"llo\""), Ok("he\"llo".to_string()));

    assert_eq!(parse_string("\"\""), Ok(String::new()));
    assert_eq!(parse_string("\"\"\""), Ok("\"".to_string()));
}

fn records(tokens: &str) -> Vec<(String, String)> {
    parse_token_list(&tokens.parse().unwrap()).unwrap()
}

#[test]
fn test_parse_token_list_string_string() {
    assert_eq!(records(""), vec![]);

    assert_eq!(
        records(r#"rename = "hello""#),
        vec![("rename".to_string(), "\"hello\"".to_string())]
    );

    assert_eq!(
        records(r#"rename = "hello", rename = "world""#),
        vec![
            ("rename".to_string(), "\"hello\"".to_string()),
            ("rename".to_string(), "\"world\"".to_string()),
        ]
    );
}

fn values(tokens: &str) -> Vec<String> {
    records(tokens).into_iter().map(|record| parse_string(&record.1).unwrap()).collect()
}

#[test]
fn test_parse_token_list_struct() {
    assert_eq!(values(r#"rename = "hello""#), vec!["hello".to_string()]);

    assert_eq!(
        values(r#"rename = "hello", rename = "world""#),
        vec!["hello".to_string(), "world".to_string()]
    );
}

#[test]
fn test_variant_rename_try_from() {
    assert_eq!(
        VariantRename::try_from(("rename".to_string(), "\"hello\"".to_string())),
        Ok(VariantRename("hello".to_string()))
    );

    assert_eq!(
        VariantRename::try_from(("rename".to_string(), "hello".to_string())),
        Err(DecodeError::UnquotedString)
    );
    assert_eq!(
        DecodeError::UnquotedString.message(),
        "String must be enclosed in double quotes"
    );

    assert_eq!(
        VariantRename::try_from(("not_rename".to_string(), "\"hello\"".to_string())),
        Err(DecodeError::NotRename)
    );
    assert_eq!(DecodeError::NotRename.message(), "Not a rename string");
}

fn renames(tokens: &str) -> Vec<VariantRename> {
    records(tokens).into_iter().map(|record| VariantRename::try_from(record).unwrap()).collect()
}

#[test]
fn test_parse_token_list_variant_rename() {
    assert_eq!(renames(r#"rename = "hello""#), vec![VariantRename("hello".to_string())]);

    assert_eq!(
        renames(r#"rename = "hello", rename = "world""#),
        vec![VariantRename("hello".to_string()), VariantRename("world".to_string())]
    );
}

fn list(tokens: &str) -> Annotation {
    Annotation::list("enum_stringify", &tokens.parse().unwrap())
}

#[test]
fn test_attributes_parse_args() {
    let attribute = list(r#"prefix = "pre", suffix = "suf", case = "snake""#);
    let attributes = Attributes::parse_args(&attribute).unwrap().unwrap();
    assert_eq!(attributes.prefix, Some("pre".to_string()));
    assert_eq!(attributes.suffix, Some("suf".to_string()));
    assert_eq!(attributes.case.map(|a| a.to_string()), Some("snake".to_string()));

    let attribute = list(r#"prefix = "pre", suffix = "suf""#);
    let attributes = Attributes::parse_args(&attribute).unwrap().unwrap();
    assert_eq!(attributes.prefix, Some("pre".to_string()));
    assert_eq!(attributes.suffix, Some("suf".to_string()));
    assert_eq!(attributes.case, None);

    let attribute = list(r#"case = "snake""#);
    let attributes = Attributes::parse_args(&attribute).unwrap().unwrap();
    assert_eq!(attributes.prefix, None);
    assert_eq!(attributes.suffix, None);
    assert_eq!(attributes.case.map(|a| a.to_string()), Some("snake".to_string()));

    let attribute = Annotation::bare("enum_stringify");
    assert_eq!(Attributes::parse_args(&attribute), Ok(None));
}

#[test]
fn test_attributes_update_attribute() {
    let mut attributes = Attributes::default();
    assert_eq!(attributes.update_attribute(("prefix".to_string(), "\"pre\"".to_string())), Ok(()));
    assert_eq!(attributes.prefix, Some("pre".to_string()));

    assert_eq!(attributes.update_attribute(("suffix".to_string(), "\"suf\"".to_string())), Ok(()));
    assert_eq!(attributes.suffix, Some("suf".to_string()));

    assert_eq!(attributes.update_attribute(("case".to_string(), "\"snake\"".to_string())), Ok(()));
    assert_eq!(attributes.case.clone().map(|a| a.to_string()), Some("snake".to_string()));

    assert_eq!(
        attributes.update_attribute(("invalid".to_string(), "\"value\"".to_string())),
        Err(DecodeError::UnsupportedKey("invalid".to_string()))
    );
    assert_eq!(attributes.prefix, Some("pre".to_string()));
    assert_eq!(attributes.suffix, Some("suf".to_string()));
    assert_eq!(attributes.case.clone().map(|a| a.to_string()), Some("snake".to_string()));

    assert_eq!(attributes.update_attribute(("prefix".to_string(), "\"new1\"".to_string())), Ok(()));
    assert_eq!(attributes.prefix, Some("new1".to_string()));

    assert_eq!(attributes.update_attribute(("suffix".to_string(), "\"new2\"".to_string())), Ok(()));
    assert_eq!(attributes.suffix, Some("new2".to_string()));

    assert_eq!(attributes.update_attribute(("case".to_string(), "\"upper\"".to_string())), Ok(()));
    assert_eq!(attributes.case.clone().map(|a| a.to_string()), Some("upper".to_string()));
}

#[test]
fn test_attributes_rename() {
    let mut attributes = Attributes {
        prefix: Some("pre".to_string()),
        suffix: Some("suf".to_string()),
        case: None,
    };

    assert_eq!(attributes.rename("name"), "prenamesuf");
    assert_eq!(attributes.rename("Name"), "preNamesuf");
    assert_eq!(attributes.rename("NAME"), "preNAMEsuf");

    assert_eq!(
        attributes.update_attribute(("case".to_string(), "\"upper_flat\"".to_string())),
        Ok(())
    );
    assert_eq!(attributes.case, Some(Case::UpperFlat));

    assert_eq!(attributes.rename("name"), "PRENAMESUF");
    assert_eq!(attributes.rename("Name"), "PRENAMESUF");
    assert_eq!(attributes.rename("NAME"), "PRENAMESUF");
}
