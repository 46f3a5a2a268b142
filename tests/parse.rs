use std::collections::BTreeMap;

use markdown_frontmatter::decode::{parse, FrontmatterValue};
use markdown_frontmatter::error::FrontmatterError;
use markdown_frontmatter::format::FrontmatterFormat;
use markdown_frontmatter::split::SplitFrontmatter;

const EMPTY_DOCUMENT: &str = "";
const DOCUMENT_WITHOUT_FRONTMATTER: &str = "hello world";

const JSON_VALID_DOCUMENT: &str = "{\n\t\"foo\": true\n}\nhello world";
const JSON_INVALID_SYNTAX: &str = "{\n1\n}";
const JSON_INVALID_TYPE: &str = "{\n\t\"foo\": 0\n}";

const TOML_VALID_DOCUMENT: &str = "+++\nfoo = true\n+++\nhello world";
const TOML_INVALID_SYNTAX: &str = "+++\nfoobar\n+++\n";
const TOML_INVALID_TYPE: &str = "+++\nfoo = 123\n+++\n";

const YAML_VALID_DOCUMENT: &str = "---\nfoo: true\n---\nhello world";
const YAML_INVALID_SYNTAX: &str = "---\n:\n---\n";
const YAML_INVALID_TYPE: &str = "---\nfoo: 123\n---\n";

/// The keys of a decoded block that is a table, with the value of `foo` when
/// it is a boolean.
fn keys_and_foo(value: &FrontmatterValue) -> (usize, Option<bool>) {
    match value {
        FrontmatterValue::Json(v) => {
            let map = v.as_object().unwrap();
            (map.len(), map.get("foo").and_then(|f| f.as_bool()))
        }
        FrontmatterValue::Toml(v) => {
            let table = v.as_table().unwrap();
            (table.len(), table.get("foo").and_then(|f| f.as_bool()))
        }
        FrontmatterValue::Yaml(v) => {
            let mapping = v.as_mapping().unwrap();
            (mapping.len(), mapping.get("foo").and_then(|f| f.as_bool()))
        }
    }
}

#[test]
fn lib_empty_frontmatter_in_empty_document() {
    let (frontmatter, body) = parse(EMPTY_DOCUMENT).unwrap();
    assert!(matches!(frontmatter, FrontmatterValue::Json(_)));
    assert_eq!(keys_and_foo(&frontmatter), (0, None));
    assert_eq!(body, "");
}

#[test]
fn lib_optional_frontmatter_in_empty_document() {
    let (frontmatter, body) = parse(EMPTY_DOCUMENT).unwrap();
    assert_eq!(keys_and_foo(&frontmatter).1, None);
    assert_eq!(body, "");
}

#[test]
fn lib_empty_frontmatter_in_document_without_frontmatter() {
    let (frontmatter, body) = parse(DOCUMENT_WITHOUT_FRONTMATTER).unwrap();
    assert_eq!(keys_and_foo(&frontmatter), (0, None));
    assert_eq!(body, DOCUMENT_WITHOUT_FRONTMATTER);
}

#[test]
fn lib_optional_frontmatter_in_document_without_frontmatter() {
    let (frontmatter, body) = parse(DOCUMENT_WITHOUT_FRONTMATTER).unwrap();
    assert_eq!(keys_and_foo(&frontmatter).1, None);
    assert_eq!(body, DOCUMENT_WITHOUT_FRONTMATTER);
}

#[test]
fn lib_optional_frontmatter_in_valid_document() {
    let (frontmatter, body) = parse(JSON_VALID_DOCUMENT).unwrap();
    assert!(matches!(frontmatter, FrontmatterValue::Json(_)));
    assert_eq!(keys_and_foo(&frontmatter).1, Some(true));
    assert_eq!(body, "hello world");
}

#[test]
fn lib_required_frontmatter_in_valid_document() {
    let (frontmatter, body) = parse(JSON_VALID_DOCUMENT).unwrap();
    assert_eq!(keys_and_foo(&frontmatter), (1, Some(true)));
    assert_eq!(body, "hello world");
}

#[test]
fn lib_optional_frontmatter_invalid_syntax() {
    let result = parse(JSON_INVALID_SYNTAX);
    assert!(matches!(result.unwrap_err(), FrontmatterError::InvalidJson(..)));
}

#[test]
fn lib_required_frontmatter_invalid_syntax() {
    let result = parse(JSON_INVALID_SYNTAX);
    assert!(matches!(result.unwrap_err(), FrontmatterError::InvalidJson(..)));
}

#[test]
fn toml_optional_frontmatter_in_valid_document() {
    let (frontmatter, body) = parse(TOML_VALID_DOCUMENT).unwrap();
    assert!(matches!(frontmatter, FrontmatterValue::Toml(_)));
    assert_eq!(keys_and_foo(&frontmatter).1, Some(true));
    assert_eq!(body, "hello world");
}

#[test]
fn toml_required_frontmatter_in_valid_document() {
    let (frontmatter, body) = parse(TOML_VALID_DOCUMENT).unwrap();
    assert_eq!(keys_and_foo(&frontmatter), (1, Some(true)));
    assert_eq!(body, "hello world");
}

#[test]
fn toml_frontmatter_invalid_syntax() {
    let result = parse(TOML_INVALID_SYNTAX);
    assert!(matches!(result.unwrap_err(), FrontmatterError::InvalidToml(..)));
}

#[test]
fn yaml_optional_frontmatter_in_valid_document() {
    let (frontmatter, body) = parse(YAML_VALID_DOCUMENT).unwrap();
    assert!(matches!(frontmatter, FrontmatterValue::Yaml(_)));
    assert_eq!(keys_and_foo(&frontmatter).1, Some(true));
    assert_eq!(body, "hello world");
}

#[test]
fn yaml_required_frontmatter_in_valid_document() {
    let (frontmatter, body) = parse(YAML_VALID_DOCUMENT).unwrap();
    assert_eq!(keys_and_foo(&frontmatter), (1, Some(true)));
    assert_eq!(body, "hello world");
}

#[test]
fn yaml_frontmatter_invalid_syntax() {
    let result = parse(YAML_INVALID_SYNTAX);
    assert!(matches!(result.unwrap_err(), FrontmatterError::InvalidYaml(..)));
}

#[test]
fn well_formed_blocks_of_the_wrong_shape_still_decode() {
    for input in [JSON_INVALID_TYPE, TOML_INVALID_TYPE, YAML_INVALID_TYPE] {
        let (frontmatter, body) = parse(input).unwrap();
        assert_eq!(keys_and_foo(&frontmatter), (1, None));
        assert_eq!(body, "");
    }
}

#[test]
fn yaml_boolean_fits_a_boolean_shape_but_not_an_integer_one() {
    let (frontmatter, _) = parse("---\nfoo: true\n---\n").unwrap();
    let FrontmatterValue::Yaml(value) = frontmatter else {
        panic!("expected a YAML value");
    };
    let as_bool: Result<BTreeMap<String, bool>, _> = serde_yaml::from_value(value.clone());
    assert_eq!(as_bool.unwrap().get("foo"), Some(&true));
    let as_int: Result<BTreeMap<String, i64>, _> = serde_yaml::from_value(value);
    assert!(as_int.is_err());
}

#[test]
fn unclosed_block_fails_before_decoding() {
    assert!(matches!(
        parse("---\nfoo: true\n").unwrap_err(),
        FrontmatterError::AbsentClosingDelimiter("YAML")
    ));
}

#[test]
fn format_parse_dispatches_by_notation() {
    assert!(matches!(
        FrontmatterFormat::Json.parse("[1, 2]"),
        Ok(FrontmatterValue::Json(_))
    ));
    assert!(matches!(
        FrontmatterFormat::Toml.parse("a = [1, 2]\n"),
        Ok(FrontmatterValue::Toml(_))
    ));
    assert!(matches!(
        FrontmatterFormat::Yaml.parse("- 1\n- 2\n"),
        Ok(FrontmatterValue::Yaml(_))
    ));
    assert!(matches!(
        FrontmatterFormat::Json.parse("a = 1"),
        Err(FrontmatterError::InvalidJson(_))
    ));
    assert!(matches!(
        FrontmatterFormat::Toml.parse("{\"a\": 1}"),
        Err(FrontmatterError::InvalidToml(_))
    ));
    assert!(matches!(
        FrontmatterFormat::Yaml.parse("a: [1"),
        Err(FrontmatterError::InvalidYaml(_))
    ));
}

#[test]
fn default_block_is_an_empty_json_object() {
    let SplitFrontmatter(format, text) = SplitFrontmatter::default();
    assert_eq!(format, FrontmatterFormat::Json);
    assert_eq!(text, "{}");
}
