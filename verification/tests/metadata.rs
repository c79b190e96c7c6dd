use skytree::entity::{Annotation, AnnotationStyle, Arguments, Delimiter};
use skytree::error::{Fault, GenerationError};
use skytree::metadata::{hash_attributes, parse_directives, parse_tokens, MetadataMap};
use skytree::token::{render_tokens, tokenize, Spacing, Token};

fn ident(name: &str) -> Token {
    Token::Ident(name.to_string())
}

fn value(map: &MetadataMap, key: &str) -> Option<String> {
    map.get(key).map(render_tokens)
}

fn annotation(name: &str, payload: &str) -> Annotation {
    Annotation {
        style: AnnotationStyle::Outer,
        path: vec![name.to_string()],
        arguments: Some(Arguments {
            delimiter: Delimiter::Parenthesis,
            tokens: tokenize(payload).unwrap(),
        }),
    }
}

#[test]
fn payload_is_read_into_keys_and_values() {
    let map = parse_directives("pre=true, post=false, table=x").unwrap();
    assert_eq!(value(&map, "pre"), Some("true".to_string()));
    assert_eq!(value(&map, "post"), Some("false".to_string()));
    assert_eq!(value(&map, "table"), Some("x".to_string()));
    assert_eq!(value(&map, "other"), None);
    assert!(map.contains_key("pre"));
    assert!(!map.contains_key("pr"));
}

#[test]
fn value_takes_every_token_up_to_the_comma() {
    let map =
        parse_directives("app_context_type=crate::AppData<'static>,connection_type=diesel::sqlite::SqliteConnection")
            .unwrap();
    assert_eq!(value(&map, "app_context_type"), Some("crate :: AppData <'static >".to_string()));
    assert_eq!(
        value(&map, "connection_type"),
        Some("diesel :: sqlite :: SqliteConnection".to_string())
    );
}

#[test]
fn comma_inside_a_group_does_not_end_the_value() {
    let map = parse_directives("a = f(x, y) z, b = 1").unwrap();
    assert_eq!(value(&map, "a"), Some("f (x , y) z".to_string()));
    assert_eq!(value(&map, "b"), Some("1".to_string()));
}

#[test]
fn equals_sign_after_the_first_value_token_belongs_to_the_value() {
    let map = parse_directives("a = b = c").unwrap();
    assert_eq!(
        map.get("a"),
        Some(&vec![ident("b"), Token::Punct('=', Spacing::Alone), ident("c")])
    );
}

#[test]
fn bare_key_has_an_empty_value() {
    let map = parse_directives("flag, other = 1").unwrap();
    assert_eq!(map.get("flag"), Some(&Vec::new()));
    assert_eq!(
        map.required("flag"),
        Err(Fault::InvalidValue("flag".to_string()))
    );
    assert_eq!(map.flag("flag"), Err(Fault::InvalidValue("flag".to_string())));
}

#[test]
fn repeated_key_starts_over() {
    let map = parse_directives("a = 1, a = 2").unwrap();
    assert_eq!(value(&map, "a"), Some("2".to_string()));
}

#[test]
fn empty_payload_has_no_directive() {
    let map = parse_directives("").unwrap();
    assert_eq!(map.get("pre"), None);
    assert_eq!(map.entries.len(), 0);
    let map = parse_directives(",,").unwrap();
    assert_eq!(map.entries.len(), 0);
}

#[test]
fn token_before_any_key_is_named() {
    assert_eq!(
        parse_directives("= true"),
        Err(Fault::UnexpectedToken("=".to_string()))
    );
    assert_eq!(
        parse_directives("a = 1, \"text\""),
        Err(Fault::UnexpectedToken("\"text\"".to_string()))
    );
    assert_eq!(
        parse_directives("(a = 1)"),
        Err(Fault::UnexpectedToken("(a = 1)".to_string()))
    );
    assert_eq!(
        parse_tokens(&vec![Token::Punct(';', Spacing::Alone)]),
        Err(Fault::UnexpectedToken(";".to_string()))
    );
}

#[test]
fn text_that_is_no_token_sequence_is_malformed() {
    assert_eq!(parse_directives("a = (b"), Err(Fault::MalformedAnnotation));
}

#[test]
fn text_nested_too_deep_is_malformed() {
    let payload = format!("a = {}1{}", "(".repeat(129), ")".repeat(129));
    assert_eq!(parse_directives(&payload), Err(Fault::MalformedAnnotation));
    let payload = format!("a = {}1{}", "(".repeat(128), ")".repeat(128));
    assert!(parse_directives(&payload).is_ok());
}

#[test]
fn flag_reads_booleans_only() {
    let map = parse_directives("pre=true, post=false, a=yes, b=1, c=true false, d=\"true\"").unwrap();
    assert_eq!(map.flag("pre"), Ok(true));
    assert_eq!(map.flag("post"), Ok(false));
    assert_eq!(map.flag("a"), Err(Fault::InvalidValue("a".to_string())));
    assert_eq!(map.flag("b"), Err(Fault::InvalidValue("b".to_string())));
    assert_eq!(map.flag("c"), Err(Fault::InvalidValue("c".to_string())));
    assert_eq!(map.flag("d"), Err(Fault::InvalidValue("d".to_string())));
    assert_eq!(map.flag("e"), Err(Fault::MissingKey("e".to_string())));
}

#[test]
fn required_values() {
    let map = parse_directives("table = schema::host_group, empty").unwrap();
    assert_eq!(map.required("table").map(|v| render_tokens(&v)), Ok("schema :: host_group".to_string()));
    assert_eq!(map.required("connection_type"), Err(Fault::MissingKey("connection_type".to_string())));
}

#[test]
fn optional_identifier_is_one_identifier_or_the_default() {
    let map = parse_directives(
        "table = schema::host_group, empty, field = title, text = \"title\", two = a b, raw = r#type",
    )
    .unwrap();
    assert_eq!(map.identifier("search_field", "name"), Ok("name".to_string()));
    assert_eq!(map.identifier("field", "name"), Ok("title".to_string()));
    assert_eq!(map.identifier("raw", "name"), Ok("r#type".to_string()));
    assert_eq!(map.identifier("table", "name"), Err(Fault::InvalidValue("table".to_string())));
    assert_eq!(map.identifier("empty", "name"), Err(Fault::InvalidValue("empty".to_string())));
    assert_eq!(map.identifier("text", "name"), Err(Fault::InvalidValue("text".to_string())));
    assert_eq!(map.identifier("two", "name"), Err(Fault::InvalidValue("two".to_string())));
}

#[test]
fn annotations_of_one_name_are_gathered() {
    let attrs = vec![
        annotation("rest", "pre=true"),
        annotation("crud", "table=x"),
        annotation("rest", "post=false"),
    ];
    let rest = hash_attributes(&attrs, "rest").unwrap();
    assert_eq!(value(&rest, "pre"), Some("true".to_string()));
    assert_eq!(value(&rest, "post"), Some("false".to_string()));
    assert_eq!(value(&rest, "table"), None);
    let crud = hash_attributes(&attrs, "crud").unwrap();
    assert_eq!(value(&crud, "table"), Some("x".to_string()));
    assert_eq!(value(&crud, "pre"), None);
    let none = hash_attributes(&attrs, "other").unwrap();
    assert_eq!(none.entries.len(), 0);
}

#[test]
fn open_key_does_not_reach_into_the_next_annotation() {
    let attrs = vec![annotation("rest", "a = 1"), annotation("rest", "b = 2")];
    let map = hash_attributes(&attrs, "rest").unwrap();
    assert_eq!(value(&map, "a"), Some("1".to_string()));
    assert_eq!(value(&map, "b"), Some("2".to_string()));
}

#[test]
fn annotation_without_payload_is_malformed() {
    let attrs = vec![Annotation {
        style: AnnotationStyle::Outer,
        path: vec!["rest".to_string()],
        arguments: None,
    }];
    assert_eq!(hash_attributes(&attrs, "rest"), Err(Fault::MalformedAnnotation));
    assert!(hash_attributes(&attrs, "crud").is_ok());
}

#[test]
fn annotation_with_a_longer_path_is_passed_over() {
    let attrs = vec![Annotation {
        style: AnnotationStyle::Outer,
        path: vec!["rest".to_string(), "extra".to_string()],
        arguments: None,
    }];
    assert_eq!(hash_attributes(&attrs, "rest").map(|m| m.entries.len()), Ok(0));
}

#[test]
fn fault_in_an_annotation_stops_the_gathering() {
    let attrs = vec![annotation("rest", "a = 1"), annotation("rest", "= 2"), annotation("rest", "b = 3")];
    assert_eq!(hash_attributes(&attrs, "rest"), Err(Fault::UnexpectedToken("=".to_string())));
}

#[test]
fn faults_in_words() {
    assert_eq!(Fault::MissingKey("pre".to_string()).message(), "missing mandatory key `pre`");
    assert_eq!(Fault::InvalidValue("post".to_string()).message(), "invalid value for key `post`");
    assert_eq!(Fault::UnexpectedToken("=".to_string()).message(), "unexpected token `=`");
    assert_eq!(Fault::MalformedAnnotation.message(), "malformed directive token sequence");
    assert_eq!(
        Fault::UnsupportedShape.message(),
        "unsupported declaration shape for companion-type derivation."
    );
    let error = GenerationError {
        declaration: "HostGroup".to_string(),
        fault: Fault::MissingKey("table".to_string()),
    };
    assert_eq!(error.message(), "HostGroup: missing mandatory key `table`");
}
