use skytree::companion::{derive_rest_new, plain_fields, resolve_table, CompanionType};
use skytree::entity::{
    extract_diesel_table_name, find_table_name, text_is, Annotation, AnnotationStyle, Arguments,
    Delimiter, EntityDeclaration, Field, Shape,
};
use skytree::error::{Fault, GenerationError};
use skytree::metadata::{parse_directives, MetadataMap};
use skytree::token::{render_tokens, tokenize, Token};

fn field(name: &str, type_signature: &str) -> Field {
    Field { name: name.to_string(), type_signature: type_signature.to_string() }
}

fn annotation(name: &str, payload: &str) -> Annotation {
    Annotation {
        style: AnnotationStyle::Outer,
        path: vec![name.to_string()],
        arguments: Some(Arguments {
            delimiter: Delimiter::Parenthesis,
            tokens: tokenize(payload).unwrap(),
        }),
    }
}

fn entity(fields: Vec<Field>, annotations: Vec<Annotation>) -> EntityDeclaration {
    EntityDeclaration { name: "Thing".to_string(), annotations, shape: Shape::Named(fields) }
}

fn names(fields: &[Field]) -> Vec<&str> {
    fields.iter().map(|f| f.name.as_str()).collect()
}

#[test]
fn companion_drops_the_identity_and_keeps_the_order() {
    let declaration = entity(
        vec![field("id", "i32"), field("a", "Option<i32>"), field("b", "String")],
        vec![],
    );
    let metadata = parse_directives("table = things").unwrap();
    let companion = derive_rest_new(&declaration, &metadata).unwrap();
    assert_eq!(companion.name, "NewThing");
    assert_eq!(companion.fields, vec![field("a", "Option<i32>"), field("b", "String")]);
    assert_eq!(render_tokens(&companion.table), "things");
}

#[test]
fn identity_is_dropped_wherever_it_stands() {
    let fields = vec![field("a", "A"), field("id", "i32"), field("b", "B"), field("c", "C")];
    assert_eq!(names(&plain_fields(&fields)), vec!["a", "b", "c"]);
    let fields = vec![field("a", "A"), field("b", "B"), field("id", "i32")];
    assert_eq!(names(&plain_fields(&fields)), vec!["a", "b"]);
}

#[test]
fn fields_without_identity_stay_as_they_are() {
    let fields = vec![field("a", "A"), field("ident", "B"), field("Id", "C"), field("id_", "D")];
    assert_eq!(plain_fields(&fields), fields);
    assert_eq!(plain_fields(&Vec::new()), Vec::new());
}

#[test]
fn derivation_is_idempotent_on_equal_input() {
    let declaration = entity(vec![field("id", "i32"), field("a", "A")], vec![]);
    let metadata = parse_directives("table = things").unwrap();
    assert_eq!(derive_rest_new(&declaration, &metadata), derive_rest_new(&declaration, &metadata));
}

#[test]
fn companion_needs_a_record_with_named_fields() {
    let metadata = parse_directives("table = things").unwrap();
    for shape in [Shape::Tuple, Shape::Unit, Shape::Enum, Shape::Union] {
        let declaration =
            EntityDeclaration { name: "Thing".to_string(), annotations: vec![], shape };
        let error = derive_rest_new(&declaration, &metadata).unwrap_err();
        assert_eq!(
            error,
            GenerationError { declaration: "Thing".to_string(), fault: Fault::UnsupportedShape }
        );
        assert_eq!(
            error.message(),
            "Thing: unsupported declaration shape for companion-type derivation."
        );
    }
}

#[test]
fn companion_needs_a_table() {
    let declaration = entity(vec![field("id", "i32")], vec![]);
    let error = derive_rest_new(&declaration, &MetadataMap::new()).unwrap_err();
    assert_eq!(error.fault, Fault::MissingKey("table".to_string()));
    assert_eq!(error.declaration, "Thing");
    let metadata = parse_directives("table").unwrap();
    let error = derive_rest_new(&declaration, &metadata).unwrap_err();
    assert_eq!(error.fault, Fault::InvalidValue("table".to_string()));
}

#[test]
fn missing_table_is_reported_before_the_shape() {
    let declaration =
        EntityDeclaration { name: "Thing".to_string(), annotations: vec![], shape: Shape::Enum };
    let error = derive_rest_new(&declaration, &MetadataMap::new()).unwrap_err();
    assert_eq!(error.fault, Fault::MissingKey("table".to_string()));
}

#[test]
fn table_comes_from_the_directive_or_the_persistence_annotation() {
    let declaration = entity(
        vec![field("id", "i32")],
        vec![annotation("derive", "Debug"), annotation("diesel", "table_name = schema::host_group")],
    );
    let from_annotation = resolve_table(&declaration, &MetadataMap::new()).unwrap();
    assert_eq!(render_tokens(&from_annotation), "schema :: host_group");
    let metadata = parse_directives("table = other").unwrap();
    let from_directive = resolve_table(&declaration, &metadata).unwrap();
    assert_eq!(render_tokens(&from_directive), "other");
    let empty = entity(vec![], vec![annotation("diesel", "table_name =")]);
    assert_eq!(
        resolve_table(&empty, &MetadataMap::new()),
        Err(Fault::InvalidValue("table".to_string()))
    );
}

#[test]
fn table_name_is_read_from_the_persistence_annotation_only() {
    let good = annotation("diesel", "table_name = schema::host_group");
    assert_eq!(
        extract_diesel_table_name(&good).map(|t| render_tokens(&t)),
        Some("schema :: host_group".to_string())
    );
    assert_eq!(extract_diesel_table_name(&annotation("rest", "table_name = x")), None);
    assert_eq!(extract_diesel_table_name(&annotation("diesel", "primary_key(id)")), None);
    assert_eq!(extract_diesel_table_name(&annotation("diesel", "table_name")), None);
    assert_eq!(extract_diesel_table_name(&annotation("diesel", "table_name: x")), None);
    assert_eq!(extract_diesel_table_name(&annotation("diesel", "\"table_name\" = x")), None);
    assert_eq!(extract_diesel_table_name(&annotation("diesel", "")), None);
    assert_eq!(
        extract_diesel_table_name(&annotation("diesel", "table_name =")),
        Some(Vec::<Token>::new())
    );
    let mut inner = annotation("diesel", "table_name = x");
    inner.style = AnnotationStyle::Inner;
    assert_eq!(extract_diesel_table_name(&inner), None);
    let mut bracketed = annotation("diesel", "table_name = x");
    bracketed.arguments.as_mut().unwrap().delimiter = Delimiter::Bracket;
    assert_eq!(extract_diesel_table_name(&bracketed), None);
    let mut bare = annotation("diesel", "table_name = x");
    bare.arguments = None;
    assert_eq!(extract_diesel_table_name(&bare), None);
    let mut pathless = annotation("diesel", "table_name = x");
    pathless.path = Vec::new();
    assert_eq!(extract_diesel_table_name(&pathless), None);
    let mut longer = annotation("diesel", "table_name = x");
    longer.path.push("more".to_string());
    assert_eq!(extract_diesel_table_name(&longer).map(|t| render_tokens(&t)), Some("x".to_string()));
}

#[test]
fn first_table_name_wins() {
    let annotations = vec![
        annotation("serde", "rename = x"),
        annotation("diesel", "table_name = first"),
        annotation("diesel", "table_name = second"),
    ];
    assert_eq!(find_table_name(&annotations).map(|t| render_tokens(&t)), Some("first".to_string()));
    assert_eq!(find_table_name(&Vec::new()), None);
}

#[test]
fn annotation_is_named_by_a_single_segment() {
    let rest = annotation("rest", "");
    assert!(rest.is_ident("rest"));
    assert!(!rest.is_ident("res"));
    assert!(!rest.is_ident("crud"));
    assert!(text_is(&"id".to_string(), "id"));
    assert!(!text_is(&"id".to_string(), "ID"));
}

#[test]
fn companion_declaration_text() {
    let companion = CompanionType {
        name: "NewHostGroup".to_string(),
        table: tokenize("schema::host_group").unwrap(),
        fields: vec![field("parent", "Option < i32 >"), field("name", "Option < String >")],
    };
    assert_eq!(
        companion.render(),
        "#[derive(Debug, Clone, serde::Deserialize, Insertable)]\n\
         #[diesel(table_name = schema :: host_group)]\n\
         pub struct NewHostGroup {\n    pub parent: Option < i32 >,\n    pub name: Option < String >,\n}\n"
    );
}

#[test]
fn companion_declaration_parses_as_a_record() {
    let declaration = entity(
        vec![field("id", "i32"), field("a", "Option<i32>"), field("b", "String")],
        vec![annotation("diesel", "table_name = things")],
    );
    let companion = derive_rest_new(&declaration, &MetadataMap::new()).unwrap();
    let parsed: syn::DeriveInput = syn::parse_str(&companion.render()).unwrap();
    assert_eq!(parsed.ident.to_string(), "NewThing");
    assert_eq!(parsed.attrs.len(), 2);
    match parsed.data {
        syn::Data::Struct(data) => {
            let fields: Vec<String> =
                data.fields.iter().map(|f| f.ident.as_ref().unwrap().to_string()).collect();
            assert_eq!(fields, vec!["a", "b"]);
        }
        _ => panic!("the companion is not a record"),
    }
}
