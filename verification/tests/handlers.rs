use skytree::crud::{derive_crud, render_crud, CrudNames};
use skytree::entity::{
    Annotation, AnnotationStyle, Arguments, Delimiter, EntityDeclaration, Field, Shape,
};
use skytree::error::Fault;
use skytree::handlers::{
    derive_rest, derive_rest_collection, derive_rest_traits, write_handler, Names, Verb,
};
use skytree::token::tokenize;

fn annotation(name: &str, payload: &str) -> Annotation {
    Annotation {
        style: AnnotationStyle::Outer,
        path: vec![name.to_string()],
        arguments: Some(Arguments {
            delimiter: Delimiter::Parenthesis,
            tokens: tokenize(payload).unwrap(),
        }),
    }
}

fn host_group(annotations: Vec<Annotation>) -> EntityDeclaration {
    EntityDeclaration {
        name: "HostGroup".to_string(),
        annotations,
        shape: Shape::Named(vec![
            Field { name: "id".to_string(), type_signature: "i32".to_string() },
            Field { name: "parent".to_string(), type_signature: "Option<i32>".to_string() },
            Field { name: "name".to_string(), type_signature: "Option<String>".to_string() },
        ]),
    }
}

fn names() -> Names {
    Names {
        entity: "HostGroup".to_string(),
        companion: "NewHostGroup".to_string(),
        app_data: "AppData".to_string(),
        connection: "SqliteConnection".to_string(),
    }
}

fn count(text: &str, part: &str) -> usize {
    text.matches(part).count()
}

fn rest_payload(pre: bool, post: bool) -> String {
    format!(
        "post={},pre={},app_context_type=crate::AppData<'static>,connection_type=diesel::sqlite::SqliteConnection",
        post, pre
    )
}

#[test]
fn handler_has_the_steps_of_its_directives() {
    for pre in [false, true] {
        for post in [false, true] {
            let text = derive_rest(&names(), pre, post);
            assert_eq!(count(&text, "rest::RestPre<HostGroup, NewHostGroup, AppData>>::pre_"), if pre { 4 } else { 0 });
            assert_eq!(count(&text, "rest::RestPost<HostGroup, NewHostGroup>>::post_"), if post { 4 } else { 0 });
            assert_eq!(count(&text, "rest::Crud<HostGroup, NewHostGroup, SqliteConnection>>::db_"), 4);
            assert_eq!(count(&text, "result.into()"), 4);
            assert_eq!(count(&text, "return err.into()"), if pre { 4 } else { 0 });
            assert_eq!(count(&text, "where HostGroup:"), if pre || post { 1 } else { 0 });
            assert_eq!(count(&text, "<AppData as rest::DbFactory<SqliteConnection>>::db(&app_data)"), 4);
            assert_eq!(count(&text, "actix_web::web::block("), 4);
        }
    }
}

#[test]
fn the_four_combinations_give_four_texts() {
    let mut texts = Vec::new();
    for pre in [false, true] {
        for post in [false, true] {
            texts.push(derive_rest(&names(), pre, post));
        }
    }
    for i in 0..texts.len() {
        for j in 0..texts.len() {
            assert_eq!(i == j, texts[i] == texts[j]);
        }
    }
}

#[test]
fn generation_is_deterministic() {
    let entity = host_group(vec![
        annotation("diesel", "table_name = schema::host_group"),
        annotation("rest", &rest_payload(true, true)),
    ]);
    assert_eq!(derive_rest_traits(&entity), derive_rest_traits(&entity));
}

#[test]
fn create_handler_without_hooks() {
    let mut text = String::new();
    write_handler(&mut text, &names(), Verb::Create, false, false);
    assert_eq!(
        text,
        "    async fn post(app_data: actix_web::web::Data<AppData>, actix_web::web::Json(new_object): actix_web::web::Json<NewHostGroup>) -> negotiated::Responder<AppData> {\n\
         \x20       actix_web::web::block(move || -> negotiated::Responder<AppData> {\n\
         \x20           let mut db = <AppData as rest::DbFactory<SqliteConnection>>::db(&app_data);\n\
         \x20           let result = <HostGroup as rest::Crud<HostGroup, NewHostGroup, SqliteConnection>>::db_insert(&mut db, &new_object);\n\
         \x20           result.into()\n\
         \x20       }).await.into()\n\
         \x20   }\n"
    );
}

#[test]
fn update_handler_with_both_hooks() {
    let mut text = String::new();
    write_handler(&mut text, &names(), Verb::Update, true, true);
    assert_eq!(
        text,
        "    async fn put(app_data: actix_web::web::Data<AppData>, id: actix_web::web::Path<i32>, actix_web::web::Json(to_update): actix_web::web::Json<HostGroup>) -> negotiated::Responder<AppData> {\n\
         \x20       actix_web::web::block(move || -> negotiated::Responder<AppData> {\n\
         \x20           let mut db = <AppData as rest::DbFactory<SqliteConnection>>::db(&app_data);\n\
         \x20           let id: i32 = id.into_inner();\n\
         \x20           let (_, filtered) = match <HostGroup as rest::RestPre<HostGroup, NewHostGroup, AppData>>::pre_put(&app_data, id, &to_update) {\n\
         \x20               Ok(value) => value,\n\
         \x20               Err(err) => return err.into(),\n\
         \x20           };\n\
         \x20           let mut merged = filtered.clone();\n\
         \x20           merged.id = id;\n\
         \x20           let result = <HostGroup as rest::Crud<HostGroup, NewHostGroup, SqliteConnection>>::db_update(&mut db, &merged);\n\
         \x20           let result = <HostGroup as rest::RestPost<HostGroup, NewHostGroup>>::post_put(id, &to_update, result);\n\
         \x20           result.into()\n\
         \x20       }).await.into()\n\
         \x20   }\n"
    );
}

#[test]
fn update_always_merges_the_addressed_identifier() {
    for pre in [false, true] {
        for post in [false, true] {
            let mut text = String::new();
            write_handler(&mut text, &names(), Verb::Update, pre, post);
            assert_eq!(count(&text, "merged.id = id;"), 1);
            assert_eq!(count(&text, "db_update(&mut db, &merged)"), 1);
            let source = if pre { "filtered.clone()" } else { "to_update.clone()" };
            assert_eq!(count(&text, source), 1);
        }
    }
}

#[test]
fn fetch_and_delete_handlers_pass_the_identifier() {
    let mut text = String::new();
    write_handler(&mut text, &names(), Verb::Fetch, false, true);
    assert_eq!(count(&text, "::db_fetch(&mut db, id)"), 1);
    assert_eq!(count(&text, "::post_get(id, result)"), 1);
    let mut text = String::new();
    write_handler(&mut text, &names(), Verb::Delete, true, false);
    assert_eq!(count(&text, "::pre_delete(&app_data, id)"), 1);
    assert_eq!(count(&text, "::db_delete(&mut db, filtered)"), 1);
    assert_eq!(Verb::Delete.method_name(), "delete");
    assert_eq!(Verb::Fetch.operation_name(), "db_fetch");
}

#[test]
fn list_handler_has_no_hooks() {
    let text = derive_rest_collection(&names());
    assert_eq!(count(&text, "pre_"), 0);
    assert_eq!(count(&text, "post_"), 0);
    assert_eq!(
        count(
            &text,
            "HostGroup::db_fetch_all(&mut db, query_parameters.q.unwrap_or_default(), query_parameters.limit).into()"
        ),
        1
    );
    assert_eq!(count(&text, ", None)"), 0);
    assert!(text.starts_with(
        "#[async_trait]\nimpl RestCollection<rest::RestCollectionGetParameters, AppData, SqliteConnection> for HostGroup {\n"
    ));
}

#[test]
fn generated_text_is_a_balanced_token_sequence() {
    for pre in [false, true] {
        for post in [false, true] {
            let entity = host_group(vec![
                annotation("diesel", "table_name = schema::host_group"),
                annotation("rest", &rest_payload(pre, post)),
                annotation("crud", "table=schema::host_group, connection_type=diesel::sqlite::SqliteConnection"),
            ]);
            let rest = derive_rest_traits(&entity).unwrap();
            assert!(rest.parse::<proc_macro2::TokenStream>().is_ok());
            let crud = derive_crud(&entity).unwrap();
            assert!(crud.parse::<proc_macro2::TokenStream>().is_ok());
        }
    }
}

#[test]
fn rest_generation_on_the_host_group() {
    let entity = host_group(vec![
        annotation("diesel", "table_name = schema::host_group"),
        annotation("rest", &rest_payload(true, true)),
    ]);
    let text = derive_rest_traits(&entity).unwrap();
    assert!(text.starts_with(
        "#[derive(Debug, Clone, serde::Deserialize, Insertable)]\n#[diesel(table_name = schema :: host_group)]\npub struct NewHostGroup {\n    pub parent: Option<i32>,\n    pub name: Option<String>,\n}\n#[async_trait]\nimpl RestCollection<"
    ));
    assert_eq!(
        count(&text, "impl Rest<HostGroup, NewHostGroup, crate :: AppData <'static >, diesel :: sqlite :: SqliteConnection> for HostGroup\n"),
        1
    );
    assert_eq!(count(&text, "::pre_post(&app_data, &new_object)"), 1);
    assert_eq!(count(&text, "::post_delete(id, result)"), 1);
}

#[test]
fn rest_generation_checks_its_schema_in_order() {
    let fault = |payload: &str| {
        let entity = host_group(vec![
            annotation("diesel", "table_name = t"),
            annotation("rest", payload),
        ]);
        let error = derive_rest_traits(&entity).unwrap_err();
        assert_eq!(error.declaration, "HostGroup");
        error.fault
    };
    assert_eq!(fault(""), Fault::MissingKey("pre".to_string()));
    assert_eq!(fault("pre=true"), Fault::MissingKey("post".to_string()));
    assert_eq!(fault("pre=1, post=true"), Fault::InvalidValue("pre".to_string()));
    assert_eq!(fault("pre=true, post"), Fault::InvalidValue("post".to_string()));
    assert_eq!(fault("pre=true, post=false"), Fault::MissingKey("app_context_type".to_string()));
    assert_eq!(
        fault("pre=true, post=false, app_context_type=A"),
        Fault::MissingKey("connection_type".to_string())
    );
    assert_eq!(
        fault("pre=true, post=false, app_context_type=A, connection_type"),
        Fault::InvalidValue("connection_type".to_string())
    );
    assert_eq!(fault("pre=true, = post"), Fault::UnexpectedToken("=".to_string()));
}

#[test]
fn rest_generation_needs_table_and_record() {
    let payload = rest_payload(false, false);
    let entity = host_group(vec![annotation("rest", &payload)]);
    assert_eq!(derive_rest_traits(&entity).unwrap_err().fault, Fault::MissingKey("table".to_string()));
    let mut entity = host_group(vec![annotation("rest", &format!("{}, table = t", payload))]);
    assert!(derive_rest_traits(&entity).is_ok());
    entity.shape = Shape::Tuple;
    assert_eq!(derive_rest_traits(&entity).unwrap_err().fault, Fault::UnsupportedShape);
}

#[test]
fn failure_of_one_declaration_leaves_the_next_alone() {
    let bad = host_group(vec![annotation("rest", "pre=maybe")]);
    let good = host_group(vec![
        annotation("diesel", "table_name = t"),
        annotation("rest", &rest_payload(false, true)),
    ]);
    let before = derive_rest_traits(&good);
    assert!(derive_rest_traits(&bad).is_err());
    assert_eq!(derive_rest_traits(&good), before);
    assert!(before.is_ok());
}

#[test]
fn crud_generation_on_the_host_group() {
    let entity = host_group(vec![annotation(
        "crud",
        "table=schema::host_group, connection_type=diesel::sqlite::SqliteConnection",
    )]);
    let text = derive_crud(&entity).unwrap();
    assert!(text.starts_with(
        "impl rest::Crud<HostGroup, NewHostGroup, diesel :: sqlite :: SqliteConnection> for HostGroup {\n"
    ));
    assert_eq!(
        count(
            &text,
            "let pattern = format!(\"%{}%\", text_filter.replace('\\\\', \"\\\\\\\\\").replace('%', \"\\\\%\").replace('_', \"\\\\_\"));"
        ),
        1
    );
    assert_eq!(
        count(&text, "query = query.filter(schema :: host_group::name.like(pattern).escape('\\\\'));"),
        1
    );
    assert_eq!(count(&text, "diesel::insert_into(schema :: host_group::table)"), 1);
    assert_eq!(count(&text, ".filter(schema :: host_group::dsl::id.eq(to_update.id))"), 1);
    assert_eq!(count(&text, "if !text_filter.is_empty() {"), 1);
    assert_eq!(count(&text, "if let Some(limit_value) = limit {"), 1);
    for operation in ["fn db_insert(", "fn db_update(", "fn db_fetch_all(", "fn db_fetch(", "fn db_delete("] {
        assert_eq!(count(&text, operation), 1);
    }
}

#[test]
fn crud_delete_fetches_before_it_deletes() {
    let names = CrudNames {
        entity: "E".to_string(),
        companion: "NewE".to_string(),
        connection: "C".to_string(),
        table: "t".to_string(),
        search_field: "name".to_string(),
    };
    let text = render_crud(&names);
    let delete = &text[text.find("fn db_delete(").unwrap()..];
    let fetch = delete.find("let fetched = Self::db_fetch(db, id)?;").unwrap();
    let remove = delete.find("diesel::delete(t::table)").unwrap();
    let give = delete.find("Ok(fetched)").unwrap();
    assert!(fetch < remove && remove < give);
}

#[test]
fn crud_search_field_defaults_to_name() {
    let payload = "table=t, connection_type=C";
    let entity = host_group(vec![annotation("crud", payload)]);
    assert_eq!(count(&derive_crud(&entity).unwrap(), "t::name.like("), 1);
    let entity = host_group(vec![annotation("crud", &format!("{}, search_field=title", payload))]);
    let text = derive_crud(&entity).unwrap();
    assert_eq!(count(&text, "t::title.like("), 1);
    assert_eq!(count(&text, "t::name.like("), 0);
}

#[test]
fn crud_generation_checks_its_schema_in_order() {
    let fault = |payload: &str| {
        let error = derive_crud(&host_group(vec![annotation("crud", payload)])).unwrap_err();
        assert_eq!(error.declaration, "HostGroup");
        error.fault
    };
    assert_eq!(fault(""), Fault::MissingKey("table".to_string()));
    assert_eq!(fault("connection_type=C"), Fault::MissingKey("table".to_string()));
    assert_eq!(fault("table=t"), Fault::MissingKey("connection_type".to_string()));
    assert_eq!(fault("table, connection_type=C"), Fault::InvalidValue("table".to_string()));
    assert_eq!(
        fault("table=t, connection_type=C, search_field"),
        Fault::InvalidValue("search_field".to_string())
    );
    for wrong in ["schema::title", "\"title\"", "title extra", "(title)", "1"] {
        assert_eq!(
            fault(&format!("table=t, connection_type=C, search_field={}", wrong)),
            Fault::InvalidValue("search_field".to_string())
        );
    }
    let rest_only = host_group(vec![annotation("rest", "table=t, connection_type=C")]);
    assert_eq!(derive_crud(&rest_only).unwrap_err().fault, Fault::MissingKey("table".to_string()));
}
