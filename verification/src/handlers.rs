//! The source text of an entity's REST handlers.
//!
//! Every handler has the same build: it acquires a connection, runs the
//! steps that the entity's two directives ask for, and turns the result into
//! the envelope. Only the names differ from verb to verb, and the steps from
//! one combination of the directives to another.

use crate::companion::{companion, companion_text, derive_rest_new};
use crate::entity::{EntityDeclaration, EntityView};
use crate::error::{FaultView, GenerationError, GenerationErrorView};
use crate::metadata::{flag_value, gathered, hash_attributes, required_value};
use crate::pipeline::{plan, steps, Step};
use crate::token::{render_tokens, rendered, TokenView};
use vstd::prelude::*;

verus! {

/// The four operations on a single row.
#[derive(Clone, Copy, Debug, PartialEq, Eq, Structural)]
pub enum Verb {
    Create,
    Fetch,
    Update,
    Delete,
}

/// The names that the generated text refers to.
#[derive(Debug, PartialEq, Eq)]
pub struct Names {
    /// The entity's type.
    pub entity: String,
    /// The companion type without identity.
    pub companion: String,
    /// The application-context type.
    pub app_data: String,
    /// The connection type.
    pub connection: String,
}

/// The mathematical value of [`Names`].
pub ghost struct NamesView {
    pub entity: Seq<char>,
    pub companion: Seq<char>,
    pub app_data: Seq<char>,
    pub connection: Seq<char>,
}

impl View for Names {
    type V = NamesView;

    open spec fn view(&self) -> NamesView {
        NamesView {
            entity: self.entity@,
            companion: self.companion@,
            app_data: self.app_data@,
            connection: self.connection@,
        }
    }
}

impl Verb {
    /// The handler's name, which is also what its hooks and its persistence
    /// operation are named after.
    pub open spec fn method(self) -> Seq<char> {
        match self {
            Verb::Create => "post"@,
            Verb::Fetch => "get"@,
            Verb::Update => "put"@,
            Verb::Delete => "delete"@,
        }
    }

    /// The name of the persistence operation.
    pub open spec fn operation(self) -> Seq<char> {
        match self {
            Verb::Create => "db_insert"@,
            Verb::Fetch => "db_fetch"@,
            Verb::Update => "db_update"@,
            Verb::Delete => "db_delete"@,
        }
    }

    /// The handler's input as it came: what the pre-hook is called with,
    /// after the application context, and the post-hook, before the
    /// persistence result.
    pub open spec fn raw_input(self) -> Seq<char> {
        match self {
            Verb::Create => "&new_object"@,
            Verb::Fetch => "id"@,
            Verb::Update => "id, &to_update"@,
            Verb::Delete => "id"@,
        }
    }

    /// The pattern that a passing pre-hook's value is bound with.
    pub open spec fn filtered_pattern(self) -> Seq<char> {
        match self {
            Verb::Update => "(_, filtered)"@,
            _ => "filtered"@,
        }
    }

    /// What the persistence operation is called with, after the connection.
    /// With a pre-hook it is the hook's value, else the input as it came; an
    /// update persists the merged record either way.
    pub open spec fn persisted_input(self, pre: bool) -> Seq<char> {
        match self {
            Verb::Create => if pre {
                "&filtered"@
            } else {
                "&new_object"@
            },
            Verb::Update => "&merged"@,
            _ => if pre {
                "filtered"@
            } else {
                "id"@
            },
        }
    }

    pub fn method_name(self) -> (name: &'static str)
        ensures
            name@ == self.method(),
    {
        match self {
            Verb::Create => "post",
            Verb::Fetch => "get",
            Verb::Update => "put",
            Verb::Delete => "delete",
        }
    }

    pub fn operation_name(self) -> (name: &'static str)
        ensures
            name@ == self.operation(),
    {
        match self {
            Verb::Create => "db_insert",
            Verb::Fetch => "db_fetch",
            Verb::Update => "db_update",
            Verb::Delete => "db_delete",
        }
    }

    fn raw_input_text(self) -> (text: &'static str)
        ensures
            text@ == self.raw_input(),
    {
        match self {
            Verb::Create => "&new_object",
            Verb::Fetch => "id",
            Verb::Update => "id, &to_update",
            Verb::Delete => "id",
        }
    }

    fn filtered_pattern_text(self) -> (text: &'static str)
        ensures
            text@ == self.filtered_pattern(),
    {
        match self {
            Verb::Update => "(_, filtered)",
            _ => "filtered",
        }
    }

    fn persisted_input_text(self, pre: bool) -> (text: &'static str)
        ensures
            text@ == self.persisted_input(pre),
    {
        match self {
            Verb::Create => if pre {
                "&filtered"
            } else {
                "&new_object"
            },
            Verb::Update => "&merged",
            _ => if pre {
                "filtered"
            } else {
                "id"
            },
        }
    }
}

/// `text` followed by the handler's signature and the opening of the
/// offloaded closure, in which the connection is acquired.
pub open spec fn with_opening(text: Seq<char>, names: NamesView, verb: Verb) -> Seq<char> {
    let head = text + "    async fn "@ + verb.method() + "(app_data: actix_web::web::Data<"@
        + names.app_data + ">, "@;
    let parameters = match verb {
        Verb::Create => head + "actix_web::web::Json(new_object): actix_web::web::Json<"@
            + names.companion + ">"@,
        Verb::Update => head
            + "id: actix_web::web::Path<i32>, actix_web::web::Json(to_update): actix_web::web::Json<"@
            + names.entity + ">"@,
        _ => head + "id: actix_web::web::Path<i32>"@,
    };
    let block = parameters + ") -> negotiated::Responder<"@ + names.app_data + "> {\n"@
        + "        actix_web::web::block(move || -> negotiated::Responder<"@ + names.app_data
        + "> {\n"@ + "            let mut db = <"@ + names.app_data + " as rest::DbFactory<"@
        + names.connection + ">>::db(&app_data);\n"@;
    match verb {
        Verb::Create => block,
        _ => block + "            let id: i32 = id.into_inner();\n"@,
    }
}

/// `text` followed by the pre-hook step: the hook's value is bound, and its
/// failure leaves the closure as the envelope.
pub open spec fn with_filter(text: Seq<char>, names: NamesView, verb: Verb) -> Seq<char> {
    text + "            let "@ + verb.filtered_pattern() + " = match <"@ + names.entity
        + " as rest::RestPre<"@ + names.entity + ", "@ + names.companion + ", "@ + names.app_data
        + ">>::pre_"@ + verb.method() + "(&app_data, "@ + verb.raw_input()
        + ") {\n                Ok(value) => value,\n                Err(err) => return err.into(),\n            };\n"@
}

/// `text` followed by the persistence step. An update first merges: the
/// record to persist is the body, as the pre-hook left it where there is
/// one, with the addressed identifier written over its own.
pub open spec fn with_persist(text: Seq<char>, names: NamesView, verb: Verb, pre: bool) -> Seq<char> {
    let merged = match verb {
        Verb::Update => text + "            let mut merged = "@ + (if pre {
            "filtered"@
        } else {
            "to_update"@
        }) + ".clone();\n            merged.id = id;\n"@,
        _ => text,
    };
    merged + "            let result = <"@ + names.entity + " as rest::Crud<"@ + names.entity + ", "@
        + names.companion + ", "@ + names.connection + ">>::"@ + verb.operation() + "(&mut db, "@
        + verb.persisted_input(pre) + ");\n"@
}

/// `text` followed by the post-hook step, which replaces the result.
pub open spec fn with_revise(text: Seq<char>, names: NamesView, verb: Verb) -> Seq<char> {
    text + "            let result = <"@ + names.entity + " as rest::RestPost<"@ + names.entity
        + ", "@ + names.companion + ">>::post_"@ + verb.method() + "("@ + verb.raw_input()
        + ", result);\n"@
}

/// `text` followed by the envelope step and the end of the handler.
pub open spec fn with_closing(text: Seq<char>) -> Seq<char> {
    text + "            result.into()\n        }).await.into()\n    }\n"@
}

/// `text` followed by one step of the handler of `verb`.
pub open spec fn with_step(text: Seq<char>, names: NamesView, verb: Verb, pre: bool, step: Step) -> Seq<
    char,
> {
    match step {
        Step::Filter => with_filter(text, names, verb),
        Step::Persist => with_persist(text, names, verb, pre),
        Step::Revise => with_revise(text, names, verb),
        Step::Respond => with_closing(text),
    }
}

/// `text` followed by the given steps of the handler of `verb`, in their
/// order.
pub open spec fn with_steps(
    text: Seq<char>,
    names: NamesView,
    verb: Verb,
    pre: bool,
    planned: Seq<Step>,
) -> Seq<char>
    decreases planned.len(),
{
    if planned.len() == 0 {
        text
    } else {
        with_step(with_steps(text, names, verb, pre, planned.drop_last()), names, verb, pre, planned.last())
    }
}

/// `text` followed by the handler of `verb` for an entity with the
/// directives `pre` and `post`: its opening and then the steps of that
/// combination, which are the pre-hook exactly where `pre` is set, the
/// persistence operation, the post-hook exactly where `post` is set, and the
/// envelope.
pub open spec fn with_handler(text: Seq<char>, names: NamesView, verb: Verb, pre: bool, post: bool) -> Seq<
    char,
> {
    with_steps(with_opening(text, names, verb), names, verb, pre, steps(pre, post))
}

/// `text` followed by the `where` clause of the implementation: a bound on
/// the pre-hooks exactly where `pre` is set, one on the post-hooks exactly
/// where `post` is set, and no clause where neither is.
pub open spec fn with_bounds(text: Seq<char>, names: NamesView, pre: bool, post: bool) -> Seq<char> {
    let pre_bound = "rest::RestPre<"@ + names.entity + ", "@ + names.companion + ", "@
        + names.app_data + ">"@;
    let post_bound = "rest::RestPost<"@ + names.entity + ", "@ + names.companion + ">"@;
    if pre && post {
        text + "where "@ + names.entity + ": "@ + pre_bound + " + "@ + post_bound + "\n"@
    } else if pre {
        text + "where "@ + names.entity + ": "@ + pre_bound + "\n"@
    } else if post {
        text + "where "@ + names.entity + ": "@ + post_bound + "\n"@
    } else {
        text
    }
}

/// The implementation of the four single-row handlers.
pub open spec fn rest_text(names: NamesView, pre: bool, post: bool) -> Seq<char> {
    let head = "#[async_trait]\nimpl Rest<"@ + names.entity + ", "@ + names.companion + ", "@
        + names.app_data + ", "@ + names.connection + "> for "@ + names.entity + "\n"@;
    let bounded = with_bounds(head, names, pre, post) + "{\n"@;
    let created = with_handler(bounded, names, Verb::Create, pre, post);
    let fetched = with_handler(created, names, Verb::Fetch, pre, post);
    let updated = with_handler(fetched, names, Verb::Update, pre, post);
    let deleted = with_handler(updated, names, Verb::Delete, pre, post);
    deleted + "}\n"@
}

/// The implementation of the list handler, which has no hooks: it hands
/// the query's free-text filter, or an empty one, and the query's
/// pagination bounds, if it has any, to the fetch-all operation and answers
/// with the envelope of its result.
pub open spec fn collection_text(names: NamesView) -> Seq<char> {
    "#[async_trait]\nimpl RestCollection<rest::RestCollectionGetParameters, "@ + names.app_data
        + ", "@ + names.connection + "> for "@ + names.entity + " {\n"@
        + "    async fn get(app_data: actix_web::web::Data<"@ + names.app_data
        + ">, actix_web::web::Query(query_parameters): actix_web::web::Query<rest::RestCollectionGetParameters>) -> negotiated::Responder<"@
        + names.app_data + "> {\n"@
        + "        actix_web::web::block(move || -> negotiated::Responder<"@ + names.app_data
        + "> {\n"@ + "            let mut db = <"@ + names.app_data + " as rest::DbFactory<"@
        + names.connection + ">>::db(&app_data);\n"@ + "            "@ + names.entity
        + "::db_fetch_all(&mut db, query_parameters.q.unwrap_or_default(), query_parameters.limit).into()\n        }).await.into()\n    }\n}\n"@
}

fn write_opening(out: &mut String, names: &Names, verb: Verb)
    ensures
        final(out)@ == with_opening(old(out)@, names@, verb),
{
    out.append("    async fn ");
    out.append(verb.method_name());
    out.append("(app_data: actix_web::web::Data<");
    out.append(names.app_data.as_str());
    out.append(">, ");
    match verb {
        Verb::Create => {
            out.append("actix_web::web::Json(new_object): actix_web::web::Json<");
            out.append(names.companion.as_str());
            out.append(">");
        },
        Verb::Update => {
            out.append(
                "id: actix_web::web::Path<i32>, actix_web::web::Json(to_update): actix_web::web::Json<",
            );
            out.append(names.entity.as_str());
            out.append(">");
        },
        _ => {
            out.append("id: actix_web::web::Path<i32>");
        },
    }
    out.append(") -> negotiated::Responder<");
    out.append(names.app_data.as_str());
    out.append("> {\n");
    out.append("        actix_web::web::block(move || -> negotiated::Responder<");
    out.append(names.app_data.as_str());
    out.append("> {\n");
    out.append("            let mut db = <");
    out.append(names.app_data.as_str());
    out.append(" as rest::DbFactory<");
    out.append(names.connection.as_str());
    out.append(">>::db(&app_data);\n");
    match verb {
        Verb::Create => {},
        _ => {
            out.append("            let id: i32 = id.into_inner();\n");
        },
    }
}

fn write_filter(out: &mut String, names: &Names, verb: Verb)
    ensures
        final(out)@ == with_filter(old(out)@, names@, verb),
{
    out.append("            let ");
    out.append(verb.filtered_pattern_text());
    out.append(" = match <");
    out.append(names.entity.as_str());
    out.append(" as rest::RestPre<");
    out.append(names.entity.as_str());
    out.append(", ");
    out.append(names.companion.as_str());
    out.append(", ");
    out.append(names.app_data.as_str());
    out.append(">>::pre_");
    out.append(verb.method_name());
    out.append("(&app_data, ");
    out.append(verb.raw_input_text());
    out.append(
        ") {\n                Ok(value) => value,\n                Err(err) => return err.into(),\n            };\n",
    );
}

fn write_persist(out: &mut String, names: &Names, verb: Verb, pre: bool)
    ensures
        final(out)@ == with_persist(old(out)@, names@, verb, pre),
{
    match verb {
        Verb::Update => {
            out.append("            let mut merged = ");
            out.append(
                if pre {
                    "filtered"
                } else {
                    "to_update"
                },
            );
            out.append(".clone();\n            merged.id = id;\n");
        },
        _ => {},
    }
    out.append("            let result = <");
    out.append(names.entity.as_str());
    out.append(" as rest::Crud<");
    out.append(names.entity.as_str());
    out.append(", ");
    out.append(names.companion.as_str());
    out.append(", ");
    out.append(names.connection.as_str());
    out.append(">>::");
    out.append(verb.operation_name());
    out.append("(&mut db, ");
    out.append(verb.persisted_input_text(pre));
    out.append(");\n");
}

fn write_revise(out: &mut String, names: &Names, verb: Verb)
    ensures
        final(out)@ == with_revise(old(out)@, names@, verb),
{
    out.append("            let result = <");
    out.append(names.entity.as_str());
    out.append(" as rest::RestPost<");
    out.append(names.entity.as_str());
    out.append(", ");
    out.append(names.companion.as_str());
    out.append(">>::post_");
    out.append(verb.method_name());
    out.append("(");
    out.append(verb.raw_input_text());
    out.append(", result);\n");
}

/// Appends the handler of `verb` to `out`.
pub fn write_handler(out: &mut String, names: &Names, verb: Verb, pre: bool, post: bool)
    ensures
        final(out)@ == with_handler(old(out)@, names@, verb, pre, post),
{
    write_opening(out, names, verb);
    let ghost opened = out@;
    let planned = plan(pre, post);
    let mut i: usize = 0;
    assert(planned@.take(0) =~= Seq::<Step>::empty());
    while i < planned.len()
        invariant
            i <= planned.len(),
            out@ == with_steps(opened, names@, verb, pre, planned@.take(i as int)),
        decreases planned.len() - i,
    {
        proof {
            let upto = planned@.take(i + 1);
            assert(upto.drop_last() =~= planned@.take(i as int));
            assert(upto.last() == planned[i as int]);
        }
        match planned[i] {
            Step::Filter => write_filter(out, names, verb),
            Step::Persist => write_persist(out, names, verb, pre),
            Step::Revise => write_revise(out, names, verb),
            Step::Respond => out.append("            result.into()\n        }).await.into()\n    }\n"),
        }
        i += 1;
    }
    assert(planned@.take(i as int) =~= planned@);
}

fn write_bounds(out: &mut String, names: &Names, pre: bool, post: bool)
    ensures
        final(out)@ == with_bounds(old(out)@, names@, pre, post),
{
    if pre || post {
        let ghost start = out@;
        let mut pre_bound = String::from_str("rest::RestPre<");
        pre_bound.append(names.entity.as_str());
        pre_bound.append(", ");
        pre_bound.append(names.companion.as_str());
        pre_bound.append(", ");
        pre_bound.append(names.app_data.as_str());
        pre_bound.append(">");
        let mut post_bound = String::from_str("rest::RestPost<");
        post_bound.append(names.entity.as_str());
        post_bound.append(", ");
        post_bound.append(names.companion.as_str());
        post_bound.append(">");
        out.append("where ");
        out.append(names.entity.as_str());
        out.append(": ");
        if pre {
            out.append(pre_bound.as_str());
        }
        if pre && post {
            out.append(" + ");
        }
        if post {
            out.append(post_bound.as_str());
        }
        out.append("\n");
    }
}

/// The implementation of the four single-row handlers for an entity with
/// the directives `pre` and `post`.
pub fn derive_rest(names: &Names, pre: bool, post: bool) -> (text: String)
    ensures
        text@ == rest_text(names@, pre, post),
{
    let mut text = String::from_str("#[async_trait]\nimpl Rest<");
    text.append(names.entity.as_str());
    text.append(", ");
    text.append(names.companion.as_str());
    text.append(", ");
    text.append(names.app_data.as_str());
    text.append(", ");
    text.append(names.connection.as_str());
    text.append("> for ");
    text.append(names.entity.as_str());
    text.append("\n");
    write_bounds(&mut text, names, pre, post);
    text.append("{\n");
    write_handler(&mut text, names, Verb::Create, pre, post);
    write_handler(&mut text, names, Verb::Fetch, pre, post);
    write_handler(&mut text, names, Verb::Update, pre, post);
    write_handler(&mut text, names, Verb::Delete, pre, post);
    text.append("}\n");
    text
}

/// The implementation of the list handler.
pub fn derive_rest_collection(names: &Names) -> (text: String)
    ensures
        text@ == collection_text(names@),
{
    let mut text = String::from_str(
        "#[async_trait]\nimpl RestCollection<rest::RestCollectionGetParameters, ",
    );
    text.append(names.app_data.as_str());
    text.append(", ");
    text.append(names.connection.as_str());
    text.append("> for ");
    text.append(names.entity.as_str());
    text.append(" {\n");
    text.append("    async fn get(app_data: actix_web::web::Data<");
    text.append(names.app_data.as_str());
    text.append(
        ">, actix_web::web::Query(query_parameters): actix_web::web::Query<rest::RestCollectionGetParameters>) -> negotiated::Responder<",
    );
    text.append(names.app_data.as_str());
    text.append("> {\n");
    text.append("        actix_web::web::block(move || -> negotiated::Responder<");
    text.append(names.app_data.as_str());
    text.append("> {\n");
    text.append("            let mut db = <");
    text.append(names.app_data.as_str());
    text.append(" as rest::DbFactory<");
    text.append(names.connection.as_str());
    text.append(">>::db(&app_data);\n");
    text.append("            ");
    text.append(names.entity.as_str());
    text.append(
        "::db_fetch_all(&mut db, query_parameters.q.unwrap_or_default(), query_parameters.limit).into()\n        }).await.into()\n    }\n}\n",
    );
    text
}

/// What the REST schema asks of an entity's directives: `pre` and `post`
/// as booleans, and the types `app_context_type` and `connection_type`.
pub ghost struct RestDirectives {
    pub pre: bool,
    pub post: bool,
    pub app_data: Seq<TokenView>,
    pub connection: Seq<TokenView>,
}

/// The directives of the REST schema in `map`, or the first of them that is
/// absent or has no value of its kind.
pub open spec fn rest_directives(map: Map<Seq<char>, Seq<TokenView>>) -> Result<
    RestDirectives,
    FaultView,
> {
    match flag_value(map, "pre"@) {
        Err(fault) => Err(fault),
        Ok(pre) => match flag_value(map, "post"@) {
            Err(fault) => Err(fault),
            Ok(post) => match required_value(map, "app_context_type"@) {
                Err(fault) => Err(fault),
                Ok(app_data) => match required_value(map, "connection_type"@) {
                    Err(fault) => Err(fault),
                    Ok(connection) => Ok(RestDirectives { pre, post, app_data, connection }),
                },
            },
        },
    }
}

/// What the REST generator makes of a declaration: the companion type, the
/// list handler and the four single-row handlers, from the directives of
/// the annotations named `rest`, or the first fault, with the declaration's
/// name.
pub open spec fn rest_output(entity: EntityView) -> Result<Seq<char>, GenerationErrorView> {
    match gathered(Map::empty(), entity.annotations, "rest"@) {
        Err(fault) => Err(GenerationErrorView { declaration: entity.name, fault }),
        Ok(map) => match rest_directives(map) {
            Err(fault) => Err(GenerationErrorView { declaration: entity.name, fault }),
            Ok(directives) => match companion(entity, map) {
                Err(error) => Err(error),
                Ok(companion) => {
                    let names = NamesView {
                        entity: entity.name,
                        companion: companion.name,
                        app_data: rendered(directives.app_data),
                        connection: rendered(directives.connection),
                    };
                    Ok(
                        companion_text(companion) + collection_text(names) + rest_text(
                            names,
                            directives.pre,
                            directives.post,
                        ),
                    )
                },
            },
        },
    }
}

/// Generates the companion type and the REST handlers of `entity`.
pub fn derive_rest_traits(entity: &EntityDeclaration) -> (output: Result<String, GenerationError>)
    ensures
        match rest_output(entity@) {
            Ok(text) => output matches Ok(found) && found@ == text,
            Err(error) => output matches Err(found) && found@ == error,
        },
{
    let metadata = match hash_attributes(&entity.annotations, "rest") {
        Ok(metadata) => metadata,
        Err(fault) => {
            return Err(GenerationError { declaration: entity.name.clone(), fault });
        },
    };
    let pre = match metadata.flag("pre") {
        Ok(pre) => pre,
        Err(fault) => {
            return Err(GenerationError { declaration: entity.name.clone(), fault });
        },
    };
    let post = match metadata.flag("post") {
        Ok(post) => post,
        Err(fault) => {
            return Err(GenerationError { declaration: entity.name.clone(), fault });
        },
    };
    let app_data = match metadata.required("app_context_type") {
        Ok(app_data) => app_data,
        Err(fault) => {
            return Err(GenerationError { declaration: entity.name.clone(), fault });
        },
    };
    let connection = match metadata.required("connection_type") {
        Ok(connection) => connection,
        Err(fault) => {
            return Err(GenerationError { declaration: entity.name.clone(), fault });
        },
    };
    let companion = match derive_rest_new(entity, &metadata) {
        Ok(companion) => companion,
        Err(error) => {
            return Err(error);
        },
    };
    let names = Names {
        entity: entity.name.clone(),
        companion: companion.name.clone(),
        app_data: render_tokens(&app_data),
        connection: render_tokens(&connection),
    };
    let mut text = companion.render();
    let collection = derive_rest_collection(&names);
    text.append(collection.as_str());
    let rest = derive_rest(&names, pre, post);
    text.append(rest.as_str());
    Ok(text)
}

} // verus!
