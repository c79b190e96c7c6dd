//! The source text of an entity's five persistence operations.

use crate::companion::companion_name;
use crate::entity::{EntityDeclaration, EntityView};
use crate::error::{Fault, FaultView, GenerationError, GenerationErrorView};
use crate::metadata::{gathered, hash_attributes, optional_identifier, required_value};
use crate::token::{render_tokens, rendered};
use vstd::prelude::*;

verus! {

/// The names that the text of the persistence operations refers to.
#[derive(Debug, PartialEq, Eq)]
pub struct CrudNames {
    /// The entity's type.
    pub entity: String,
    /// The companion type without identity.
    pub companion: String,
    /// The connection type.
    pub connection: String,
    /// The table.
    pub table: String,
    /// The column that a free-text filter is matched against.
    pub search_field: String,
}

/// The mathematical value of [`CrudNames`].
pub ghost struct CrudNamesView {
    pub entity: Seq<char>,
    pub companion: Seq<char>,
    pub connection: Seq<char>,
    pub table: Seq<char>,
    pub search_field: Seq<char>,
}

impl View for CrudNames {
    type V = CrudNamesView;

    open spec fn view(&self) -> CrudNamesView {
        CrudNamesView {
            entity: self.entity@,
            companion: self.companion@,
            connection: self.connection@,
            table: self.table@,
            search_field: self.search_field@,
        }
    }
}

/// `text` followed by the operation that inserts a companion value and
/// returns the row it became.
pub open spec fn with_insert(text: Seq<char>, names: CrudNamesView) -> Seq<char> {
    text + "    fn db_insert(db: &mut "@ + names.connection + ", to_insert: &"@ + names.companion
        + ") -> anyhow::Result<"@ + names.entity + "> {\n        Ok(diesel::insert_into("@
        + names.table + "::table)\n            .values(to_insert)\n            .get_result::<"@
        + names.entity + ">(db)?)\n    }\n"@
}

/// `text` followed by the operation that writes all of a row's fields over
/// the row of its identity and returns the row as it then is.
pub open spec fn with_update(text: Seq<char>, names: CrudNamesView) -> Seq<char> {
    text + "    fn db_update(db: &mut "@ + names.connection + ", to_update: &"@ + names.entity
        + ") -> anyhow::Result<"@ + names.entity + "> {\n        Ok(diesel::update("@ + names.table
        + "::table)\n            .filter("@ + names.table
        + "::dsl::id.eq(to_update.id))\n            .set(to_update)\n            .get_result::<"@
        + names.entity + ">(db)?)\n    }\n"@
}

/// `text` followed by the operation that returns the rows: where the
/// filter is not empty, those whose search column matches the filter,
/// escaped so that each of its characters stands for itself, between
/// wildcards; and within the bounds where bounds are given.
pub open spec fn with_fetch_all(text: Seq<char>, names: CrudNamesView) -> Seq<char> {
    text + "    fn db_fetch_all(db: &mut "@ + names.connection
        + ", text_filter: String, limit: Option<(i64, i64)>) -> anyhow::Result<Vec<"@
        + names.entity + ">> {\n        let mut query = "@ + names.table
        + "::table.into_boxed();\n        if !text_filter.is_empty() {\n            let pattern = format!(\"%{}%\", text_filter.replace('\\\\', \"\\\\\\\\\").replace('%', \"\\\\%\").replace('_', \"\\\\_\"));\n            query = query.filter("@
        + names.table + "::"@ + names.search_field
        + ".like(pattern).escape('\\\\'));\n        }\n        if let Some(limit_value) = limit {\n            query = query.limit(limit_value.0).offset(limit_value.1);\n        }\n        Ok(query.load::<"@
        + names.entity + ">(db)?)\n    }\n"@
}

/// `text` followed by the operation that returns the row of an identity.
pub open spec fn with_fetch(text: Seq<char>, names: CrudNamesView) -> Seq<char> {
    text + "    fn db_fetch(db: &mut "@ + names.connection + ", id: i32) -> anyhow::Result<"@
        + names.entity + "> {\n        Ok("@ + names.table
        + "::table\n            .filter("@ + names.table
        + "::dsl::id.eq(id))\n            .first(db)?)\n    }\n"@
}

/// `text` followed by the operation that deletes the row of an identity:
/// it fetches the row first, leaves with the failure where that fails, and
/// else deletes and returns the row it fetched.
pub open spec fn with_delete(text: Seq<char>, names: CrudNamesView) -> Seq<char> {
    text + "    fn db_delete(db: &mut "@ + names.connection + ", id: i32) -> anyhow::Result<"@
        + names.entity + "> {\n        let fetched = Self::db_fetch(db, id)?;\n        diesel::delete("@
        + names.table + "::table)\n            .filter("@ + names.table
        + "::dsl::id.eq(id))\n            .execute(db)?;\n        Ok(fetched)\n    }\n"@
}

/// The implementation of the five persistence operations.
pub open spec fn crud_text(names: CrudNamesView) -> Seq<char> {
    let head = "impl rest::Crud<"@ + names.entity + ", "@ + names.companion + ", "@
        + names.connection + "> for "@ + names.entity + " {\n"@;
    with_delete(
        with_fetch(with_fetch_all(with_update(with_insert(head, names), names), names), names),
        names,
    ) + "}\n"@
}

fn write_insert(out: &mut String, names: &CrudNames)
    ensures
        final(out)@ == with_insert(old(out)@, names@),
{
    out.append("    fn db_insert(db: &mut ");
    out.append(names.connection.as_str());
    out.append(", to_insert: &");
    out.append(names.companion.as_str());
    out.append(") -> anyhow::Result<");
    out.append(names.entity.as_str());
    out.append("> {\n        Ok(diesel::insert_into(");
    out.append(names.table.as_str());
    out.append("::table)\n            .values(to_insert)\n            .get_result::<");
    out.append(names.entity.as_str());
    out.append(">(db)?)\n    }\n");
}

fn write_update(out: &mut String, names: &CrudNames)
    ensures
        final(out)@ == with_update(old(out)@, names@),
{
    out.append("    fn db_update(db: &mut ");
    out.append(names.connection.as_str());
    out.append(", to_update: &");
    out.append(names.entity.as_str());
    out.append(") -> anyhow::Result<");
    out.append(names.entity.as_str());
    out.append("> {\n        Ok(diesel::update(");
    out.append(names.table.as_str());
    out.append("::table)\n            .filter(");
    out.append(names.table.as_str());
    out.append(
        "::dsl::id.eq(to_update.id))\n            .set(to_update)\n            .get_result::<",
    );
    out.append(names.entity.as_str());
    out.append(">(db)?)\n    }\n");
}

fn write_fetch_all(out: &mut String, names: &CrudNames)
    ensures
        final(out)@ == with_fetch_all(old(out)@, names@),
{
    out.append("    fn db_fetch_all(db: &mut ");
    out.append(names.connection.as_str());
    out.append(", text_filter: String, limit: Option<(i64, i64)>) -> anyhow::Result<Vec<");
    out.append(names.entity.as_str());
    out.append(">> {\n        let mut query = ");
    out.append(names.table.as_str());
    out.append(
        "::table.into_boxed();\n        if !text_filter.is_empty() {\n            let pattern = format!(\"%{}%\", text_filter.replace('\\\\', \"\\\\\\\\\").replace('%', \"\\\\%\").replace('_', \"\\\\_\"));\n            query = query.filter(",
    );
    out.append(names.table.as_str());
    out.append("::");
    out.append(names.search_field.as_str());
    out.append(
        ".like(pattern).escape('\\\\'));\n        }\n        if let Some(limit_value) = limit {\n            query = query.limit(limit_value.0).offset(limit_value.1);\n        }\n        Ok(query.load::<",
    );
    out.append(names.entity.as_str());
    out.append(">(db)?)\n    }\n");
}

fn write_fetch(out: &mut String, names: &CrudNames)
    ensures
        final(out)@ == with_fetch(old(out)@, names@),
{
    out.append("    fn db_fetch(db: &mut ");
    out.append(names.connection.as_str());
    out.append(", id: i32) -> anyhow::Result<");
    out.append(names.entity.as_str());
    out.append("> {\n        Ok(");
    out.append(names.table.as_str());
    out.append("::table\n            .filter(");
    out.append(names.table.as_str());
    out.append("::dsl::id.eq(id))\n            .first(db)?)\n    }\n");
}

fn write_delete(out: &mut String, names: &CrudNames)
    ensures
        final(out)@ == with_delete(old(out)@, names@),
{
    out.append("    fn db_delete(db: &mut ");
    out.append(names.connection.as_str());
    out.append(", id: i32) -> anyhow::Result<");
    out.append(names.entity.as_str());
    out.append("> {\n        let fetched = Self::db_fetch(db, id)?;\n        diesel::delete(");
    out.append(names.table.as_str());
    out.append("::table)\n            .filter(");
    out.append(names.table.as_str());
    out.append("::dsl::id.eq(id))\n            .execute(db)?;\n        Ok(fetched)\n    }\n");
}

/// The implementation of the five persistence operations.
pub fn render_crud(names: &CrudNames) -> (text: String)
    ensures
        text@ == crud_text(names@),
{
    let mut text = String::from_str("impl rest::Crud<");
    text.append(names.entity.as_str());
    text.append(", ");
    text.append(names.companion.as_str());
    text.append(", ");
    text.append(names.connection.as_str());
    text.append("> for ");
    text.append(names.entity.as_str());
    text.append(" {\n");
    write_insert(&mut text, names);
    write_update(&mut text, names);
    write_fetch_all(&mut text, names);
    write_fetch(&mut text, names);
    write_delete(&mut text, names);
    text.append("}\n");
    text
}

/// The names that the persistence operations of `entity` refer to: the
/// directives `table` and `connection_type` must be there with a value;
/// `search_field` must be one identifier, and stands for the column `name`
/// where it is absent.
pub open spec fn crud_names(entity: EntityView, map: Map<Seq<char>, Seq<crate::token::TokenView>>) -> Result<
    CrudNamesView,
    FaultView,
> {
    match required_value(map, "table"@) {
        Err(fault) => Err(fault),
        Ok(table) => match required_value(map, "connection_type"@) {
            Err(fault) => Err(fault),
            Ok(connection) => match optional_identifier(map, "search_field"@, "name"@) {
                Err(fault) => Err(fault),
                Ok(search_field) => Ok(
                    CrudNamesView {
                        entity: entity.name,
                        companion: companion_name(entity.name),
                        connection: rendered(connection),
                        table: rendered(table),
                        search_field,
                    },
                ),
            },
        },
    }
}

/// What the persistence generator makes of a declaration: the text of the
/// five operations, from the directives of the annotations named `crud`, or
/// the first fault in them, with the declaration's name.
pub open spec fn crud_output(entity: EntityView) -> Result<Seq<char>, GenerationErrorView> {
    match gathered(Map::empty(), entity.annotations, "crud"@) {
        Err(fault) => Err(GenerationErrorView { declaration: entity.name, fault }),
        Ok(map) => match crud_names(entity, map) {
            Err(fault) => Err(GenerationErrorView { declaration: entity.name, fault }),
            Ok(names) => Ok(crud_text(names)),
        },
    }
}

/// Generates the five persistence operations of `entity`.
pub fn derive_crud(entity: &EntityDeclaration) -> (output: Result<String, GenerationError>)
    ensures
        match crud_output(entity@) {
            Ok(text) => output matches Ok(found) && found@ == text,
            Err(error) => output matches Err(found) && found@ == error,
        },
{
    let metadata = match hash_attributes(&entity.annotations, "crud") {
        Ok(metadata) => metadata,
        Err(fault) => {
            return Err(GenerationError { declaration: entity.name.clone(), fault });
        },
    };
    let table = match metadata.required("table") {
        Ok(table) => table,
        Err(fault) => {
            return Err(GenerationError { declaration: entity.name.clone(), fault });
        },
    };
    let connection = match metadata.required("connection_type") {
        Ok(connection) => connection,
        Err(fault) => {
            return Err(GenerationError { declaration: entity.name.clone(), fault });
        },
    };
    let search_field = match metadata.identifier("search_field", "name") {
        Ok(search_field) => search_field,
        Err(fault) => {
            return Err(GenerationError { declaration: entity.name.clone(), fault });
        },
    };
    let mut companion = String::from_str("New");
    companion.append(entity.name.as_str());
    let names = CrudNames {
        entity: entity.name.clone(),
        companion,
        connection: render_tokens(&connection),
        table: render_tokens(&table),
        search_field,
    };
    Ok(render_crud(&names))
}

} // verus!
