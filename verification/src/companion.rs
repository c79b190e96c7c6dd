//! The companion type of an entity: the entity without its identity, which
//! is what a creation request carries.

use crate::entity::{find_table_name, first_table_name, text_is, EntityDeclaration, EntityView, Field, FieldView, Shape, ShapeView};
use crate::error::{Fault, FaultView, GenerationError, GenerationErrorView};
use crate::metadata::{required_value, MetadataMap};
use crate::token::{rendered, write_tokens, Token, TokenView};
use vstd::prelude::*;

verus! {

/// The type that stands for an entity in a creation request.
#[derive(Debug, PartialEq, Eq)]
pub struct CompanionType {
    /// `New` followed by the entity's name.
    pub name: String,
    /// The table that the type is inserted into.
    pub table: Vec<Token>,
    /// The entity's fields without the identity, in the entity's order.
    pub fields: Vec<Field>,
}

/// The mathematical value of a [`CompanionType`].
pub ghost struct CompanionView {
    pub name: Seq<char>,
    pub table: Seq<TokenView>,
    pub fields: Seq<FieldView>,
}

impl View for CompanionType {
    type V = CompanionView;

    open spec fn view(&self) -> CompanionView {
        CompanionView {
            name: self.name@,
            table: self.table.deep_view(),
            fields: self.fields.deep_view(),
        }
    }
}

/// True of every field but the identity, which is the field named `id`.
pub open spec fn is_plain(field: FieldView) -> bool {
    field.name != "id"@
}

/// The name of the companion of the entity named `entity`.
pub open spec fn companion_name(entity: Seq<char>) -> Seq<char> {
    "New"@ + entity
}

/// The table that an entity is persisted in: the value of the directive
/// `table` where there is one, else the table that the declaration names
/// for the persistence framework.
pub open spec fn table_reference(entity: EntityView, map: Map<Seq<char>, Seq<TokenView>>) -> Result<
    Seq<TokenView>,
    FaultView,
> {
    if map.contains_key("table"@) {
        required_value(map, "table"@)
    } else {
        match first_table_name(entity.annotations) {
            Some(table) => if table.len() == 0 {
                Err(FaultView::InvalidValue("table"@))
            } else {
                Ok(table)
            },
            None => Err(FaultView::MissingKey("table"@)),
        }
    }
}

/// The companion of an entity with the given directives: its name is `New`
/// and the entity's, its fields are the entity's without the identity, in
/// their order, and of the entity's annotations it keeps the table alone.
/// There is none without a table, nor for a declaration that is not a
/// record with named fields.
pub open spec fn companion(entity: EntityView, map: Map<Seq<char>, Seq<TokenView>>) -> Result<
    CompanionView,
    GenerationErrorView,
> {
    match table_reference(entity, map) {
        Err(fault) => Err(GenerationErrorView { declaration: entity.name, fault }),
        Ok(table) => match entity.shape {
            ShapeView::Named(fields) => Ok(
                CompanionView {
                    name: companion_name(entity.name),
                    table,
                    fields: fields.filter(|field: FieldView| is_plain(field)),
                },
            ),
            _ => Err(
                GenerationErrorView { declaration: entity.name, fault: FaultView::UnsupportedShape },
            ),
        },
    }
}

/// The table that `entity` is persisted in.
pub fn resolve_table(entity: &EntityDeclaration, metadata: &MetadataMap) -> (table: Result<
    Vec<Token>,
    Fault,
>)
    ensures
        match table_reference(entity@, metadata@) {
            Ok(tokens) => table matches Ok(found) && found.deep_view() == tokens,
            Err(fault) => table matches Err(found) && found@ == fault,
        },
{
    if metadata.contains_key("table") {
        metadata.required("table")
    } else {
        match find_table_name(&entity.annotations) {
            Some(table) => if table.len() == 0 {
                Err(Fault::InvalidValue(String::from_str("table")))
            } else {
                Ok(table)
            },
            None => Err(Fault::MissingKey(String::from_str("table"))),
        }
    }
}

/// The fields of `fields` without the identity.
pub fn plain_fields(fields: &Vec<Field>) -> (plain: Vec<Field>)
    ensures
        plain.deep_view() == fields.deep_view().filter(|field: FieldView| is_plain(field)),
{
    let ghost all = fields.deep_view();
    let ghost keep = |field: FieldView| is_plain(field);
    let mut plain: Vec<Field> = Vec::new();
    let mut i: usize = 0;
    proof {
        reveal(Seq::filter);
        assert(all.take(0).filter(keep) =~= Seq::<FieldView>::empty());
        assert(plain.deep_view() =~= Seq::<FieldView>::empty());
    }
    while i < fields.len()
        invariant
            i <= fields.len(),
            all == fields.deep_view(),
            keep == (|field: FieldView| is_plain(field)),
            plain.deep_view() == all.take(i as int).filter(keep),
        decreases fields.len() - i,
    {
        let ghost before = plain.deep_view();
        proof {
            reveal(Seq::filter);
            let upto = all.take(i + 1);
            assert(upto.drop_last() =~= all.take(i as int));
            assert(upto.last() == fields[i as int]@);
        }
        if !text_is(&fields[i].name, "id") {
            plain.push(fields[i].duplicate());
            assert(plain.deep_view() =~= before.push(fields[i as int]@));
        }
        i += 1;
    }
    assert(all.take(i as int) =~= all);
    plain
}

/// Derives the companion of `entity`.
pub fn derive_rest_new(entity: &EntityDeclaration, metadata: &MetadataMap) -> (derived: Result<
    CompanionType,
    GenerationError,
>)
    ensures
        match companion(entity@, metadata@) {
            Ok(companion) => derived matches Ok(found) && found@ == companion,
            Err(error) => derived matches Err(found) && found@ == error,
        },
{
    let table = match resolve_table(entity, metadata) {
        Ok(table) => table,
        Err(fault) => {
            return Err(GenerationError { declaration: entity.name.clone(), fault });
        },
    };
    match &entity.shape {
        Shape::Named(fields) => {
            let mut name = String::from_str("New");
            name.append(entity.name.as_str());
            Ok(CompanionType { name, table, fields: plain_fields(fields) })
        },
        _ => Err(
            GenerationError { declaration: entity.name.clone(), fault: Fault::UnsupportedShape },
        ),
    }
}

/// `text` followed by the declarations of `fields`, one to a line.
pub open spec fn with_fields(text: Seq<char>, fields: Seq<FieldView>) -> Seq<char>
    decreases fields.len(),
{
    if fields.len() == 0 {
        text
    } else {
        with_fields(text, fields.drop_last()) + "    pub "@ + fields.last().name + ": "@
            + fields.last().type_signature + ",\n"@
    }
}

/// The declaration of a companion type: a record that can be read from a
/// request and inserted into the table.
pub open spec fn companion_text(companion: CompanionView) -> Seq<char> {
    with_fields(
        "#[derive(Debug, Clone, serde::Deserialize, Insertable)]\n#[diesel(table_name = "@
            + rendered(companion.table) + ")]\npub struct "@ + companion.name + " {\n"@,
        companion.fields,
    ) + "}\n"@
}

impl CompanionType {
    /// The declaration of the type.
    pub fn render(&self) -> (text: String)
        ensures
            text@ == companion_text(self@),
    {
        let mut text = String::from_str(
            "#[derive(Debug, Clone, serde::Deserialize, Insertable)]\n#[diesel(table_name = ",
        );
        write_tokens(&self.table, &mut text);
        text.append(")]\npub struct ");
        text.append(self.name.as_str());
        text.append(" {\n");
        let ghost head = text@;
        let ghost all = self.fields.deep_view();
        let mut i: usize = 0;
        assert(all.take(0) =~= Seq::<FieldView>::empty());
        while i < self.fields.len()
            invariant
                i <= self.fields.len(),
                all == self.fields.deep_view(),
                text@ == with_fields(head, all.take(i as int)),
            decreases self.fields.len() - i,
        {
            proof {
                let upto = all.take(i + 1);
                assert(upto.drop_last() =~= all.take(i as int));
                assert(upto.last() == self.fields[i as int]@);
            }
            text.append("    pub ");
            text.append(self.fields[i].name.as_str());
            text.append(": ");
            text.append(self.fields[i].type_signature.as_str());
            text.append(",\n");
            i += 1;
        }
        assert(all.take(i as int) =~= all);
        text.append("}\n");
        text
    }
}

/// The companion's field order is the entity's: its fields are a
/// subsequence of the entity's that leaves out the identity and nothing
/// else. Where exactly one field is the identity, the companion's fields
/// are the entity's with that one taken out.
pub proof fn lemma_companion_fields(fields: Seq<FieldView>)
    ensures
        ({
            let plain = fields.filter(|field: FieldView| is_plain(field));
            &&& plain.len() <= fields.len()
            &&& forall|i: int| 0 <= i < plain.len() ==> is_plain(#[trigger] plain[i]) && fields.contains(plain[i])
            &&& forall|i: int|
                0 <= i < fields.len() && is_plain(#[trigger] fields[i]) ==> plain.contains(fields[i])
            &&& forall|k: int|
                0 <= k < fields.len() && !is_plain(fields[k]) && (forall|j: int|
                    0 <= j < fields.len() && j != k ==> is_plain(#[trigger] fields[j])) ==> plain
                    == #[trigger] fields.remove(k)
        }),
    decreases fields.len(),
{
    reveal(Seq::filter);
    let keep = |field: FieldView| is_plain(field);
    let plain = fields.filter(keep);
    if fields.len() > 0 {
        let head = fields.drop_last();
        let last = fields.last();
        lemma_companion_fields(head);
        let head_plain = head.filter(keep);
        assert forall|i: int| 0 <= i < plain.len() implies is_plain(#[trigger] plain[i])
            && fields.contains(plain[i]) by {
            if i < head_plain.len() {
                assert(plain[i] == head_plain[i]);
                let j = choose|j: int| 0 <= j < head.len() && head[j] == head_plain[i];
                assert(fields[j] == plain[i]);
            } else {
                assert(plain[i] == last);
                assert(fields[fields.len() - 1] == last);
            }
        }
        assert forall|i: int| 0 <= i < fields.len() && is_plain(#[trigger] fields[i]) implies plain.contains(
            fields[i],
        ) by {
            if i < head.len() {
                assert(head[i] == fields[i]);
                let j = choose|j: int| 0 <= j < head_plain.len() && head_plain[j] == head[i];
                assert(plain[j] == fields[i]);
            } else {
                assert(plain[plain.len() - 1] == fields[i]);
            }
        }
        assert forall|k: int|
            0 <= k < fields.len() && !is_plain(fields[k]) && (forall|j: int|
                0 <= j < fields.len() && j != k ==> is_plain(#[trigger] fields[j])) implies plain
            == #[trigger] fields.remove(k) by {
            if k == fields.len() - 1 {
                assert forall|j: int| 0 <= j < head.len() implies is_plain(#[trigger] head[j]) by {
                    assert(head[j] == fields[j]);
                }
                lemma_all_plain(head);
                assert(fields.remove(k) =~= head);
            } else {
                assert(head[k] == fields[k]);
                assert forall|j: int| 0 <= j < head.len() && j != k implies is_plain(
                    #[trigger] head[j],
                ) by {
                    assert(head[j] == fields[j]);
                }
                assert(head_plain == head.remove(k));
                assert(fields.remove(k) =~= head.remove(k).push(last));
            }
        }
    }
}

/// Fields without an identity among them stay as they are.
proof fn lemma_all_plain(fields: Seq<FieldView>)
    requires
        forall|j: int| 0 <= j < fields.len() ==> is_plain(#[trigger] fields[j]),
    ensures
        fields.filter(|field: FieldView| is_plain(field)) == fields,
    decreases fields.len(),
{
    reveal(Seq::filter);
    if fields.len() > 0 {
        let head = fields.drop_last();
        assert forall|j: int| 0 <= j < head.len() implies is_plain(#[trigger] head[j]) by {
            assert(head[j] == fields[j]);
        }
        lemma_all_plain(head);
        assert(head.push(fields.last()) =~= fields);
    }
}

} // verus!
