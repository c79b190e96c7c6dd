//! Entity declarations as the generators read them.

use crate::token::{Token, TokenView};
use vstd::prelude::*;

verus! {

/// How a group of tokens is delimited.
#[derive(Clone, Copy, Debug, PartialEq, Eq, Structural)]
pub enum Delimiter {
    Parenthesis,
    Brace,
    Bracket,
    /// No delimiter is written: the group only holds its tokens together.
    Invisible,
}

/// Whether an annotation stands before the item or inside it.
#[derive(Clone, Copy, Debug, PartialEq, Eq, Structural)]
pub enum AnnotationStyle {
    Outer,
    Inner,
}

/// The delimited payload of an annotation: its top-level tokens.
#[derive(Debug, PartialEq, Eq)]
pub struct Arguments {
    pub delimiter: Delimiter,
    pub tokens: Vec<Token>,
}

/// An annotation of a declaration: the segments of its path and, where the
/// path is followed at once by a delimited group, that group.
#[derive(Debug, PartialEq, Eq)]
pub struct Annotation {
    pub style: AnnotationStyle,
    pub path: Vec<String>,
    pub arguments: Option<Arguments>,
}

/// A field of a record: its name and its type as written.
#[derive(Debug, PartialEq, Eq)]
pub struct Field {
    pub name: String,
    pub type_signature: String,
}

/// The shape of a declaration. Only a record with named fields has fields
/// that the generators can read.
#[derive(Debug, PartialEq, Eq)]
pub enum Shape {
    Named(Vec<Field>),
    Tuple,
    Unit,
    Enum,
    Union,
}

/// A declaration that a generator is asked to work on.
#[derive(Debug, PartialEq, Eq)]
pub struct EntityDeclaration {
    pub name: String,
    pub annotations: Vec<Annotation>,
    pub shape: Shape,
}

pub ghost struct ArgumentsView {
    pub delimiter: Delimiter,
    pub tokens: Seq<TokenView>,
}

pub ghost struct AnnotationView {
    pub style: AnnotationStyle,
    pub path: Seq<Seq<char>>,
    pub arguments: Option<ArgumentsView>,
}

pub ghost struct FieldView {
    pub name: Seq<char>,
    pub type_signature: Seq<char>,
}

pub ghost enum ShapeView {
    Named(Seq<FieldView>),
    Tuple,
    Unit,
    Enum,
    Union,
}

pub ghost struct EntityView {
    pub name: Seq<char>,
    pub annotations: Seq<AnnotationView>,
    pub shape: ShapeView,
}

impl View for Arguments {
    type V = ArgumentsView;

    open spec fn view(&self) -> ArgumentsView {
        ArgumentsView { delimiter: self.delimiter, tokens: self.tokens.deep_view() }
    }
}

impl DeepView for Arguments {
    type V = ArgumentsView;

    open spec fn deep_view(&self) -> ArgumentsView {
        self@
    }
}

impl View for Annotation {
    type V = AnnotationView;

    open spec fn view(&self) -> AnnotationView {
        AnnotationView {
            style: self.style,
            path: self.path.deep_view(),
            arguments: self.arguments.deep_view(),
        }
    }
}

impl DeepView for Annotation {
    type V = AnnotationView;

    open spec fn deep_view(&self) -> AnnotationView {
        self@
    }
}

impl View for Field {
    type V = FieldView;

    open spec fn view(&self) -> FieldView {
        FieldView { name: self.name@, type_signature: self.type_signature@ }
    }
}

impl DeepView for Field {
    type V = FieldView;

    open spec fn deep_view(&self) -> FieldView {
        self@
    }
}

impl View for Shape {
    type V = ShapeView;

    open spec fn view(&self) -> ShapeView {
        match *self {
            Shape::Named(fields) => ShapeView::Named(fields.deep_view()),
            Shape::Tuple => ShapeView::Tuple,
            Shape::Unit => ShapeView::Unit,
            Shape::Enum => ShapeView::Enum,
            Shape::Union => ShapeView::Union,
        }
    }
}

impl View for EntityDeclaration {
    type V = EntityView;

    open spec fn view(&self) -> EntityView {
        EntityView {
            name: self.name@,
            annotations: self.annotations.deep_view(),
            shape: self.shape@,
        }
    }
}

/// True where `text` reads `literal`.
pub fn text_is(text: &String, literal: &str) -> (same: bool)
    ensures
        same == (text@ == literal@),
{
    let other = String::from_str(literal);
    text.eq(&other)
}

impl Field {
    /// A copy of the field.
    pub fn duplicate(&self) -> (copy: Field)
        ensures
            copy@ == self@,
    {
        Field { name: self.name.clone(), type_signature: self.type_signature.clone() }
    }
}

impl AnnotationView {
    /// True where the path is the single segment `ident`.
    pub open spec fn is_ident(self, ident: Seq<char>) -> bool {
        self.path.len() == 1 && self.path[0] == ident
    }

    /// The table that an annotation of the persistence framework names: the
    /// tokens after `table_name =` in the parenthesised payload of an outer
    /// annotation whose path starts with `diesel`. Nothing for any other
    /// annotation.
    pub open spec fn diesel_table_name(self) -> Option<Seq<TokenView>> {
        if self.style == AnnotationStyle::Outer && self.path.len() > 0 && self.path[0] == "diesel"@
            && self.arguments is Some && self.arguments->0.delimiter == Delimiter::Parenthesis && {
            let tokens = self.arguments->0.tokens;
            &&& tokens.len() >= 2
            &&& tokens[0] == TokenView::Ident("table_name"@)
            &&& tokens[1] matches TokenView::Punct('=', _)
        } {
            Some(self.arguments->0.tokens.skip(2))
        } else {
            None
        }
    }
}

impl Annotation {
    /// True where the annotation's path is the single segment `ident`.
    pub fn is_ident(&self, ident: &str) -> (same: bool)
        ensures
            same == self@.is_ident(ident@),
    {
        self.path.len() == 1 && text_is(&self.path[0], ident)
    }
}

/// The table that `annotation` names for the persistence framework, if it
/// names one.
pub fn extract_diesel_table_name(annotation: &Annotation) -> (table: Option<Vec<Token>>)
    ensures
        table.deep_view() == annotation@.diesel_table_name(),
{
    if let AnnotationStyle::Inner = annotation.style {
        return None;
    }
    if annotation.path.len() == 0 {
        return None;
    }
    if !text_is(&annotation.path[0], "diesel") {
        return None;
    }
    match &annotation.arguments {
        Some(arguments) => {
            if let Delimiter::Parenthesis = arguments.delimiter {
            } else {
                return None;
            }
            let tokens = &arguments.tokens;
            if tokens.len() < 2 {
                return None;
            }
            match &tokens[0] {
                Token::Ident(ident) => {
                    if !text_is(ident, "table_name") {
                        return None;
                    }
                },
                _ => {
                    return None;
                },
            }
            match &tokens[1] {
                Token::Punct(punct, _) => {
                    if *punct != '=' {
                        return None;
                    }
                },
                _ => {
                    return None;
                },
            }
            let mut result: Vec<Token> = Vec::new();
            let mut i: usize = 2;
            while i < tokens.len()
                invariant
                    2 <= i <= tokens.len(),
                    result.len() == i - 2,
                    forall|j: int| 0 <= j < result.len() ==> result[j]@ == tokens[j + 2]@,
                decreases tokens.len() - i,
            {
                result.push(tokens[i].duplicate());
                i += 1;
            }
            assert(result.deep_view() =~= tokens.deep_view().skip(2));
            Some(result)
        },
        None => None,
    }
}

/// The table of the first annotation that names one.
pub open spec fn first_table_name(annotations: Seq<AnnotationView>) -> Option<Seq<TokenView>>
    decreases annotations.len(),
{
    if annotations.len() == 0 {
        None
    } else {
        match annotations[0].diesel_table_name() {
            Some(table) => Some(table),
            None => first_table_name(annotations.drop_first()),
        }
    }
}

/// The table that the declaration's annotations name for the persistence
/// framework: that of the first annotation that names one.
pub fn find_table_name(annotations: &Vec<Annotation>) -> (table: Option<Vec<Token>>)
    ensures
        table.deep_view() == first_table_name(annotations.deep_view()),
{
    let ghost all = annotations.deep_view();
    let mut i: usize = 0;
    assert(all.skip(0) =~= all);
    while i < annotations.len()
        invariant
            i <= annotations.len(),
            all == annotations.deep_view(),
            first_table_name(all) == first_table_name(all.skip(i as int)),
        decreases annotations.len() - i,
    {
        let found = extract_diesel_table_name(&annotations[i]);
        proof {
            let rest = all.skip(i as int);
            assert(rest[0] == annotations[i as int]@);
            assert(rest.drop_first() =~= all.skip(i + 1));
        }
        if found.is_some() {
            return found;
        }
        i += 1;
    }
    None
}

} // verus!
