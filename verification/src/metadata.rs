//! Directives: the key-value payload of an entity's annotations.
//!
//! A payload is a comma-separated list of `key` or `key = value`, where the
//! value is every token up to the next top-level comma. A key without a
//! value is read as a key with an empty value, and an empty value is invalid
//! wherever a generator needs the key.

use crate::entity::{Annotation, AnnotationView};
use crate::error::{Fault, FaultView};
use crate::token::{duplicate_tokens, tokenize, tokens_of, Token, TokenView};
use vstd::prelude::*;

verus! {

/// A key with the tokens of its value.
#[derive(Debug, PartialEq, Eq)]
pub struct Directive {
    pub key: String,
    pub value: Vec<Token>,
}

pub ghost struct DirectiveView {
    pub key: Seq<char>,
    pub value: Seq<TokenView>,
}

impl View for Directive {
    type V = DirectiveView;

    open spec fn view(&self) -> DirectiveView {
        DirectiveView { key: self.key@, value: self.value.deep_view() }
    }
}

impl DeepView for Directive {
    type V = DirectiveView;

    open spec fn deep_view(&self) -> DirectiveView {
        self@
    }
}

/// The directives of a declaration, by key. Of two entries with one key the
/// later stands for the key.
#[derive(Debug, PartialEq, Eq)]
pub struct MetadataMap {
    pub entries: Vec<Directive>,
}

/// The map that a sequence of entries stands for.
pub open spec fn entries_map(entries: Seq<DirectiveView>) -> Map<Seq<char>, Seq<TokenView>>
    decreases entries.len(),
{
    if entries.len() == 0 {
        Map::empty()
    } else {
        entries_map(entries.drop_last()).insert(entries.last().key, entries.last().value)
    }
}

impl View for MetadataMap {
    type V = Map<Seq<char>, Seq<TokenView>>;

    open spec fn view(&self) -> Map<Seq<char>, Seq<TokenView>> {
        entries_map(self.entries.deep_view())
    }
}

/// Where the reading of a payload stands: the directives read so far and
/// the key whose value is being read, if one is open.
pub ghost struct Cursor {
    pub map: Map<Seq<char>, Seq<TokenView>>,
    pub open: Option<Seq<char>>,
}

/// The reading after one more token, or nothing where the token cannot
/// stand there.
///
/// A comma closes the open key. With no key open an identifier opens its
/// key with an empty value, and nothing else can stand. With a key open, an
/// `=` before any token of the value only separates, and every other token
/// is added to the value.
pub open spec fn accept(cursor: Cursor, token: TokenView) -> Option<Cursor> {
    if token matches TokenView::Punct(',', _) {
        Some(Cursor { open: None, ..cursor })
    } else {
        match cursor.open {
            None => match token {
                TokenView::Ident(name) => Some(
                    Cursor { map: cursor.map.insert(name, Seq::empty()), open: Some(name) },
                ),
                _ => None,
            },
            Some(key) => if token matches TokenView::Punct('=', _) && cursor.map[key].len() == 0 {
                Some(cursor)
            } else {
                Some(Cursor { map: cursor.map.insert(key, cursor.map[key].push(token)), ..cursor })
            },
        }
    }
}

/// The reading after all of `tokens`, or the first token that cannot stand
/// where it does.
pub open spec fn scan(cursor: Cursor, tokens: Seq<TokenView>) -> Result<Cursor, TokenView>
    decreases tokens.len(),
{
    if tokens.len() == 0 {
        Ok(cursor)
    } else {
        match accept(cursor, tokens[0]) {
            Some(next) => scan(next, tokens.drop_first()),
            None => Err(tokens[0]),
        }
    }
}

/// The directives that a payload adds to `map`.
pub open spec fn directives(map: Map<Seq<char>, Seq<TokenView>>, tokens: Seq<TokenView>) -> Result<
    Map<Seq<char>, Seq<TokenView>>,
    FaultView,
> {
    match scan(Cursor { map, open: None }, tokens) {
        Ok(cursor) => Ok(cursor.map),
        Err(token) => Err(FaultView::UnexpectedToken(token.text())),
    }
}

/// The directives of the annotations named `ident`, read in order into
/// `map`. An annotation of that name without a delimited payload is
/// malformed; annotations of other names are passed over.
pub open spec fn gathered(
    map: Map<Seq<char>, Seq<TokenView>>,
    annotations: Seq<AnnotationView>,
    ident: Seq<char>,
) -> Result<Map<Seq<char>, Seq<TokenView>>, FaultView>
    decreases annotations.len(),
{
    if annotations.len() == 0 {
        Ok(map)
    } else if annotations[0].is_ident(ident) {
        match annotations[0].arguments {
            None => Err(FaultView::MalformedAnnotation),
            Some(arguments) => match directives(map, arguments.tokens) {
                Ok(next) => gathered(next, annotations.drop_first(), ident),
                Err(fault) => Err(fault),
            },
        }
    } else {
        gathered(map, annotations.drop_first(), ident)
    }
}

/// The directives of a payload given as text.
pub open spec fn directives_of_text(text: Seq<char>) -> Result<
    Map<Seq<char>, Seq<TokenView>>,
    FaultView,
> {
    match tokens_of(text) {
        Some(tokens) => directives(Map::empty(), tokens),
        None => Err(FaultView::MalformedAnnotation),
    }
}

/// The value of a key that a generator needs: the key must be present, and
/// its value must not be empty.
pub open spec fn required_value(map: Map<Seq<char>, Seq<TokenView>>, key: Seq<char>) -> Result<
    Seq<TokenView>,
    FaultView,
> {
    if !map.contains_key(key) {
        Err(FaultView::MissingKey(key))
    } else if map[key].len() == 0 {
        Err(FaultView::InvalidValue(key))
    } else {
        Ok(map[key])
    }
}

/// The value of an identifier key that a generator can do without: where
/// the key is absent it is `default`; where it is present its value must be
/// one identifier and nothing else.
pub open spec fn optional_identifier(
    map: Map<Seq<char>, Seq<TokenView>>,
    key: Seq<char>,
    default: Seq<char>,
) -> Result<Seq<char>, FaultView> {
    if !map.contains_key(key) {
        Ok(default)
    } else if map[key].len() == 1 && map[key][0] is Ident {
        Ok(map[key][0]->Ident_0)
    } else {
        Err(FaultView::InvalidValue(key))
    }
}

/// The value of a boolean key that a generator needs: the single identifier
/// `true` or `false`, and nothing else.
pub open spec fn flag_value(map: Map<Seq<char>, Seq<TokenView>>, key: Seq<char>) -> Result<
    bool,
    FaultView,
> {
    match required_value(map, key) {
        Err(fault) => Err(fault),
        Ok(value) => if value == seq![TokenView::Ident("true"@)] {
            Ok(true)
        } else if value == seq![TokenView::Ident("false"@)] {
            Ok(false)
        } else {
            Err(FaultView::InvalidValue(key))
        },
    }
}

impl MetadataMap {
    /// No directive.
    pub fn new() -> (map: MetadataMap)
        ensures
            map@ == Map::<Seq<char>, Seq<TokenView>>::empty(),
    {
        MetadataMap { entries: Vec::new() }
    }

    /// The value of `key`, if the key is present.
    pub fn get(&self, key: &str) -> (value: Option<&Vec<Token>>)
        ensures
            match value {
                Some(tokens) => self@.contains_key(key@) && tokens.deep_view() == self@[key@],
                None => !self@.contains_key(key@),
            },
    {
        let ghost entries = self.entries.deep_view();
        let mut i: usize = self.entries.len();
        assert(entries.take(i as int) =~= entries);
        while i > 0
            invariant
                i <= self.entries.len(),
                entries == self.entries.deep_view(),
                self@.contains_key(key@) == entries_map(entries.take(i as int)).contains_key(key@),
                self@.contains_key(key@) ==> self@[key@] == entries_map(entries.take(i as int))[key@],
            decreases i,
        {
            i -= 1;
            proof {
                let upto = entries.take(i + 1);
                assert(upto.drop_last() =~= entries.take(i as int));
                assert(upto.last() == self.entries[i as int]@);
            }
            if crate::entity::text_is(&self.entries[i].key, key) {
                return Some(&self.entries[i].value);
            }
        }
        None
    }

    /// True where `key` is present.
    pub fn contains_key(&self, key: &str) -> (present: bool)
        ensures
            present == self@.contains_key(key@),
    {
        self.get(key).is_some()
    }

    /// The value of a key that must be present with a value.
    pub fn required(&self, key: &str) -> (value: Result<Vec<Token>, Fault>)
        ensures
            match required_value(self@, key@) {
                Ok(tokens) => value matches Ok(found) && found.deep_view() == tokens,
                Err(fault) => value matches Err(found) && found@ == fault,
            },
    {
        match self.get(key) {
            None => Err(Fault::MissingKey(String::from_str(key))),
            Some(tokens) => if tokens.len() == 0 {
                Err(Fault::InvalidValue(String::from_str(key)))
            } else {
                Ok(duplicate_tokens(tokens))
            },
        }
    }

    /// The value of an identifier key that may be absent, in which case it
    /// is `default`.
    pub fn identifier(&self, key: &str, default: &str) -> (value: Result<String, Fault>)
        ensures
            match optional_identifier(self@, key@, default@) {
                Ok(name) => value matches Ok(found) && found@ == name,
                Err(fault) => value matches Err(found) && found@ == fault,
            },
    {
        match self.get(key) {
            None => Ok(String::from_str(default)),
            Some(tokens) => {
                if tokens.len() == 1 {
                    proof {
                        assert(tokens.deep_view()[0] == tokens[0]@);
                    }
                    if let Token::Ident(name) = &tokens[0] {
                        return Ok(name.clone());
                    }
                }
                Err(Fault::InvalidValue(String::from_str(key)))
            },
        }
    }

    /// The value of a boolean key that must be present.
    pub fn flag(&self, key: &str) -> (value: Result<bool, Fault>)
        ensures
            match flag_value(self@, key@) {
                Ok(flag) => value == Ok::<bool, Fault>(flag),
                Err(fault) => value matches Err(found) && found@ == fault,
            },
    {
        match self.get(key) {
            None => Err(Fault::MissingKey(String::from_str(key))),
            Some(tokens) => {
                if tokens.len() == 1 {
                    if let Token::Ident(word) = &tokens[0] {
                        let ghost value = tokens.deep_view();
                        assert(value =~= seq![value[0]]);
                        assert(value[0] == tokens[0]@);
                        if crate::entity::text_is(word, "true") {
                            return Ok(true);
                        }
                        if crate::entity::text_is(word, "false") {
                            proof {
                                lemma_true_is_not_false();
                            }
                            return Ok(false);
                        }
                    }
                }
                proof {
                    let value = tokens.deep_view();
                    if value.len() == 1 {
                        assert(value[0] == tokens[0]@);
                    }
                    assert(seq![TokenView::Ident("true"@)][0] == TokenView::Ident("true"@));
                    assert(seq![TokenView::Ident("false"@)][0] == TokenView::Ident("false"@));
                }
                Err(Fault::InvalidValue(String::from_str(key)))
            },
        }
    }

    /// Reads the tokens of one payload into the map, each key first closed.
    /// On a fault the map holds what was read before it.
    fn read(&mut self, tokens: &Vec<Token>) -> (read: Result<(), Fault>)
        ensures
            match directives(old(self)@, tokens.deep_view()) {
                Ok(map) => read is Ok && final(self)@ == map,
                Err(fault) => read matches Err(found) && found@ == fault,
            },
    {
        let ghost all = tokens.deep_view();
        let ghost start = Cursor { map: self@, open: None };
        let ghost mut cursor = start;
        let mut open = false;
        let mut i: usize = 0;
        assert(all.skip(0) =~= all);
        while i < tokens.len()
            invariant
                i <= tokens.len(),
                all == tokens.deep_view(),
                start == (Cursor { map: old(self)@, open: None }),
                scan(start, all) == scan(cursor, all.skip(i as int)),
                self@ == cursor.map,
                open == (cursor.open is Some),
                open ==> self.entries.len() > 0 && self.entries.deep_view().last().key
                    == cursor.open->0,
            decreases tokens.len() - i,
        {
            let token = &tokens[i];
            let ghost rest = all.skip(i as int);
            let ghost previous = cursor;
            proof {
                assert(rest[0] == token@);
                assert(rest.drop_first() =~= all.skip(i + 1));
            }
            let ghost entries = self.entries.deep_view();
            let comma = match token {
                Token::Punct(punct, _) => *punct == ',',
                _ => false,
            };
            if comma {
                open = false;
                proof {
                    cursor = Cursor { open: None, ..cursor };
                }
            } else if !open {
                match token {
                    Token::Ident(name) => {
                        self.entries.push(Directive { key: name.clone(), value: Vec::new() });
                        open = true;
                        proof {
                            let pushed = self.entries.deep_view();
                            assert(pushed.drop_last() =~= entries);
                            assert(pushed.last().value =~= Seq::<TokenView>::empty());
                            cursor = Cursor {
                                map: cursor.map.insert(name@, Seq::empty()),
                                open: Some(name@),
                            };
                        }
                    },
                    _ => {
                        let mut text = String::new();
                        token.write_to(&mut text);
                        assert(text@ =~= token@.text());
                        assert(accept(previous, token@) is None);
                        assert(scan(previous, rest) == Err::<Cursor, TokenView>(token@));
                        return Err(Fault::UnexpectedToken(text));
                    },
                }
            } else {
                let separator = match token {
                    Token::Punct(punct, _) => *punct == '=',
                    _ => false,
                };
                let mut last = self.entries.pop().unwrap();
                proof {
                    assert(self.entries.deep_view() =~= entries.drop_last());
                    assert(last@ == entries.last());
                }
                if !(separator && last.value.len() == 0) {
                    let ghost before = last.value.deep_view();
                    last.value.push(token.duplicate());
                    proof {
                        assert(last.value.deep_view() =~= before.push(token@));
                        let key = cursor.open->0;
                        assert(cursor.map.insert(key, before.push(token@)) =~= entries_map(
                            entries.drop_last(),
                        ).insert(key, before.push(token@)));
                        cursor = Cursor {
                            map: cursor.map.insert(key, cursor.map[key].push(token@)),
                            ..cursor
                        };
                    }
                }
                let ghost replaced = last@;
                self.entries.push(last);
                proof {
                    let pushed = self.entries.deep_view();
                    assert(pushed.drop_last() =~= entries.drop_last());
                    assert(pushed.last() == replaced);
                }
            }
            assert(accept(previous, token@) == Some(cursor));
            assert(scan(previous, rest) == scan(cursor, rest.drop_first()));
            i += 1;
        }
        assert(all.skip(i as int).len() == 0);
        Ok(())
    }
}

/// True where no token of `tokens` is a comma.
pub open spec fn comma_free(tokens: Seq<TokenView>) -> bool {
    forall|i: int| 0 <= i < tokens.len() ==> !(#[trigger] tokens[i] matches TokenView::Punct(',', _))
}

/// With a key open, tokens without a comma among them all go to the key's
/// value, unless the first of them is an `=` that finds the value empty.
pub proof fn lemma_value_takes_all(cursor: Cursor, value: Seq<TokenView>, rest: Seq<TokenView>)
    requires
        cursor.open is Some,
        comma_free(value),
        value.len() > 0 ==> cursor.map[cursor.open->0].len() > 0 || !(value[0] matches TokenView::Punct(
            '=',
            _,
        )),
    ensures
        scan(cursor, value + rest) == scan(
            Cursor {
                map: if value.len() == 0 {
                    cursor.map
                } else {
                    cursor.map.insert(cursor.open->0, cursor.map[cursor.open->0] + value)
                },
                ..cursor
            },
            rest,
        ),
    decreases value.len(),
{
    let key = cursor.open->0;
    if value.len() == 0 {
        assert(value + rest =~= rest);
    } else {
        let all = value + rest;
        assert(all[0] == value[0]);
        assert(all.drop_first() =~= value.drop_first() + rest);
        let next = Cursor { map: cursor.map.insert(key, cursor.map[key].push(value[0])), ..cursor };
        assert(accept(cursor, value[0]) == Some(next));
        let tail = value.drop_first();
        assert(comma_free(tail)) by {
            assert forall|i: int| 0 <= i < tail.len() implies !(#[trigger] tail[i] matches TokenView::Punct(
                ',',
                _,
            )) by {
                assert(tail[i] == value[i + 1]);
            }
        }
        lemma_value_takes_all(next, tail, rest);
        if tail.len() > 0 {
            assert(next.map.insert(key, next.map[key] + tail) =~= cursor.map.insert(
                key,
                cursor.map[key] + value,
            )) by {
                assert(cursor.map[key].push(value[0]) + tail =~= cursor.map[key] + value);
            }
        } else {
            assert(cursor.map[key].push(value[0]) =~= cursor.map[key] + value);
        }
    }
}

/// The grammar of a payload: a key, an `=`, a value without a comma that
/// does not itself start with `=`, and a comma add the key with exactly
/// that value to the directives, and leave no key open for what follows.
pub proof fn lemma_directive(
    map: Map<Seq<char>, Seq<TokenView>>,
    key: Seq<char>,
    separator: TokenView,
    value: Seq<TokenView>,
    comma: TokenView,
    rest: Seq<TokenView>,
)
    requires
        separator matches TokenView::Punct('=', _),
        comma matches TokenView::Punct(',', _),
        comma_free(value),
        value.len() > 0 ==> !(value[0] matches TokenView::Punct('=', _)),
    ensures
        scan(
            Cursor { map, open: None },
            seq![TokenView::Ident(key), separator] + value + seq![comma] + rest,
        ) == scan(Cursor { map: map.insert(key, value), open: None }, rest),
{
    let start = Cursor { map, open: None };
    let all = seq![TokenView::Ident(key), separator] + value + seq![comma] + rest;
    let opened = Cursor { map: map.insert(key, Seq::empty()), open: Some(key) };
    let after_key = all.drop_first();
    let after_separator = after_key.drop_first();
    assert(all[0] == TokenView::Ident(key));
    assert(after_key[0] == separator);
    assert(accept(start, all[0]) == Some(opened));
    assert(accept(opened, separator) == Some(opened));
    assert(scan(start, all) == scan(opened, after_separator)) by {
        reveal_with_fuel(scan, 3);
    }
    assert(after_separator =~= value + (seq![comma] + rest));
    lemma_value_takes_all(opened, value, seq![comma] + rest);
    let filled = Cursor {
        map: if value.len() == 0 {
            opened.map
        } else {
            opened.map.insert(key, opened.map[key] + value)
        },
        ..opened
    };
    assert(filled.map =~= map.insert(key, value)) by {
        assert(Seq::<TokenView>::empty() + value =~= value);
        if value.len() == 0 {
            assert(value =~= Seq::<TokenView>::empty());
        }
    }
    let closing = seq![comma] + rest;
    assert(closing[0] == comma);
    assert(closing.drop_first() =~= rest);
    assert(accept(filled, comma) == Some(Cursor { open: None, ..filled }));
}

/// The two words a flag can hold differ.
proof fn lemma_true_is_not_false()
    ensures
        "true"@ != "false"@,
{
    reveal_strlit("true");
    reveal_strlit("false");
    assert("true"@.len() == 4);
    assert("false"@.len() == 5);
}

/// The directives of one payload.
pub fn parse_tokens(tokens: &Vec<Token>) -> (parsed: Result<MetadataMap, Fault>)
    ensures
        match directives(Map::empty(), tokens.deep_view()) {
            Ok(map) => parsed matches Ok(found) && found@ == map,
            Err(fault) => parsed matches Err(found) && found@ == fault,
        },
{
    let mut map = MetadataMap::new();
    match map.read(tokens) {
        Ok(()) => Ok(map),
        Err(fault) => Err(fault),
    }
}

/// The directives of a payload given as text, such as
/// `pre=true, post=false, table=x`.
pub fn parse_directives(text: &str) -> (parsed: Result<MetadataMap, Fault>)
    ensures
        match directives_of_text(text@) {
            Ok(map) => parsed matches Ok(found) && found@ == map,
            Err(fault) => parsed matches Err(found) && found@ == fault,
        },
{
    match tokenize(text) {
        Some(tokens) => parse_tokens(&tokens),
        None => Err(Fault::MalformedAnnotation),
    }
}

/// The directives of the annotations named `ident` among `attrs`.
pub fn hash_attributes(attrs: &Vec<Annotation>, ident: &str) -> (hashed: Result<MetadataMap, Fault>)
    ensures
        match gathered(Map::empty(), attrs.deep_view(), ident@) {
            Ok(map) => hashed matches Ok(found) && found@ == map,
            Err(fault) => hashed matches Err(found) && found@ == fault,
        },
{
    let ghost all = attrs.deep_view();
    let mut map = MetadataMap::new();
    let mut i: usize = 0;
    assert(all.skip(0) =~= all);
    while i < attrs.len()
        invariant
            i <= attrs.len(),
            all == attrs.deep_view(),
            gathered(Map::empty(), all, ident@) == gathered(map@, all.skip(i as int), ident@),
        decreases attrs.len() - i,
    {
        let annotation = &attrs[i];
        proof {
            let rest = all.skip(i as int);
            assert(rest[0] == annotation@);
            assert(rest.drop_first() =~= all.skip(i + 1));
        }
        if annotation.is_ident(ident) {
            match &annotation.arguments {
                None => {
                    return Err(Fault::MalformedAnnotation);
                },
                Some(arguments) => {
                    match map.read(&arguments.tokens) {
                        Ok(()) => {},
                        Err(fault) => {
                            return Err(fault);
                        },
                    }
                },
            }
        }
        i += 1;
    }
    Ok(map)
}

} // verus!
