//! Tokens of an annotation payload, and their textual form.

use vstd::prelude::*;

verus! {

/// Whether a punctuation character is glued to the token that follows it.
#[derive(Clone, Copy, Debug, PartialEq, Eq, Structural)]
pub enum Spacing {
    Alone,
    Joint,
}

/// One top-level token. A literal and a delimited group are kept as the text
/// they are written with; a group's text includes its delimiters.
#[derive(Debug, PartialEq, Eq)]
pub enum Token {
    Ident(String),
    Punct(char, Spacing),
    Literal(String),
    Group(String),
}

/// The mathematical value of a [`Token`].
pub ghost enum TokenView {
    Ident(Seq<char>),
    Punct(char, Spacing),
    Literal(Seq<char>),
    Group(Seq<char>),
}

impl View for Token {
    type V = TokenView;

    open spec fn view(&self) -> TokenView {
        match *self {
            Token::Ident(s) => TokenView::Ident(s@),
            Token::Punct(c, spacing) => TokenView::Punct(c, spacing),
            Token::Literal(s) => TokenView::Literal(s@),
            Token::Group(s) => TokenView::Group(s@),
        }
    }
}

impl DeepView for Token {
    type V = TokenView;

    open spec fn deep_view(&self) -> TokenView {
        self@
    }
}

impl TokenView {
    /// The characters the token is written with.
    pub open spec fn text(self) -> Seq<char> {
        match self {
            TokenView::Ident(s) => s,
            TokenView::Punct(c, _) => seq![c],
            TokenView::Literal(s) => s,
            TokenView::Group(s) => s,
        }
    }

    /// True of a punctuation character glued to its successor.
    pub open spec fn is_joint(self) -> bool {
        self matches TokenView::Punct(_, Spacing::Joint)
    }
}

/// What separates the tokens `head` from one written after them: nothing at
/// the start and after a joint punctuation character, one space otherwise.
pub open spec fn separator(head: Seq<TokenView>) -> Seq<char> {
    if head.len() == 0 || head.last().is_joint() {
        Seq::empty()
    } else {
        seq![' ']
    }
}

/// The text of a token sequence.
pub open spec fn rendered(tokens: Seq<TokenView>) -> Seq<char>
    decreases tokens.len(),
{
    if tokens.len() == 0 {
        Seq::empty()
    } else {
        rendered(tokens.drop_last()) + separator(tokens.drop_last()) + tokens.last().text()
    }
}

/// What the lexer of `proc_macro2` makes of a text: the top-level tokens it
/// reads from it, or nothing where the text is not a sequence of tokens with
/// balanced delimiters.
pub uninterp spec fn lexed(text: Seq<char>) -> Option<Seq<TokenView>>;

/// The most opening delimiters that a text may hold to be read. No group
/// nests deeper than the text has opening delimiters, so the limit bounds
/// the nesting too.
pub const MAX_OPENINGS: usize = 128;

/// True of the three characters that open a group.
pub open spec fn opens(c: char) -> bool {
    c == '(' || c == '[' || c == '{'
}

/// How many opening delimiters `text` holds, wherever they stand.
pub open spec fn openings(text: Seq<char>) -> nat
    decreases text.len(),
{
    if text.len() == 0 {
        0
    } else if opens(text.last()) {
        openings(text.drop_last()) + 1
    } else {
        openings(text.drop_last())
    }
}

/// The top-level tokens of a text: nothing for a text with more than
/// [`MAX_OPENINGS`] opening delimiters, else what the lexer makes of it.
pub open spec fn tokens_of(text: Seq<char>) -> Option<Seq<TokenView>> {
    if openings(text) > MAX_OPENINGS {
        None
    } else {
        lexed(text)
    }
}

/// Runs `proc_macro2::TokenStream::from_str` on `text` and hands its top-level
/// token trees out as [`Token`]s, each literal and group as the text that the
/// crate's `Display` gives it. With the crate's `proc-macro` feature off the
/// lexer is the crate's own, a function of the text alone, which is all the
/// contract claims: the result is what [`lexed`] names. The text of a group
/// is written by a recursion as deep as the group nests, so the call is
/// made only for a text with few opening delimiters.
#[verifier::external_body]
fn lex(text: &str) -> (tokens: Option<Vec<Token>>)
    requires
        openings(text@) <= MAX_OPENINGS,
    ensures
        tokens.deep_view() == lexed(text@),
{
    let stream = text.parse::<proc_macro2::TokenStream>().ok()?;
    Some(stream.into_iter().map(|tree| match tree {
        proc_macro2::TokenTree::Ident(ident) => Token::Ident(ident.to_string()),
        proc_macro2::TokenTree::Punct(punct) => Token::Punct(punct.as_char(), match punct.spacing() {
            proc_macro2::Spacing::Alone => Spacing::Alone,
            proc_macro2::Spacing::Joint => Spacing::Joint,
        }),
        proc_macro2::TokenTree::Literal(literal) => Token::Literal(literal.to_string()),
        proc_macro2::TokenTree::Group(group) => Token::Group(group.to_string()),
    }).collect())
}

/// True where `text` holds no more than [`MAX_OPENINGS`] opening
/// delimiters.
pub fn within_limit(text: &str) -> (within: bool)
    ensures
        within == (openings(text@) <= MAX_OPENINGS),
{
    let chars = crate::text::characters(text);
    let mut count: usize = 0;
    let mut i: usize = 0;
    assert(text@.take(0) =~= Seq::<char>::empty());
    while i < chars.len()
        invariant
            i <= chars.len(),
            chars@ == text@,
            count == openings(text@.take(i as int)),
            count <= i,
        decreases chars.len() - i,
    {
        proof {
            let upto = text@.take(i + 1);
            assert(upto.drop_last() =~= text@.take(i as int));
            assert(upto.last() == chars[i as int]);
        }
        let c = chars[i];
        if c == '(' || c == '[' || c == '{' {
            count += 1;
        }
        i += 1;
    }
    assert(text@.take(i as int) =~= text@);
    count <= MAX_OPENINGS
}

/// The top-level tokens of `text`, or `None` where it holds too many
/// opening delimiters or cannot be read as tokens.
pub fn tokenize(text: &str) -> (tokens: Option<Vec<Token>>)
    ensures
        tokens.deep_view() == tokens_of(text@),
{
    if within_limit(text) {
        lex(text)
    } else {
        None
    }
}

pub assume_specification[ String::push ](s: &mut String, c: char)
    ensures
        final(s)@ == old(s)@.push(c),
;

impl Token {
    /// A copy of the token.
    pub fn duplicate(&self) -> (copy: Token)
        ensures
            copy@ == self@,
    {
        match self {
            Token::Ident(s) => Token::Ident(s.clone()),
            Token::Punct(c, spacing) => Token::Punct(*c, *spacing),
            Token::Literal(s) => Token::Literal(s.clone()),
            Token::Group(s) => Token::Group(s.clone()),
        }
    }

    /// Appends the token's text to `out`.
    pub fn write_to(&self, out: &mut String)
        ensures
            final(out)@ == old(out)@ + self@.text(),
    {
        match self {
            Token::Ident(s) => out.append(s.as_str()),
            Token::Punct(c, _) => {
                out.push(*c);
                assert(out@ =~= old(out)@ + seq![*c]);
            },
            Token::Literal(s) => out.append(s.as_str()),
            Token::Group(s) => out.append(s.as_str()),
        }
    }
}

/// Copies a token sequence.
pub fn duplicate_tokens(tokens: &Vec<Token>) -> (copy: Vec<Token>)
    ensures
        copy.deep_view() == tokens.deep_view(),
{
    let mut copy: Vec<Token> = Vec::new();
    let mut i: usize = 0;
    while i < tokens.len()
        invariant
            i <= tokens.len(),
            copy.len() == i,
            forall|j: int| 0 <= j < i ==> copy[j]@ == tokens[j]@,
        decreases tokens.len() - i,
    {
        copy.push(tokens[i].duplicate());
        i += 1;
    }
    assert(copy.deep_view() =~= tokens.deep_view());
    copy
}

/// Appends the text of `tokens` to `out`: the tokens in order, one space
/// between neighbours except after a joint punctuation character.
pub fn write_tokens(tokens: &Vec<Token>, out: &mut String)
    ensures
        final(out)@ == old(out)@ + rendered(tokens.deep_view()),
{
    let ghost all = tokens.deep_view();
    let mut i: usize = 0;
    let mut joint = false;
    while i < tokens.len()
        invariant
            i <= tokens.len(),
            all == tokens.deep_view(),
            out@ == old(out)@ + rendered(all.take(i as int)),
            joint == (i > 0 && all[i - 1].is_joint()),
        decreases tokens.len() - i,
    {
        let ghost before = out@;
        let ghost head = all.take(i as int);
        if i != 0 && !joint {
            out.push(' ');
        }
        assert(out@ =~= before + separator(head));
        tokens[i].write_to(out);
        joint = match &tokens[i] {
            Token::Punct(_, Spacing::Joint) => true,
            _ => false,
        };
        proof {
            let next = all.take(i + 1);
            assert(next.drop_last() =~= head);
            assert(next.last() == tokens[i as int]@);
            assert(out@ =~= old(out)@ + rendered(next));
        }
        i += 1;
    }
    assert(all.take(i as int) =~= all);
}

/// The text of `tokens`.
pub fn render_tokens(tokens: &Vec<Token>) -> (text: String)
    ensures
        text@ == rendered(tokens.deep_view()),
{
    let mut text = String::new();
    write_tokens(tokens, &mut text);
    assert(text@ =~= rendered(tokens.deep_view()));
    text
}

} // verus!
