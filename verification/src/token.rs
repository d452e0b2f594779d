//! Tokens: what a declaration is made of once its text has been read.
//!
//! Reading goes in two steps. The text is first cut into lexemes, then each
//! lexeme is told apart as a name, a reserved word, a punctuation mark or a
//! string literal. The grammar of a declaration is stated over the tokens that
//! come out of the second step.

use proc_macro2::{Spacing, TokenStream, TokenTree};
use vstd::prelude::*;
use vstd::string::*;

verus! {

/// A piece of source text as the lexer cuts it, with the text it was written
/// with.
#[derive(Clone, Debug, PartialEq, Eq)]
pub enum Lexeme {
    /// A word: an identifier or a reserved word.
    Ident(String),
    /// A punctuation character, and whether it is joined to what follows it:
    /// to the next punctuation character of an operator such as `::`, or to
    /// the name of a lifetime.
    Punct(char, bool),
    /// A literal, as written.
    Literal(String),
    /// A bracketed group, as written, brackets included.
    Group(String),
}

/// The mathematical value of a [`Lexeme`].
pub enum LexemeView {
    Ident(Seq<char>),
    Punct(char, bool),
    Literal(Seq<char>),
    Group(Seq<char>),
}

impl View for Lexeme {
    type V = LexemeView;

    open spec fn view(&self) -> LexemeView {
        match self {
            Lexeme::Ident(text) => LexemeView::Ident(text@),
            Lexeme::Punct(ch, joint) => LexemeView::Punct(*ch, *joint),
            Lexeme::Literal(text) => LexemeView::Literal(text@),
            Lexeme::Group(text) => LexemeView::Group(text@),
        }
    }
}

impl DeepView for Lexeme {
    type V = LexemeView;

    open spec fn deep_view(&self) -> LexemeView {
        self@
    }
}

/// A token of a declaration.
#[derive(Clone, Debug, PartialEq, Eq)]
pub enum Token {
    /// A word that can name an item.
    Ident(String),
    /// A reserved word, which cannot.
    Keyword(String),
    /// A single punctuation character.
    Punct(char),
    /// The path separator `::`.
    PathSep,
    /// A string literal, by the string that it denotes.
    Str(String),
    /// Anything else: another kind of literal, a bracketed group.
    Other,
}

/// The mathematical value of a [`Token`].
pub enum TokenView {
    Ident(Seq<char>),
    Keyword(Seq<char>),
    Punct(char),
    PathSep,
    Str(Seq<char>),
    Other,
}

impl View for Token {
    type V = TokenView;

    open spec fn view(&self) -> TokenView {
        match self {
            Token::Ident(text) => TokenView::Ident(text@),
            Token::Keyword(text) => TokenView::Keyword(text@),
            Token::Punct(ch) => TokenView::Punct(*ch),
            Token::PathSep => TokenView::PathSep,
            Token::Str(value) => TokenView::Str(value@),
            Token::Other => TokenView::Other,
        }
    }
}

impl DeepView for Token {
    type V = TokenView;

    open spec fn deep_view(&self) -> TokenView {
        self@
    }
}

/// The lexemes that proc-macro2's lexer cuts `text` into, or `None` where it
/// rejects the text.
pub uninterp spec fn lexed(text: Seq<char>) -> Option<Seq<LexemeView>>;

/// Whether syn reads `word` as an identifier: a word that is no reserved word.
pub uninterp spec fn accepted_identifier(word: Seq<char>) -> bool;

/// The string that `literal` denotes where syn reads it as a string literal,
/// and `None` where it does not.
pub uninterp spec fn string_literal_value(literal: Seq<char>) -> Option<Seq<char>>;

/// `proc_macro2::TokenStream::from_str`, followed by one [`Lexeme`] for each
/// token of the stream's top level: an identifier, a literal and a group by
/// their `to_string`, a punctuation mark by `as_char` and `spacing`. The crate
/// is built without proc-macro2's bridge to a compiler, so the lexer is
/// proc-macro2's own and its result depends on the text alone.
#[verifier::external_body]
pub(crate) fn lex(text: &str) -> (lexemes: Option<Vec<Lexeme>>)
    ensures
        lexemes is Some <==> lexed(text@) is Some,
        lexemes matches Some(v) ==> lexed(text@) == Some(v.deep_view()),
{
    let stream: TokenStream = text.parse().ok()?;
    let lexeme = |tree| match tree {
        TokenTree::Ident(word) => Lexeme::Ident(word.to_string()),
        TokenTree::Punct(mark) => Lexeme::Punct(mark.as_char(), matches!(mark.spacing(), Spacing::Joint)),
        TokenTree::Literal(literal) => Lexeme::Literal(literal.to_string()),
        TokenTree::Group(group) => Lexeme::Group(group.to_string()),
    };
    Some(stream.into_iter().map(lexeme).collect())
}

/// `syn::parse_str::<syn::Ident>`: whether syn reads the whole of `word` as
/// one identifier. It refuses the reserved words and `_`.
#[verifier::external_body]
pub(crate) fn is_identifier(word: &str) -> (accepted: bool)
    ensures
        accepted == accepted_identifier(word@),
{
    syn::parse_str::<syn::Ident>(word).is_ok()
}

/// `syn::parse_str::<syn::LitStr>` followed by `syn::LitStr::value`: the
/// string that the literal denotes, escapes resolved, where syn reads the
/// whole of `literal` as one string literal.
#[verifier::external_body]
pub(crate) fn string_value(literal: &str) -> (value: Option<String>)
    ensures
        value is Some <==> string_literal_value(literal@) is Some,
        value matches Some(v) ==> string_literal_value(literal@) == Some(v@),
{
    syn::parse_str::<syn::LitStr>(literal).ok().map(|lit| lit.value())
}

/// The token that a lexeme is, alone. A `:` is a punctuation mark here; where
/// two of them make a path separator is for [`tokens_of`] to say.
pub open spec fn token_of(lexeme: LexemeView) -> TokenView {
    match lexeme {
        LexemeView::Ident(word) => if accepted_identifier(word) {
            TokenView::Ident(word)
        } else {
            TokenView::Keyword(word)
        },
        LexemeView::Punct(ch, _) => TokenView::Punct(ch),
        LexemeView::Literal(text) => match string_literal_value(text) {
            Some(value) => TokenView::Str(value),
            None => TokenView::Other,
        },
        LexemeView::Group(_) => TokenView::Other,
    }
}

/// Whether a path separator starts at the head of `lexemes`: a `:` joined to
/// another `:`.
pub open spec fn starts_with_path_sep(lexemes: Seq<LexemeView>) -> bool {
    &&& lexemes.len() >= 2
    &&& lexemes[0] == LexemeView::Punct(':', true)
    &&& lexemes[1] matches LexemeView::Punct(ch, _)
    &&& ch == ':'
}

/// The tokens that a sequence of lexemes stands for, in order.
pub open spec fn tokens_of(lexemes: Seq<LexemeView>) -> Seq<TokenView>
    decreases lexemes.len(),
{
    if lexemes.len() == 0 {
        Seq::empty()
    } else if starts_with_path_sep(lexemes) {
        seq![TokenView::PathSep] + tokens_of(lexemes.skip(2))
    } else {
        seq![token_of(lexemes[0])] + tokens_of(lexemes.skip(1))
    }
}

/// The token that `lexeme` is, alone.
fn classify(lexeme: &Lexeme) -> (token: Token)
    ensures
        token@ == token_of(lexeme@),
{
    match lexeme {
        Lexeme::Ident(word) => {
            if is_identifier(word.as_str()) {
                Token::Ident(word.clone())
            } else {
                Token::Keyword(word.clone())
            }
        },
        Lexeme::Punct(ch, _) => Token::Punct(*ch),
        Lexeme::Literal(text) => {
            match string_value(text.as_str()) {
                Some(value) => Token::Str(value),
                None => Token::Other,
            }
        },
        Lexeme::Group(_) => Token::Other,
    }
}

fn is_colon(lexeme: &Lexeme) -> (r: bool)
    ensures
        r == (lexeme@ matches LexemeView::Punct(ch, _) && ch == ':'),
{
    match lexeme {
        Lexeme::Punct(ch, _) => *ch == ':',
        _ => false,
    }
}

fn is_joint_colon(lexeme: &Lexeme) -> (r: bool)
    ensures
        r == (lexeme@ == LexemeView::Punct(':', true)),
{
    match lexeme {
        Lexeme::Punct(ch, joint) => *ch == ':' && *joint,
        _ => false,
    }
}

/// Tells each lexeme apart and joins the two colons of a path separator.
pub fn tokenize(lexemes: &Vec<Lexeme>) -> (tokens: Vec<Token>)
    ensures
        tokens.deep_view() == tokens_of(lexemes.deep_view()),
{
    let ghost all = lexemes.deep_view();
    let mut tokens: Vec<Token> = Vec::new();
    let mut i: usize = 0;
    assert(all.skip(0) =~= all);
    while i < lexemes.len()
        invariant
            i <= lexemes.len(),
            all == lexemes.deep_view(),
            tokens.deep_view() + tokens_of(all.skip(i as int)) == tokens_of(all),
        decreases lexemes.len() - i,
    {
        let ghost rest = all.skip(i as int);
        if is_joint_colon(&lexemes[i]) && i + 1 < lexemes.len() && is_colon(&lexemes[i + 1]) {
            tokens.push(Token::PathSep);
            assert(rest.skip(2) =~= all.skip(i + 2));
            i = i + 2;
        } else {
            assert(!starts_with_path_sep(rest));
            let token = classify(&lexemes[i]);
            tokens.push(token);
            assert(rest.skip(1) =~= all.skip(i + 1));
            i = i + 1;
        }
    }
    tokens
}

/// The text of one lexeme.
pub open spec fn lexeme_text(lexeme: LexemeView) -> Seq<char> {
    match lexeme {
        LexemeView::Ident(text) => text,
        LexemeView::Punct(ch, _) => seq![ch],
        LexemeView::Literal(text) => text,
        LexemeView::Group(text) => text,
    }
}

/// What stands between the lexemes `before` and the one that follows them:
/// nothing at the start and after a punctuation character that is joined to
/// what follows it, else one space.
pub open spec fn gap_after(before: Seq<LexemeView>) -> Seq<char> {
    if before.len() == 0 {
        Seq::empty()
    } else {
        match before.last() {
            LexemeView::Punct(_, true) => Seq::empty(),
            _ => seq![' '],
        }
    }
}

/// The lexemes as text: each as it was written, with one space between two of
/// them unless the first is a punctuation character that is joined to the
/// second. Comments and line breaks of the text that was read are gone.
pub open spec fn rendered(lexemes: Seq<LexemeView>) -> Seq<char>
    decreases lexemes.len(),
{
    if lexemes.len() == 0 {
        Seq::empty()
    } else {
        rendered(lexemes.drop_last()) + gap_after(lexemes.drop_last()) + lexeme_text(
            lexemes.last(),
        )
    }
}

/// Writes the lexemes as text.
pub fn render(lexemes: &Vec<Lexeme>) -> (text: String)
    ensures
        text@ == rendered(lexemes.deep_view()),
{
    let ghost all = lexemes.deep_view();
    let mut text = String::new();
    let mut joint = true;
    let mut i: usize = 0;
    while i < lexemes.len()
        invariant
            i <= lexemes.len(),
            all == lexemes.deep_view(),
            text@ == rendered(all.take(i as int)),
            gap_after(all.take(i as int)) == if joint {
                Seq::<char>::empty()
            } else {
                seq![' ']
            },
        decreases lexemes.len() - i,
    {
        assert(all.take(i + 1).drop_last() =~= all.take(i as int));
        if !joint {
            text.push(' ');
        }
        match &lexemes[i] {
            Lexeme::Ident(word) => {
                text.append(word.as_str());
                joint = false;
            },
            Lexeme::Punct(ch, follows) => {
                text.push(*ch);
                joint = *follows;
            },
            Lexeme::Literal(literal) => {
                text.append(literal.as_str());
                joint = false;
            },
            Lexeme::Group(group) => {
                text.append(group.as_str());
                joint = false;
            },
        }
        i = i + 1;
    }
    assert(all.take(i as int) =~= all);
    text
}

/// The tokens that `text` is made of, or `None` where the lexer rejects it.
pub open spec fn tokens_in(text: Seq<char>) -> Option<Seq<TokenView>> {
    match lexed(text) {
        Some(lexemes) => Some(tokens_of(lexemes)),
        None => None,
    }
}

/// Reads the tokens of `text`.
pub fn read_tokens(text: &str) -> (tokens: Option<Vec<Token>>)
    ensures
        match tokens {
            Some(found) => tokens_in(text@) == Some(found.deep_view()),
            None => tokens_in(text@) is None,
        },
{
    match lex(text) {
        Some(lexemes) => Some(tokenize(&lexemes)),
        None => None,
    }
}

} // verus!
