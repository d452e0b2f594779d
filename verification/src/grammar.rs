//! The grammar of a node declaration:
//!
//! ```text
//! NodeDecl    := ["pub"] "type" Identifier "<" VariantList ">" ["=" StringLiteral]
//! VariantList := [TypeRef ("," TypeRef)* [","]]
//! TypeRef     := Identifier ("::" Identifier)*
//! ```
//!
//! The order of the variants is kept: it decides which tag each of them gets.
//! A list without variants is admitted, and so is a list that names a type
//! twice; what becomes of the items generated for such a node is for the
//! compiler to say.
//!
//! [`parsed_node`] reads a declaration token by token. That it admits exactly
//! what the grammar above spells is shown in [`crate::spelling`], and that the
//! place it reports is the first token that offends in [`crate::rejection`].

use crate::error::{Error, ErrorView};
use crate::token::{read_tokens, tokens_in, Token, TokenView};
use vstd::prelude::*;
use vstd::string::*;

verus! {

/// What the grammar asks for at the place where a declaration goes wrong.
#[derive(Clone, Copy, Debug, PartialEq, Eq, Structural)]
pub enum Expected {
    /// The keyword `type`.
    Type,
    /// An identifier.
    Identifier,
    /// The `<` that opens the list of variants.
    OpenAngle,
    /// A type reference, or the `>` that closes the list of variants.
    VariantOrCloseAngle,
    /// A `,` before the next variant, or the `>` that closes the list.
    CommaOrCloseAngle,
    /// The `=` that announces the message prefix.
    Equals,
    /// The string literal of the message prefix.
    StringLiteral,
    /// The end of the declaration.
    End,
}

/// Why a sequence of tokens is no node declaration.
#[derive(Clone, Copy, Debug, PartialEq, Eq, Structural)]
pub struct SyntaxError {
    /// The index of the first token that cannot stand where it does; the
    /// number of tokens where the declaration ends too early.
    pub position: usize,
    /// What the grammar asks for there.
    pub expected: Expected,
}

/// A reference to a type: an identifier, or several joined by `::`.
#[derive(Clone, Debug, PartialEq, Eq)]
pub struct TypeRef {
    /// The identifiers of the path, in order.
    pub segments: Vec<String>,
}

impl DeepView for TypeRef {
    type V = Seq<Seq<char>>;

    open spec fn deep_view(&self) -> Seq<Seq<char>> {
        self.segments.deep_view()
    }
}

impl TypeRef {
    /// A type reference has at least one segment.
    pub open spec fn well_formed(&self) -> bool {
        self.segments.len() >= 1
    }
}

/// A node declaration, as parsed.
#[derive(Clone, Debug, PartialEq, Eq)]
pub struct ErrorNode {
    /// Whether the node is declared `pub`.
    pub is_pub: bool,
    /// The name of the node.
    pub node_name: String,
    /// The types of the errors that the node can hold, in the order declared.
    pub variants: Vec<TypeRef>,
    /// What the node renders with in place of its name, where it is given.
    pub message_prefix: Option<String>,
}

/// The mathematical value of an [`ErrorNode`].
pub struct ErrorNodeView {
    pub is_pub: bool,
    pub node_name: Seq<char>,
    pub variants: Seq<Seq<Seq<char>>>,
    pub message_prefix: Option<Seq<char>>,
}

impl View for ErrorNode {
    type V = ErrorNodeView;

    open spec fn view(&self) -> ErrorNodeView {
        ErrorNodeView {
            is_pub: self.is_pub,
            node_name: self.node_name@,
            variants: self.variants.deep_view(),
            message_prefix: match self.message_prefix {
                Some(prefix) => Some(prefix@),
                None => None,
            },
        }
    }
}

impl ErrorNodeView {
    /// Every variant is a type reference with at least one segment.
    pub open spec fn well_formed(self) -> bool {
        forall|i: int| 0 <= i < self.variants.len() ==> (#[trigger] self.variants[i]).len() >= 1
    }
}

impl ErrorNode {
    /// Every variant is a type reference with at least one segment.
    pub open spec fn well_formed(&self) -> bool {
        self@.well_formed()
    }
}

/// Reads the rest of a type reference whose segments so far are `path`: every
/// `::` that follows, each with the identifier after it. Gives the whole path
/// and the index of the first token after it.
pub open spec fn read_path(tokens: Seq<TokenView>, at: int, path: Seq<Seq<char>>) -> Result<
    (Seq<Seq<char>>, int),
    (int, Expected),
>
    decreases tokens.len() - at,
{
    if 0 <= at < tokens.len() && tokens[at] == TokenView::PathSep {
        if at + 1 < tokens.len() && tokens[at + 1] is Ident {
            read_path(tokens, at + 2, path.push(tokens[at + 1]->Ident_0))
        } else {
            Err((at + 1, Expected::Identifier))
        }
    } else {
        Ok((path, at))
    }
}

/// A type reference ends after the place where it starts.
pub proof fn lemma_read_path_advances(tokens: Seq<TokenView>, at: int, path: Seq<Seq<char>>)
    requires
        0 <= at <= tokens.len(),
    ensures
        match read_path(tokens, at, path) {
            Ok((whole, end)) => at <= end <= tokens.len() && whole.len() >= path.len(),
            Err((position, _)) => at < position <= tokens.len(),
        },
    decreases tokens.len() - at,
{
    if at < tokens.len() && tokens[at] == TokenView::PathSep {
        if at + 1 < tokens.len() && tokens[at + 1] is Ident {
            lemma_read_path_advances(tokens, at + 2, path.push(tokens[at + 1]->Ident_0));
        }
    }
}

/// Reads the list of variants from the token at `at`, which stands where a
/// variant starts or the list closes; `variants` are those read so far. Gives
/// all the variants and the index of the first token after the closing `>`.
pub open spec fn read_variants(
    tokens: Seq<TokenView>,
    at: int,
    variants: Seq<Seq<Seq<char>>>,
) -> Result<(Seq<Seq<Seq<char>>>, int), (int, Expected)>
    decreases tokens.len() - at,
{
    if !(0 <= at < tokens.len()) {
        Err((at, Expected::VariantOrCloseAngle))
    } else if tokens[at] == TokenView::Punct('>') {
        Ok((variants, at + 1))
    } else if tokens[at] is Ident {
        match read_path(tokens, at + 1, seq![tokens[at]->Ident_0]) {
            Err(e) => Err(e),
            Ok((path, end)) => {
                if end < tokens.len() && tokens[end] == TokenView::Punct(',') {
                    proof {
                        lemma_read_path_advances(tokens, at + 1, seq![tokens[at]->Ident_0]);
                    }
                    read_variants(tokens, end + 1, variants.push(path))
                } else if end < tokens.len() && tokens[end] == TokenView::Punct('>') {
                    Ok((variants.push(path), end + 1))
                } else {
                    Err((end, Expected::CommaOrCloseAngle))
                }
            },
        }
    } else {
        Err((at, Expected::VariantOrCloseAngle))
    }
}

/// Reads what follows the list of variants: nothing, or `=` and the string
/// literal of the message prefix, and then nothing.
pub open spec fn read_prefix(tokens: Seq<TokenView>, at: int) -> Result<
    Option<Seq<char>>,
    (int, Expected),
> {
    if !(0 <= at < tokens.len()) {
        Ok(None)
    } else if tokens[at] != TokenView::Punct('=') {
        Err((at, Expected::Equals))
    } else if !(at + 1 < tokens.len() && tokens[at + 1] is Str) {
        Err((at + 1, Expected::StringLiteral))
    } else if at + 2 < tokens.len() {
        Err((at + 2, Expected::End))
    } else {
        Ok(Some(tokens[at + 1]->Str_0))
    }
}

/// The declaration that `tokens` spell, or the first place where they spell
/// none, with what the grammar asks for there.
pub open spec fn parsed_node(tokens: Seq<TokenView>) -> Result<ErrorNodeView, (int, Expected)> {
    let is_pub = tokens.len() > 0 && tokens[0] == TokenView::Keyword("pub"@);
    let start: int = if is_pub {
        1
    } else {
        0
    };
    if !(start < tokens.len() && tokens[start] == TokenView::Keyword("type"@)) {
        Err((start, Expected::Type))
    } else if !(start + 1 < tokens.len() && tokens[start + 1] is Ident) {
        Err((start + 1, Expected::Identifier))
    } else if !(start + 2 < tokens.len() && tokens[start + 2] == TokenView::Punct('<')) {
        Err((start + 2, Expected::OpenAngle))
    } else {
        match read_variants(tokens, start + 3, Seq::empty()) {
            Err(e) => Err(e),
            Ok((variants, end)) => match read_prefix(tokens, end) {
                Err(e) => Err(e),
                Ok(message_prefix) => Ok(
                    ErrorNodeView {
                        is_pub,
                        node_name: tokens[start + 1]->Ident_0,
                        variants,
                        message_prefix,
                    },
                ),
            },
        }
    }
}

fn is_keyword(token: &Token, word: &str) -> (r: bool)
    ensures
        r == (token@ == TokenView::Keyword(word@)),
{
    match token {
        Token::Keyword(text) => *text == String::from_str(word),
        _ => false,
    }
}

fn is_punct(token: &Token, ch: char) -> (r: bool)
    ensures
        r == (token@ == TokenView::Punct(ch)),
{
    match token {
        Token::Punct(c) => *c == ch,
        _ => false,
    }
}

fn is_path_sep(token: &Token) -> (r: bool)
    ensures
        r == (token@ == TokenView::PathSep),
{
    match token {
        Token::PathSep => true,
        _ => false,
    }
}

/// Reads the rest of a type reference that starts with the segment `first`.
fn parse_path(tokens: &Vec<Token>, at: usize, first: String) -> (r: Result<
    (TypeRef, usize),
    SyntaxError,
>)
    requires
        at <= tokens.len(),
    ensures
        match r {
            Ok((path, end)) => {
                &&& read_path(tokens.deep_view(), at as int, seq![first@]) == Ok::<
                    (Seq<Seq<char>>, int),
                    (int, Expected),
                >((path.deep_view(), end as int))
                &&& at <= end <= tokens.len()
                &&& path.well_formed()
            },
            Err(e) => read_path(tokens.deep_view(), at as int, seq![first@]) == Err::<
                (Seq<Seq<char>>, int),
                (int, Expected),
            >((e.position as int, e.expected)),
        },
{
    let ghost all = tokens.deep_view();
    let ghost start = seq![first@];
    let mut segments: Vec<String> = Vec::new();
    segments.push(first);
    assert(segments.deep_view() =~= start);
    let mut i: usize = at;
    while i < tokens.len() && is_path_sep(&tokens[i])
        invariant
            at <= i <= tokens.len(),
            all == tokens.deep_view(),
            start == seq![first@],
            segments.len() >= 1,
            read_path(all, at as int, start) == read_path(all, i as int, segments.deep_view()),
        decreases tokens.len() - i,
    {
        let ghost before = segments.deep_view();
        if i + 1 < tokens.len() {
            match &tokens[i + 1] {
                Token::Ident(word) => {
                    segments.push(word.clone());
                    assert(segments.deep_view() =~= before.push(word@));
                    i = i + 2;
                },
                _ => {
                    return Err(SyntaxError { position: i + 1, expected: Expected::Identifier });
                },
            }
        } else {
            return Err(SyntaxError { position: i + 1, expected: Expected::Identifier });
        }
    }
    Ok((TypeRef { segments }, i))
}

/// Reads the list of variants, from the first token after the opening `<`.
fn parse_variants(tokens: &Vec<Token>, at: usize) -> (r: Result<(Vec<TypeRef>, usize), SyntaxError>)
    requires
        at <= tokens.len(),
    ensures
        match r {
            Ok((variants, end)) => {
                &&& read_variants(tokens.deep_view(), at as int, Seq::empty()) == Ok::<
                    (Seq<Seq<Seq<char>>>, int),
                    (int, Expected),
                >((variants.deep_view(), end as int))
                &&& end <= tokens.len()
                &&& forall|k: int| 0 <= k < variants.len() ==> (#[trigger] variants[k]).well_formed()
            },
            Err(e) => read_variants(tokens.deep_view(), at as int, Seq::empty()) == Err::<
                (Seq<Seq<Seq<char>>>, int),
                (int, Expected),
            >((e.position as int, e.expected)),
        },
{
    let ghost all = tokens.deep_view();
    let mut variants: Vec<TypeRef> = Vec::new();
    assert(variants.deep_view() =~= Seq::<Seq<Seq<char>>>::empty());
    let mut i: usize = at;
    loop
        invariant
            at <= i <= tokens.len(),
            all == tokens.deep_view(),
            forall|k: int| 0 <= k < variants.len() ==> (#[trigger] variants[k]).well_formed(),
            read_variants(all, at as int, Seq::empty()) == read_variants(
                all,
                i as int,
                variants.deep_view(),
            ),
        decreases tokens.len() - i,
    {
        if i >= tokens.len() {
            return Err(SyntaxError { position: i, expected: Expected::VariantOrCloseAngle });
        }
        if is_punct(&tokens[i], '>') {
            return Ok((variants, i + 1));
        }
        let first = match &tokens[i] {
            Token::Ident(word) => word.clone(),
            _ => {
                return Err(SyntaxError { position: i, expected: Expected::VariantOrCloseAngle });
            },
        };
        let ghost before = variants.deep_view();
        let (path, end) = match parse_path(tokens, i + 1, first) {
            Ok(found) => found,
            Err(e) => {
                return Err(e);
            },
        };
        let ghost path_view = path.deep_view();
        variants.push(path);
        assert(variants.deep_view() =~= before.push(path_view));
        if end < tokens.len() {
            if is_punct(&tokens[end], ',') {
                i = end + 1;
                continue ;
            }
            if is_punct(&tokens[end], '>') {
                return Ok((variants, end + 1));
            }
        }
        return Err(SyntaxError { position: end, expected: Expected::CommaOrCloseAngle });
    }
}

/// Reads what follows the list of variants.
fn parse_prefix(tokens: &Vec<Token>, at: usize) -> (r: Result<Option<String>, SyntaxError>)
    requires
        at <= tokens.len(),
    ensures
        match r {
            Ok(Some(prefix)) => read_prefix(tokens.deep_view(), at as int) == Ok::<
                Option<Seq<char>>,
                (int, Expected),
            >(Some(prefix@)),
            Ok(None) => read_prefix(tokens.deep_view(), at as int) == Ok::<
                Option<Seq<char>>,
                (int, Expected),
            >(None),
            Err(e) => read_prefix(tokens.deep_view(), at as int) == Err::<
                Option<Seq<char>>,
                (int, Expected),
            >((e.position as int, e.expected)),
        },
{
    if at >= tokens.len() {
        return Ok(None);
    }
    if !is_punct(&tokens[at], '=') {
        return Err(SyntaxError { position: at, expected: Expected::Equals });
    }
    if at + 1 >= tokens.len() {
        return Err(SyntaxError { position: at + 1, expected: Expected::StringLiteral });
    }
    let prefix = match &tokens[at + 1] {
        Token::Str(value) => value.clone(),
        _ => {
            return Err(SyntaxError { position: at + 1, expected: Expected::StringLiteral });
        },
    };
    if at + 2 < tokens.len() {
        return Err(SyntaxError { position: at + 2, expected: Expected::End });
    }
    Ok(Some(prefix))
}

impl ErrorNode {
    /// Parses a node declaration from its tokens.
    ///
    /// Succeeds exactly on the sequences that the grammar admits, with the
    /// declaration that they spell; otherwise tells the first token that
    /// cannot stand where it does and what the grammar asks for there.
    pub fn parse(tokens: &Vec<Token>) -> (r: Result<ErrorNode, SyntaxError>)
        ensures
            match r {
                Ok(node) => parsed_node(tokens.deep_view()) == Ok::<ErrorNodeView, (int, Expected)>(
                    node@,
                ) && node.well_formed(),
                Err(e) => parsed_node(tokens.deep_view()) == Err::<ErrorNodeView, (int, Expected)>(
                    (e.position as int, e.expected),
                ) && e.position <= tokens.len(),
            },
    {
        let ghost all = tokens.deep_view();
        let is_pub = tokens.len() > 0 && is_keyword(&tokens[0], "pub");
        let start: usize = if is_pub {
            1
        } else {
            0
        };
        if start >= tokens.len() {
            return Err(SyntaxError { position: start, expected: Expected::Type });
        }
        if !is_keyword(&tokens[start], "type") {
            return Err(SyntaxError { position: start, expected: Expected::Type });
        }
        if start + 1 >= tokens.len() {
            return Err(SyntaxError { position: start + 1, expected: Expected::Identifier });
        }
        let node_name = match &tokens[start + 1] {
            Token::Ident(word) => word.clone(),
            _ => {
                return Err(SyntaxError { position: start + 1, expected: Expected::Identifier });
            },
        };
        if start + 2 >= tokens.len() {
            return Err(SyntaxError { position: start + 2, expected: Expected::OpenAngle });
        }
        if !is_punct(&tokens[start + 2], '<') {
            return Err(SyntaxError { position: start + 2, expected: Expected::OpenAngle });
        }
        let (variants, end) = match parse_variants(tokens, start + 3) {
            Ok(found) => found,
            Err(e) => {
                proof {
                    lemma_read_variants_bounds(all, start + 3, Seq::empty());
                }
                return Err(e);
            },
        };
        let message_prefix = match parse_prefix(tokens, end) {
            Ok(prefix) => prefix,
            Err(e) => {
                return Err(e);
            },
        };
        let node = ErrorNode { is_pub, node_name, variants, message_prefix };
        assert forall|i: int| 0 <= i < node@.variants.len() implies (#[trigger] node@.variants[i]).len()
            >= 1 by {
        }
        Ok(node)
    }
}

/// The declaration that `text` spells.
pub open spec fn parsed_text(text: Seq<char>) -> Result<ErrorNodeView, ErrorView> {
    match tokens_in(text) {
        None => Err(ErrorView::Lex),
        Some(tokens) => match parsed_node(tokens) {
            Err((position, expected)) => Err(ErrorView::Syntax(position, expected)),
            Ok(node) => Ok(node),
        },
    }
}

impl ErrorNode {
    /// Parses a node declaration from its text.
    pub fn parse_str(text: &str) -> (r: Result<ErrorNode, Error>)
        ensures
            match r {
                Ok(node) => parsed_text(text@) == Ok::<ErrorNodeView, ErrorView>(node@)
                    && node.well_formed(),
                Err(e) => parsed_text(text@) == Err::<ErrorNodeView, ErrorView>(e@),
            },
    {
        let tokens = match read_tokens(text) {
            Some(tokens) => tokens,
            None => {
                return Err(Error::Lex);
            },
        };
        match ErrorNode::parse(&tokens) {
            Ok(node) => Ok(node),
            Err(e) => Err(Error::Syntax(e)),
        }
    }
}

/// The list of variants ends, or goes wrong, within the tokens.
pub proof fn lemma_read_variants_bounds(
    tokens: Seq<TokenView>,
    at: int,
    variants: Seq<Seq<Seq<char>>>,
)
    requires
        0 <= at <= tokens.len(),
    ensures
        match read_variants(tokens, at, variants) {
            Ok((_, end)) => at < end <= tokens.len(),
            Err((position, _)) => at <= position <= tokens.len(),
        },
    decreases tokens.len() - at,
{
    if at < tokens.len() && tokens[at] != TokenView::Punct('>') && tokens[at] is Ident {
        let first = seq![tokens[at]->Ident_0];
        lemma_read_path_advances(tokens, at + 1, first);
        match read_path(tokens, at + 1, first) {
            Err(e) => {},
            Ok((path, end)) => {
                if end < tokens.len() && tokens[end] == TokenView::Punct(',') {
                    lemma_read_variants_bounds(tokens, end + 1, variants.push(path));
                }
            },
        }
    }
}

} // verus!
