//! Leaves: the message of a leaf, and the items that are generated for one.

use crate::emit::{display_impl, display_text, quote_string, string_literal};
use crate::error::{Error, ErrorView};
use crate::token::{
    lex, lexed, render, rendered, tokenize, tokens_of, Lexeme, LexemeView, Token, TokenView,
};
use vstd::prelude::*;
use vstd::string::*;

verus! {

/// The message of a leaf.
#[derive(Clone, Debug, PartialEq, Eq)]
pub enum MessageFormat {
    /// A literal message: the string itself.
    Lit(String),
    /// A templated message: a macro call that is evaluated on the leaf each
    /// time it is rendered, and so may speak of `self`.
    Format(String),
}

/// The mathematical value of a [`MessageFormat`].
pub enum MessageFormatView {
    Lit(Seq<char>),
    Format(Seq<char>),
}

impl View for MessageFormat {
    type V = MessageFormatView;

    open spec fn view(&self) -> MessageFormatView {
        match self {
            MessageFormat::Lit(value) => MessageFormatView::Lit(value@),
            MessageFormat::Format(call) => MessageFormatView::Format(call@),
        }
    }
}

/// Whether syn reads `text` as a macro call: a path, `!`, and one bracketed
/// group.
pub uninterp spec fn accepted_macro_call(text: Seq<char>) -> bool;

/// The name of the struct that syn reads in `item`, and `None` where it reads
/// no struct there.
pub uninterp spec fn declared_struct_name(item: Seq<char>) -> Option<Seq<char>>;

/// `syn::parse_str::<syn::Macro>`: whether syn reads the whole of `text` as
/// one macro call.
#[verifier::external_body]
pub(crate) fn is_macro_call(text: &str) -> (accepted: bool)
    ensures
        accepted == accepted_macro_call(text@),
{
    syn::parse_str::<syn::Macro>(text).is_ok()
}

/// `syn::parse_str::<syn::ItemStruct>`, then the `to_string` of the struct's
/// `ident`: the name of the struct, where syn reads the whole of `item` as one
/// struct.
#[verifier::external_body]
pub(crate) fn struct_name(item: &str) -> (name: Option<String>)
    ensures
        name is Some <==> declared_struct_name(item@) is Some,
        name matches Some(n) ==> declared_struct_name(item@) == Some(n@),
{
    syn::parse_str::<syn::ItemStruct>(item).ok().map(|found| found.ident.to_string())
}

/// The message that a payload stands for, given its tokens, its lexemes and
/// whether it is a macro call: one string literal alone is a literal message,
/// a macro call is a templated message, anything else is refused.
pub open spec fn resolved(tokens: Seq<TokenView>, lexemes: Seq<LexemeView>, is_call: bool) -> Result<
    MessageFormatView,
    ErrorView,
> {
    if tokens.len() == 1 && tokens[0] is Str {
        Ok(MessageFormatView::Lit(tokens[0]->Str_0))
    } else if is_call {
        Ok(MessageFormatView::Format(rendered(lexemes)))
    } else {
        Err(ErrorView::Message)
    }
}

/// The message that the payload `text` stands for.
pub open spec fn message_of(text: Seq<char>) -> Result<MessageFormatView, ErrorView> {
    match lexed(text) {
        None => Err(ErrorView::Lex),
        Some(lexemes) => resolved(tokens_of(lexemes), lexemes, accepted_macro_call(text)),
    }
}

/// The message as it stands in the rendering: a literal message as a string
/// literal, a templated message as the macro call itself.
pub open spec fn message_text(message: MessageFormatView) -> Seq<char> {
    match message {
        MessageFormatView::Lit(value) => string_literal(value),
        MessageFormatView::Format(call) => call,
    }
}

/// The error impl of the leaf `name`. It has no cause accessor, so a leaf never
/// has a cause.
pub open spec fn terminal_text(name: Seq<char>) -> Seq<char> {
    "impl std::error::Error for "@ + name + " {}\n"@
}

/// All that is generated for the leaf `name`: the struct `item` as declared,
/// made printable for debugging; a rendering that writes `message` with the
/// format string that `format_literal` denotes; and the error impl.
pub open spec fn leaf_text(
    name: Seq<char>,
    item: Seq<char>,
    format_literal: Seq<char>,
    message: Seq<char>,
) -> Seq<char> {
    "#[derive(Debug)]\n"@ + item + "\n"@ + display_text(name, format_literal, message)
        + terminal_text(name)
}

impl MessageFormat {
    /// Selects the form of a message from what is known of its payload: its
    /// tokens, its lexemes, and whether it is a macro call.
    pub fn resolve(tokens: &Vec<Token>, lexemes: &Vec<Lexeme>, is_call: bool) -> (r: Result<
        MessageFormat,
        Error,
    >)
        ensures
            match r {
                Ok(message) => resolved(tokens.deep_view(), lexemes.deep_view(), is_call) == Ok::<
                    MessageFormatView,
                    ErrorView,
                >(message@),
                Err(e) => resolved(tokens.deep_view(), lexemes.deep_view(), is_call) == Err::<
                    MessageFormatView,
                    ErrorView,
                >(e@),
            },
    {
        if tokens.len() == 1 {
            match &tokens[0] {
                Token::Str(value) => {
                    return Ok(MessageFormat::Lit(value.clone()));
                },
                _ => {},
            }
        }
        if is_call {
            Ok(MessageFormat::Format(render(lexemes)))
        } else {
            Err(Error::Message)
        }
    }

    /// Reads the message of a leaf from its payload: a string literal, or
    /// else a macro call; anything else is refused.
    pub fn parse(text: &str) -> (r: Result<MessageFormat, Error>)
        ensures
            match r {
                Ok(message) => message_of(text@) == Ok::<MessageFormatView, ErrorView>(message@),
                Err(e) => message_of(text@) == Err::<MessageFormatView, ErrorView>(e@),
            },
    {
        let lexemes = match lex(text) {
            Some(lexemes) => lexemes,
            None => {
                return Err(Error::Lex);
            },
        };
        let tokens = tokenize(&lexemes);
        let is_call = is_macro_call(text);
        MessageFormat::resolve(&tokens, &lexemes, is_call)
    }

    /// Writes the message as it stands in the rendering.
    pub fn text(&self) -> (text: String)
        ensures
            text@ == message_text(self@),
    {
        match self {
            MessageFormat::Lit(value) => quote_string(value.as_str()),
            MessageFormat::Format(call) => call.clone(),
        }
    }
}

/// Writes all that is generated for the leaf `name`, declared by `item`: its
/// rendering writes `message` with the format string that `format_literal`
/// denotes.
pub fn leaf_items(name: &str, item: &str, format_literal: &str, message: &str) -> (text: String)
    ensures
        text@ == leaf_text(name@, item@, format_literal@, message@),
{
    let mut text = String::from_str("#[derive(Debug)]\n");
    text.append(item);
    text.append("\n");
    let display = display_impl(name, format_literal, message);
    text.append(display.as_str());
    text.append("impl std::error::Error for ");
    text.append(name);
    text.append(" {}\n");
    text
}

} // verus!
