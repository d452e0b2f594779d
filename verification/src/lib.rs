//! Generator of error hierarchies.
//!
//! An error hierarchy is a tree. Its leaves are the errors that can occur: a
//! leaf is a struct with a message, and never has a cause. Its nodes are
//! errors whose cause is a leaf or another node: a node is a sum type with one
//! variant for each type of error that it can hold, and always has a cause.
//!
//! Two declarations build such a tree. [`error_leaf`] takes a message and a
//! struct; [`error_node`] takes a declaration such as
//! `type MyErrorNode<MyError, OtherError> = "my error node"`. Each gives the
//! items that implement the declaration, as text: for a leaf, its rendering
//! and an error impl without a cause; for a node, the sum type, a rendering
//! of the shape `<prefix>: <rendered cause>`, the cause accessor, and one
//! conversion constructor for each variant, so that a child error is lifted
//! into the node by `?`.
//!
//! Every expansion is a function of the declaration alone. A declaration that
//! is refused yields an [`error::Error`] and no items.
//!
//! The text is cut into tokens by proc-macro2, and syn tells identifiers,
//! string literals, macro calls and structs apart; what these two return is
//! taken on trust and named in the contracts ([`token::lexed`] and the like).
//! The grammar of a node, the model of a node and the text of every generated
//! item are this crate's own and are proved.

pub mod chars;
pub mod emit;
pub mod error;
pub mod format;
pub mod grammar;
pub mod leaf;
pub mod model;
pub mod rejection;
pub mod spelling;
pub mod tag;
pub mod token;

use crate::emit::{node_items, node_text, quote_string, string_literal};
use crate::error::{Error, ErrorView};
use crate::format::{leaf_format, leaf_format_string};
use crate::grammar::{parsed_text, ErrorNode};
use crate::leaf::{
    declared_struct_name, leaf_items, leaf_text, message_of, message_text, struct_name,
    MessageFormat,
};
use crate::model::{model_of, NodeModel};
use crate::token::{lex, lexed, render, rendered};
use vstd::prelude::*;
use vstd::string::*;

verus! {

/// What the declaration of a leaf expands to: `attr` is the message, `item`
/// the struct that the leaf is declared on.
pub open spec fn leaf_expansion(attr: Seq<char>, item: Seq<char>) -> Result<Seq<char>, ErrorView> {
    match message_of(attr) {
        Err(e) => Err(e),
        Ok(message) => match lexed(item) {
            None => Err(ErrorView::Lex),
            Some(lexemes) => match declared_struct_name(item) {
                None => Err(ErrorView::Item),
                Some(name) => Ok(
                    leaf_text(
                        name,
                        rendered(lexemes),
                        string_literal(leaf_format()),
                        message_text(message),
                    ),
                ),
            },
        },
    }
}

/// What the declaration of a node expands to.
pub open spec fn node_expansion(tokens: Seq<char>) -> Result<Seq<char>, ErrorView> {
    match parsed_text(tokens) {
        Err(e) => Err(e),
        Ok(node) => Ok(node_text(model_of(node))),
    }
}

/// Declares a struct as an error leaf: generates its rendering, which writes
/// the message, and its error impl, which has no cause.
///
/// `attr` is the message: a string literal, or a macro call such as
/// `format!("{} is wrong", self.field)` that is evaluated on the leaf each
/// time it is rendered. `item` is the struct; it is passed through as it is
/// declared.
pub fn error_leaf(attr: &str, item: &str) -> (r: Result<String, Error>)
    ensures
        match r {
            Ok(text) => leaf_expansion(attr@, item@) == Ok::<Seq<char>, ErrorView>(text@),
            Err(e) => leaf_expansion(attr@, item@) == Err::<Seq<char>, ErrorView>(e@),
        },
{
    let message = match MessageFormat::parse(attr) {
        Ok(message) => message,
        Err(e) => {
            return Err(e);
        },
    };
    let lexemes = match lex(item) {
        Some(lexemes) => lexemes,
        None => {
            return Err(Error::Lex);
        },
    };
    let name = match struct_name(item) {
        Some(name) => name,
        None => {
            return Err(Error::Item);
        },
    };
    let declared = render(&lexemes);
    let format_literal = quote_string(leaf_format_string().as_str());
    let shown = message.text();
    Ok(leaf_items(name.as_str(), declared.as_str(), format_literal.as_str(), shown.as_str()))
}

/// Declares an error node: generates its sum type, its rendering, its cause
/// accessor and one conversion constructor for each variant.
///
/// `tokens` is the declaration: `[pub] type Name<Variant, ...> [= "prefix"]`.
pub fn error_node(tokens: &str) -> (r: Result<String, Error>)
    ensures
        match r {
            Ok(text) => node_expansion(tokens@) == Ok::<Seq<char>, ErrorView>(text@),
            Err(e) => node_expansion(tokens@) == Err::<Seq<char>, ErrorView>(e@),
        },
{
    let input = match ErrorNode::parse_str(tokens) {
        Ok(input) => input,
        Err(e) => {
            return Err(e);
        },
    };
    let model = NodeModel::new(input);
    Ok(node_items(&model))
}

} // verus!
