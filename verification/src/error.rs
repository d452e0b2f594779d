//! Why a declaration is refused.

use crate::grammar::{Expected, SyntaxError};
use crate::tag::{decimal, decimal_string};
use vstd::prelude::*;
use vstd::string::*;

verus! {

/// Why a declaration is refused. Nothing is generated for a declaration that
/// is refused, and nothing else is affected.
#[derive(Clone, Copy, Debug, PartialEq, Eq, Structural)]
pub enum Error {
    /// The text cannot be cut into tokens.
    Lex,
    /// The tokens are no node declaration.
    Syntax(SyntaxError),
    /// The message of a leaf is neither a string literal nor a macro call.
    Message,
    /// What a leaf is declared on is no struct.
    Item,
}

/// The mathematical value of an [`Error`].
pub enum ErrorView {
    Lex,
    Syntax(int, Expected),
    Message,
    Item,
}

impl View for Error {
    type V = ErrorView;

    open spec fn view(&self) -> ErrorView {
        match self {
            Error::Lex => ErrorView::Lex,
            Error::Syntax(e) => ErrorView::Syntax(e.position as int, e.expected),
            Error::Message => ErrorView::Message,
            Error::Item => ErrorView::Item,
        }
    }
}

/// What the grammar asks for, in words.
pub open spec fn expected_text(expected: Expected) -> Seq<char> {
    match expected {
        Expected::Type => "expected `type`"@,
        Expected::Identifier => "expected identifier"@,
        Expected::OpenAngle => "expected `<`"@,
        Expected::VariantOrCloseAngle => "expected identifier or `>`"@,
        Expected::CommaOrCloseAngle => "expected `,` or `>`"@,
        Expected::Equals => "expected `=`"@,
        Expected::StringLiteral => "expected string literal"@,
        Expected::End => "unexpected token"@,
    }
}

/// The diagnostic of an error, in words.
pub open spec fn error_text(error: ErrorView) -> Seq<char> {
    match error {
        ErrorView::Lex => "cannot parse string into token stream"@,
        ErrorView::Syntax(_, expected) => expected_text(expected),
        ErrorView::Message => "expected string literal or macro call"@,
        ErrorView::Item => "expected struct"@,
    }
}

/// The diagnostic of an error with the place where it arises: for a
/// declaration that breaks the grammar, the index of the offending token.
pub open spec fn diagnostic_text(error: ErrorView) -> Seq<char> {
    match error {
        ErrorView::Syntax(position, expected) => expected_text(expected) + " at token "@ + decimal(
            position as nat,
        ),
        _ => error_text(error),
    }
}

impl Expected {
    /// What the grammar asks for, in words.
    pub fn message(&self) -> (text: &'static str)
        ensures
            text@ == expected_text(*self),
    {
        match self {
            Expected::Type => "expected `type`",
            Expected::Identifier => "expected identifier",
            Expected::OpenAngle => "expected `<`",
            Expected::VariantOrCloseAngle => "expected identifier or `>`",
            Expected::CommaOrCloseAngle => "expected `,` or `>`",
            Expected::Equals => "expected `=`",
            Expected::StringLiteral => "expected string literal",
            Expected::End => "unexpected token",
        }
    }
}

impl Error {
    /// The diagnostic of this error, in words.
    pub fn message(&self) -> (text: &'static str)
        ensures
            text@ == error_text(self@),
    {
        match self {
            Error::Lex => "cannot parse string into token stream",
            Error::Syntax(e) => e.expected.message(),
            Error::Message => "expected string literal or macro call",
            Error::Item => "expected struct",
        }
    }

    /// The diagnostic of this error with the place where it arises.
    pub fn diagnostic(&self) -> (text: String)
        ensures
            text@ == diagnostic_text(self@),
    {
        let mut text = String::from_str(self.message());
        match self {
            Error::Syntax(e) => {
                let position = decimal_string(e.position);
                text.append(" at token ");
                text.append(position.as_str());
            },
            _ => {},
        }
        text
    }
}

} // verus!
