//! The errors of the lexer, and the messages they are shown with.

use vstd::prelude::*;
use crate::span::Span;
use vstd::string::StringExecFns;

verus! {

pub type SyntaxResult<T> = Result<T, SyntaxError>;

/// What the lexer reports, each with the span of the place it is about.
#[derive(Debug, PartialEq, Eq, Clone, Copy, Hash, Structural)]
pub enum SyntaxError {
    UnexpectedEndOfFile(Span),
    UnexpectedError(Span),
    UnexpectedCharacter(u8, Span),
    InvalidHaltCompiler(Span),
    InvalidOctalEscape(Span),
    InvalidOctalLiteral(Span),
    InvalidUnicodeEscape(Span),
    UnpredictableState(Span),
    InvalidDocIndentation(Span),
    InvalidDocBodyIndentationLevel(usize, Span),
    UnrecognisedToken(u8, Span),
}

/// The character that writes the digit `d`.
pub open spec fn digit(d: nat) -> char {
    if d == 0 {
        '0'
    } else if d == 1 {
        '1'
    } else if d == 2 {
        '2'
    } else if d == 3 {
        '3'
    } else if d == 4 {
        '4'
    } else if d == 5 {
        '5'
    } else if d == 6 {
        '6'
    } else if d == 7 {
        '7'
    } else if d == 8 {
        '8'
    } else {
        '9'
    }
}

/// The number in decimal, without leading zeros.
pub open spec fn decimal(n: nat) -> Seq<char>
    decreases n,
{
    if n < 10 {
        seq![digit(n)]
    } else {
        decimal(n / 10) + seq![digit(n % 10)]
    }
}

/// What `<char as core::fmt::Debug>::fmt` writes for the character with the
/// given code: the character between single quotes, escaped where it cannot
/// be shown as it is.
pub uninterp spec fn quoted(byte: u8) -> Seq<char>;

/// ` on line L column C`, for the place where the span starts.
pub open spec fn place(span: Span) -> Seq<char> {
    " on line "@ + decimal(span.start.line as nat) + " column "@ + decimal(
        span.start.column as nat,
    )
}

impl SyntaxError {
    /// The span that the error is about.
    pub open spec fn spec_span(self) -> Span {
        match self {
            SyntaxError::UnexpectedEndOfFile(span) => span,
            SyntaxError::UnexpectedError(span) => span,
            SyntaxError::UnexpectedCharacter(_, span) => span,
            SyntaxError::InvalidHaltCompiler(span) => span,
            SyntaxError::InvalidOctalEscape(span) => span,
            SyntaxError::InvalidOctalLiteral(span) => span,
            SyntaxError::InvalidUnicodeEscape(span) => span,
            SyntaxError::UnpredictableState(span) => span,
            SyntaxError::InvalidDocIndentation(span) => span,
            SyntaxError::InvalidDocBodyIndentationLevel(_, span) => span,
            SyntaxError::UnrecognisedToken(_, span) => span,
        }
    }

    /// The message of the error, with the line and the column where its
    /// span starts (both count from 1).
    pub open spec fn text(self) -> Seq<char> {
        match self {
            SyntaxError::UnexpectedEndOfFile(span) => "Syntax Error: unexpected end of file"@
                + place(span),
            SyntaxError::UnexpectedError(span) => "Syntax Error: unexpected error"@ + place(span),
            SyntaxError::UnexpectedCharacter(byte, span) => "Syntax Error: unexpected character `"@
                + quoted(byte) + "`"@ + place(span),
            SyntaxError::InvalidHaltCompiler(span) => "Syntax Error: invalid halt compiler"@
                + place(span),
            SyntaxError::InvalidOctalEscape(span) => "Syntax Error: invalid octal escape"@ + place(
                span,
            ),
            SyntaxError::InvalidOctalLiteral(span) => "Syntax Error: invalid octal literal"@
                + place(span),
            SyntaxError::InvalidUnicodeEscape(span) => "Syntax Error: invalid unicode escape"@
                + place(span),
            SyntaxError::UnpredictableState(span) => "Syntax Error: Reached an unpredictable state"@
                + place(span),
            SyntaxError::InvalidDocIndentation(span) => "Syntax Error: Invalid indentation - cannot use tabs and spaces"@
                + place(span),
            SyntaxError::InvalidDocBodyIndentationLevel(expected, span) => "Syntax Error: Invalid body indentation level - expecting an indentation level of at least "@
                + decimal(expected as nat) + place(span),
            SyntaxError::UnrecognisedToken(token, span) => "Syntax Error: Unrecognised token "@
                + decimal(token as nat) + place(span),
        }
    }

    /// The span that the error is about.
    pub fn span(&self) -> (r: Span)
        ensures
            r == self.spec_span(),
    {
        match self {
            SyntaxError::UnexpectedEndOfFile(span) => *span,
            SyntaxError::UnexpectedError(span) => *span,
            SyntaxError::UnexpectedCharacter(_, span) => *span,
            SyntaxError::InvalidHaltCompiler(span) => *span,
            SyntaxError::InvalidOctalEscape(span) => *span,
            SyntaxError::InvalidOctalLiteral(span) => *span,
            SyntaxError::InvalidUnicodeEscape(span) => *span,
            SyntaxError::UnpredictableState(span) => *span,
            SyntaxError::InvalidDocIndentation(span) => *span,
            SyntaxError::InvalidDocBodyIndentationLevel(_, span) => *span,
            SyntaxError::UnrecognisedToken(_, span) => *span,
        }
    }

    /// The message of the error.
    pub fn message(&self) -> (r: String)
        ensures
            r@ == self.text(),
    {
        match self {
            SyntaxError::UnexpectedEndOfFile(span) => with_place(
                "Syntax Error: unexpected end of file",
                *span,
            ),
            SyntaxError::UnexpectedError(span) => with_place(
                "Syntax Error: unexpected error",
                *span,
            ),
            SyntaxError::UnexpectedCharacter(byte, span) => {
                let mut message = String::from_str("Syntax Error: unexpected character `");
                let shown = debug_char(*byte);
                message.append(shown.as_str());
                message.append("`");
                append_place(&mut message, *span);
                message
            },
            SyntaxError::InvalidHaltCompiler(span) => with_place(
                "Syntax Error: invalid halt compiler",
                *span,
            ),
            SyntaxError::InvalidOctalEscape(span) => with_place(
                "Syntax Error: invalid octal escape",
                *span,
            ),
            SyntaxError::InvalidOctalLiteral(span) => with_place(
                "Syntax Error: invalid octal literal",
                *span,
            ),
            SyntaxError::InvalidUnicodeEscape(span) => with_place(
                "Syntax Error: invalid unicode escape",
                *span,
            ),
            SyntaxError::UnpredictableState(span) => with_place(
                "Syntax Error: Reached an unpredictable state",
                *span,
            ),
            SyntaxError::InvalidDocIndentation(span) => with_place(
                "Syntax Error: Invalid indentation - cannot use tabs and spaces",
                *span,
            ),
            SyntaxError::InvalidDocBodyIndentationLevel(expected, span) => {
                let mut message = String::from_str(
                    "Syntax Error: Invalid body indentation level - expecting an indentation level of at least ",
                );
                let number = decimal_string(*expected);
                message.append(number.as_str());
                append_place(&mut message, *span);
                message
            },
            SyntaxError::UnrecognisedToken(token, span) => {
                let mut message = String::from_str("Syntax Error: Unrecognised token ");
                let number = decimal_string(*token as usize);
                message.append(number.as_str());
                append_place(&mut message, *span);
                message
            },
        }
    }
}

/// Calls `format!` with `{:?}`, that is `<char as core::fmt::Debug>::fmt`,
/// on the character with the given code. Not proved, but taken on trust:
/// that the text it hands back is a function of the code alone, the one
/// that `quoted` names.
#[verifier::external_body]
fn debug_char(byte: u8) -> (r: String)
    ensures
        r@ == quoted(byte),
{
    format!("{:?}", byte as char)
}

/// The digit `d`, written.
fn digit_str(d: usize) -> (r: &'static str)
    requires
        d < 10,
    ensures
        r@ == seq![digit(d as nat)],
{
    proof {
        reveal_strlit("0");
        reveal_strlit("1");
        reveal_strlit("2");
        reveal_strlit("3");
        reveal_strlit("4");
        reveal_strlit("5");
        reveal_strlit("6");
        reveal_strlit("7");
        reveal_strlit("8");
        reveal_strlit("9");
    }
    let r = if d == 0 {
        "0"
    } else if d == 1 {
        "1"
    } else if d == 2 {
        "2"
    } else if d == 3 {
        "3"
    } else if d == 4 {
        "4"
    } else if d == 5 {
        "5"
    } else if d == 6 {
        "6"
    } else if d == 7 {
        "7"
    } else if d == 8 {
        "8"
    } else {
        "9"
    };
    assert(r@ =~= seq![digit(d as nat)]);
    r
}

/// The number in decimal.
pub fn decimal_string(n: usize) -> (r: String)
    ensures
        r@ == decimal(n as nat),
    decreases n,
{
    if n < 10 {
        String::from_str(digit_str(n))
    } else {
        let mut r = decimal_string(n / 10);
        r.append(digit_str(n % 10));
        r
    }
}

/// Appends the line and column where the span starts.
fn append_place(message: &mut String, span: Span)
    ensures
        final(message)@ == old(message)@ + place(span),
{
    let line = decimal_string(span.start.line);
    let column = decimal_string(span.start.column);
    message.append(" on line ");
    message.append(line.as_str());
    message.append(" column ");
    message.append(column.as_str());
    assert(message@ =~= old(message)@ + place(span));
}

/// The text, and the line and column where the span starts.
fn with_place(text: &str, span: Span) -> (r: String)
    ensures
        r@ == text@ + place(span),
{
    let mut message = String::from_str(text);
    append_place(&mut message, span);
    message
}

} // verus!
