use pxp_parser::bytestring::ByteString;
use pxp_parser::lexer::error::decimal_string;
use pxp_parser::lexer::error::SyntaxError;
use pxp_parser::parser::error::Expectation;
use pxp_parser::parser::error::ParseError;
use pxp_parser::span::Position;
use pxp_parser::span::Span;
use pxp_parser::token::TokenKind;

fn at(line: usize, column: usize) -> Span {
    Span::new(Position::new(line, column, 40), Position::new(line, column + 1, 41))
}

#[test]
fn unexpected_end_of_file_names_line_and_column() {
    let error = SyntaxError::UnexpectedEndOfFile(at(3, 14));
    assert_eq!(error.message(), "Syntax Error: unexpected end of file on line 3 column 14");
    assert_eq!(error.span(), at(3, 14));
}

#[test]
fn unexpected_error_names_line_and_column() {
    let error = SyntaxError::UnexpectedError(at(1, 1));
    assert_eq!(error.message(), "Syntax Error: unexpected error on line 1 column 1");
    assert_eq!(error.span(), at(1, 1));
}

#[test]
fn unexpected_character_shows_the_character_quoted() {
    let error = SyntaxError::UnexpectedCharacter(b'a', at(1, 2));
    assert_eq!(error.message(), "Syntax Error: unexpected character `'a'` on line 1 column 2");
    assert_eq!(error.span(), at(1, 2));
}

#[test]
fn unexpected_character_escapes_what_cannot_be_shown() {
    assert_eq!(
        SyntaxError::UnexpectedCharacter(b'\n', at(7, 9)).message(),
        "Syntax Error: unexpected character `'\\n'` on line 7 column 9"
    );
    assert_eq!(
        SyntaxError::UnexpectedCharacter(b'\'', at(7, 9)).message(),
        "Syntax Error: unexpected character `'\\''` on line 7 column 9"
    );
    assert_eq!(
        SyntaxError::UnexpectedCharacter(0, at(7, 9)).message(),
        "Syntax Error: unexpected character `'\\0'` on line 7 column 9"
    );
    assert_eq!(
        SyntaxError::UnexpectedCharacter(1, at(7, 9)).message(),
        "Syntax Error: unexpected character `'\\u{1}'` on line 7 column 9"
    );
    assert_eq!(
        SyntaxError::UnexpectedCharacter(0xe9, at(7, 9)).message(),
        "Syntax Error: unexpected character `'\u{e9}'` on line 7 column 9"
    );
}

#[test]
fn invalid_halt_compiler_names_line_and_column() {
    let error = SyntaxError::InvalidHaltCompiler(at(12, 5));
    assert_eq!(error.message(), "Syntax Error: invalid halt compiler on line 12 column 5");
    assert_eq!(error.span(), at(12, 5));
}

#[test]
fn invalid_octal_escape_names_line_and_column() {
    let error = SyntaxError::InvalidOctalEscape(at(2, 30));
    assert_eq!(error.message(), "Syntax Error: invalid octal escape on line 2 column 30");
    assert_eq!(error.span(), at(2, 30));
}

#[test]
fn invalid_octal_literal_names_line_and_column() {
    let error = SyntaxError::InvalidOctalLiteral(at(100, 1));
    assert_eq!(error.message(), "Syntax Error: invalid octal literal on line 100 column 1");
    assert_eq!(error.span(), at(100, 1));
}

#[test]
fn invalid_unicode_escape_names_line_and_column() {
    let error = SyntaxError::InvalidUnicodeEscape(at(9, 99));
    assert_eq!(error.message(), "Syntax Error: invalid unicode escape on line 9 column 99");
    assert_eq!(error.span(), at(9, 99));
}

#[test]
fn unpredictable_state_names_line_and_column() {
    let error = SyntaxError::UnpredictableState(at(5, 6));
    assert_eq!(
        error.message(),
        "Syntax Error: Reached an unpredictable state on line 5 column 6"
    );
    assert_eq!(error.span(), at(5, 6));
}

#[test]
fn invalid_doc_indentation_names_line_and_column() {
    let error = SyntaxError::InvalidDocIndentation(at(8, 3));
    assert_eq!(
        error.message(),
        "Syntax Error: Invalid indentation - cannot use tabs and spaces on line 8 column 3"
    );
    assert_eq!(error.span(), at(8, 3));
}

#[test]
fn invalid_doc_body_indentation_level_names_the_level_expected() {
    let error = SyntaxError::InvalidDocBodyIndentationLevel(4, at(21, 3));
    assert_eq!(
        error.message(),
        "Syntax Error: Invalid body indentation level - expecting an indentation level of at least 4 on line 21 column 3"
    );
    assert_eq!(error.span(), at(21, 3));
}

#[test]
fn unrecognised_token_shows_the_byte_as_a_number() {
    let error = SyntaxError::UnrecognisedToken(64, at(1, 10));
    assert_eq!(error.message(), "Syntax Error: Unrecognised token 64 on line 1 column 10");
    assert_eq!(error.span(), at(1, 10));
    assert_eq!(
        SyntaxError::UnrecognisedToken(255, at(1, 10)).message(),
        "Syntax Error: Unrecognised token 255 on line 1 column 10"
    );
}

#[test]
fn numbers_are_written_in_decimal() {
    assert_eq!(decimal_string(0), "0");
    assert_eq!(decimal_string(7), "7");
    assert_eq!(decimal_string(10), "10");
    assert_eq!(decimal_string(1234567890), "1234567890");
    assert_eq!(decimal_string(usize::MAX), usize::MAX.to_string());
}

#[test]
fn every_parse_error_hands_out_its_span() {
    let span = at(4, 4);
    let errors = [
        ParseError::UnexpectedToken {
            expected: Expectation::AsOrInsteadof,
            found: TokenKind::Comma,
            span,
        },
        ParseError::DuplicateModifier { modifier: TokenKind::Static, span },
        ParseError::MultipleVisibilityModifiers { span },
        ParseError::ModifierNotAllowed { modifier: TokenKind::Readonly, span },
        ParseError::ConflictingModifiers {
            modifier: TokenKind::Abstract,
            other: TokenKind::Final,
            span,
        },
    ];
    for error in errors {
        assert_eq!(error.span(), span);
    }
}

#[test]
fn byte_strings_compare_by_their_bytes() {
    let first = ByteString::new(vec![0xff, 0x00, b'a']);
    let second = first.clone();
    assert_eq!(first, second);
    assert!(first.equals(&second));
    assert_eq!(second.len(), 3);
    assert!(!first.equals(&ByteString::new(vec![0xff, 0x00, b'b'])));
    assert!(!first.equals(&ByteString::new(vec![0xff, 0x00])));
    assert!(ByteString::new(vec![]).equals(&ByteString::new(vec![])));
    assert_eq!(ByteString::new(vec![]).len(), 0);
}
