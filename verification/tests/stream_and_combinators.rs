use pxp_parser::ast::attributes::AttributeGroup;
use pxp_parser::ast::expressions::Expression;
use pxp_parser::ast::expressions::ParenthesizedExpression;
use pxp_parser::ast::identifiers::IdentifierForm;
use pxp_parser::ast::identifiers::SimpleIdentifier;
use pxp_parser::ast::literals::Literal;
use pxp_parser::ast::literals::LiteralFloat;
use pxp_parser::ast::literals::LiteralInteger;
use pxp_parser::ast::literals::LiteralString;
use pxp_parser::ast::statements::Ending;
use pxp_parser::ast::utils::CommaSeparated;
use pxp_parser::ast::variables::BracedVariableVariable;
use pxp_parser::ast::variables::SimpleVariable;
use pxp_parser::ast::variables::Variable;
use pxp_parser::bytestring::ByteString;
use pxp_parser::parser::attributes::gather_attributes;
use pxp_parser::parser::error::Expectation;
use pxp_parser::parser::error::ParseError;
use pxp_parser::parser::expressions::create;
use pxp_parser::parser::identifiers::full_type_name;
use pxp_parser::parser::identifiers::identifier;
use pxp_parser::parser::identifiers::name;
use pxp_parser::parser::state::State;
use pxp_parser::parser::utils::comma_separated_no_trailing;
use pxp_parser::parser::utils::parenthesized;
use pxp_parser::parser::utils::semicolon_terminated;
use pxp_parser::parser::utils::skip;
use pxp_parser::parser::utils::skip_colon;
use pxp_parser::parser::utils::skip_ending;
use pxp_parser::parser::utils::skip_left_brace;
use pxp_parser::parser::utils::skip_left_parenthesis;
use pxp_parser::parser::utils::skip_right_brace;
use pxp_parser::parser::utils::skip_right_parenthesis;
use pxp_parser::parser::utils::skip_semicolon;
use pxp_parser::parser::variables::dynamic_variable;
use pxp_parser::parser::variables::simple_variable;
use pxp_parser::span::Position;
use pxp_parser::span::Span;
use pxp_parser::token::Token;
use pxp_parser::token::TokenKind;

fn span_at(offset: usize, len: usize) -> Span {
    Span::new(Position::new(1, offset + 1, offset), Position::new(1, offset + len + 1, offset + len))
}

fn text(value: &str) -> ByteString {
    ByteString::new(value.as_bytes().to_vec())
}

/// Lays the lexemes out on one line, one space apart, and closes the
/// stream with the sentinel.
fn tokens_of(lexemes: &[(TokenKind, &str)]) -> Vec<Token> {
    let mut tokens = Vec::new();
    let mut offset = 0;
    for (kind, lexeme) in lexemes {
        tokens.push(Token::new(*kind, span_at(offset, lexeme.len()), text(lexeme)));
        offset += lexeme.len() + 1;
    }
    tokens.push(Token::new(TokenKind::Eof, span_at(offset, 0), text("")));
    tokens
}

fn state_of(lexemes: &[(TokenKind, &str)]) -> State {
    State::new(tokens_of(lexemes))
}

fn simple(name: &str, offset: usize) -> Expression {
    Expression::Variable(Variable::SimpleVariable(SimpleVariable {
        span: span_at(offset, name.len()),
        name: text(name),
    }))
}

fn unexpected(expected: Expectation, found: TokenKind, offset: usize, len: usize) -> ParseError {
    ParseError::UnexpectedToken { expected, found, span: span_at(offset, len) }
}

#[test]
fn cursor_reads_without_moving_and_moves_only_by_next() {
    let mut state = state_of(&[(TokenKind::Do, "do"), (TokenKind::SemiColon, ";")]);
    assert_eq!(state.cursor, 0);
    assert_eq!(state.current().kind, TokenKind::Do);
    assert_eq!(state.peek().kind, TokenKind::SemiColon);
    assert_eq!(state.current().kind, TokenKind::Do);
    assert_eq!(state.cursor, 0);
    assert!(!state.is_eof());
    state.next();
    assert_eq!(state.cursor, 1);
    assert_eq!(state.current().kind, TokenKind::SemiColon);
    assert_eq!(state.peek().kind, TokenKind::Eof);
}

#[test]
fn cursor_stays_on_the_sentinel_at_the_end() {
    let mut state = state_of(&[(TokenKind::SemiColon, ";")]);
    state.next();
    assert!(state.is_eof());
    assert_eq!(state.current().kind, TokenKind::Eof);
    assert_eq!(state.peek().kind, TokenKind::Eof);
    state.next();
    state.next();
    state.next();
    assert_eq!(state.cursor, 2);
    assert!(state.is_eof());
    assert_eq!(state.current().kind, TokenKind::Eof);
    assert_eq!(state.current().span, span_at(2, 0));
}

#[test]
fn attribute_groups_wait_until_they_are_taken() {
    let mut state = state_of(&[]);
    assert!(state.attributes.is_empty());
    let group = AttributeGroup {
        start: span_at(0, 2),
        members: CommaSeparated { inner: vec![], commas: vec![] },
        end: span_at(3, 1),
    };
    let same = AttributeGroup {
        start: span_at(0, 2),
        members: CommaSeparated { inner: vec![], commas: vec![] },
        end: span_at(3, 1),
    };
    state.attribute(group);
    assert_eq!(state.attributes.len(), 1);
    let taken = state.get_attributes();
    assert_eq!(taken, vec![same]);
    assert!(state.attributes.is_empty());
    assert!(state.get_attributes().is_empty());
}

#[test]
fn skip_takes_the_token_of_the_kind_asked_for() {
    let mut state = state_of(&[(TokenKind::Foreach, "foreach"), (TokenKind::LeftParen, "(")]);
    assert_eq!(skip(&mut state, TokenKind::Foreach), Ok(span_at(0, 7)));
    assert_eq!(state.cursor, 1);
}

#[test]
fn skip_reports_a_token_of_another_kind_and_stays() {
    let mut state = state_of(&[(TokenKind::Foreach, "foreach")]);
    assert_eq!(
        skip(&mut state, TokenKind::While),
        Err(unexpected(Expectation::Token(TokenKind::While), TokenKind::Foreach, 0, 7))
    );
    assert_eq!(state.cursor, 0);
}

#[test]
fn skip_reports_the_end_of_the_stream() {
    let mut state = state_of(&[]);
    assert_eq!(
        skip_semicolon(&mut state),
        Err(unexpected(Expectation::Token(TokenKind::SemiColon), TokenKind::Eof, 0, 0))
    );
}

#[test]
fn skips_of_one_kind_each() {
    let mut state = state_of(&[
        (TokenKind::SemiColon, ";"),
        (TokenKind::LeftBrace, "{"),
        (TokenKind::RightBrace, "}"),
        (TokenKind::LeftParen, "("),
        (TokenKind::RightParen, ")"),
        (TokenKind::Colon, ":"),
    ]);
    assert_eq!(skip_semicolon(&mut state), Ok(span_at(0, 1)));
    assert_eq!(skip_left_brace(&mut state), Ok(span_at(2, 1)));
    assert_eq!(skip_right_brace(&mut state), Ok(span_at(4, 1)));
    assert_eq!(skip_left_parenthesis(&mut state), Ok(span_at(6, 1)));
    assert_eq!(skip_right_parenthesis(&mut state), Ok(span_at(8, 1)));
    assert_eq!(skip_colon(&mut state), Ok(span_at(10, 1)));
    assert!(state.is_eof());
    assert_eq!(
        skip_colon(&mut state),
        Err(unexpected(Expectation::Token(TokenKind::Colon), TokenKind::Eof, 12, 0))
    );
}

#[test]
fn ending_is_a_semicolon_or_a_close_tag() {
    let mut state = state_of(&[(TokenKind::SemiColon, ";"), (TokenKind::CloseTag, "?>")]);
    let first = skip_ending(&mut state).unwrap();
    assert_eq!(first, Ending::Semicolon(span_at(0, 1)));
    assert_eq!(first.span(), span_at(0, 1));
    let second = skip_ending(&mut state).unwrap();
    assert_eq!(second, Ending::CloseTag(span_at(2, 2)));
    assert_eq!(second.span(), span_at(2, 2));
    assert_eq!(
        skip_ending(&mut state),
        Err(unexpected(Expectation::Ending, TokenKind::Eof, 5, 0))
    );
}

#[test]
fn parenthesized_returns_the_expression_between_both_spans() {
    let mut state = state_of(&[
        (TokenKind::LeftParen, "("),
        (TokenKind::Variable, "$a"),
        (TokenKind::RightParen, ")"),
    ]);
    let (left, expression, right) = parenthesized(&mut state).unwrap();
    assert_eq!(left, span_at(0, 1));
    assert_eq!(expression, simple("$a", 2));
    assert_eq!(right, span_at(5, 1));
    assert!(state.is_eof());
}

#[test]
fn parenthesized_reports_a_missing_closing_parenthesis() {
    let mut state = state_of(&[(TokenKind::LeftParen, "("), (TokenKind::Variable, "$a")]);
    assert_eq!(
        parenthesized(&mut state),
        Err(unexpected(Expectation::Token(TokenKind::RightParen), TokenKind::Eof, 5, 0))
    );
}

#[test]
fn comma_separated_list_may_be_empty() {
    let mut state = state_of(&[(TokenKind::RightParen, ")")]);
    let list = comma_separated_no_trailing(&mut state, TokenKind::RightParen).unwrap();
    assert_eq!(list.inner.len(), 0);
    assert_eq!(list.commas.len(), 0);
    assert_eq!(list.len(), 0);
    assert_eq!(list.get(0), None);
    assert_eq!(state.cursor, 0);
}

#[test]
fn comma_separated_list_has_one_comma_less_than_items() {
    let mut state = state_of(&[
        (TokenKind::Variable, "$a"),
        (TokenKind::Comma, ","),
        (TokenKind::LiteralInteger, "7"),
        (TokenKind::Comma, ","),
        (TokenKind::Variable, "$c"),
        (TokenKind::RightParen, ")"),
    ]);
    let list = comma_separated_no_trailing(&mut state, TokenKind::RightParen).unwrap();
    let seven =
        Expression::Literal(Literal::Integer(LiteralInteger { value: text("7"), span: span_at(5, 1) }));
    assert_eq!(
        list,
        CommaSeparated {
            inner: vec![simple("$a", 0), seven, simple("$c", 9)],
            commas: vec![span_at(3, 1), span_at(7, 1)],
        }
    );
    assert_eq!(list.len(), 3);
    assert_eq!(list.commas.len(), list.inner.len() - 1);
    assert_eq!(list.get(2), Some(&simple("$c", 9)));
    assert_eq!(list.get(3), None);
    assert_eq!(list.iter().count(), 3);
    assert_eq!(state.current().kind, TokenKind::RightParen);
}

#[test]
fn comma_separated_list_of_one_item_has_no_comma() {
    let mut state = state_of(&[(TokenKind::Variable, "$a"), (TokenKind::SemiColon, ";")]);
    let list = comma_separated_no_trailing(&mut state, TokenKind::SemiColon).unwrap();
    assert_eq!(list, CommaSeparated { inner: vec![simple("$a", 0)], commas: vec![] });
}

#[test]
fn comma_separated_list_rejects_a_trailing_comma() {
    let mut state = state_of(&[
        (TokenKind::Variable, "$a"),
        (TokenKind::Comma, ","),
        (TokenKind::RightParen, ")"),
    ]);
    assert_eq!(
        comma_separated_no_trailing(&mut state, TokenKind::RightParen),
        Err(unexpected(Expectation::Token(TokenKind::RightParen), TokenKind::Comma, 3, 1))
    );
    assert_eq!(state.cursor, 1);
}

#[test]
fn comma_separated_list_ends_where_no_comma_follows() {
    let mut state = state_of(&[(TokenKind::Variable, "$a"), (TokenKind::Variable, "$b")]);
    let list = comma_separated_no_trailing(&mut state, TokenKind::RightParen).unwrap();
    assert_eq!(list.inner.len(), 1);
    assert_eq!(state.cursor, 1);
}

#[test]
fn semicolon_terminated_returns_the_span_of_the_semicolon_and_the_list() {
    let mut state = state_of(&[
        (TokenKind::Variable, "$a"),
        (TokenKind::Comma, ","),
        (TokenKind::Variable, "$b"),
        (TokenKind::SemiColon, ";"),
    ]);
    let (semicolon, list) = semicolon_terminated(&mut state).unwrap();
    assert_eq!(semicolon, span_at(8, 1));
    assert_eq!(list.inner, vec![simple("$a", 0), simple("$b", 5)]);
    assert_eq!(list.commas, vec![span_at(3, 1)]);
    assert!(state.is_eof());
}

#[test]
fn semicolon_terminated_requires_the_semicolon() {
    let mut state = state_of(&[(TokenKind::Variable, "$a"), (TokenKind::RightParen, ")")]);
    assert_eq!(
        semicolon_terminated(&mut state),
        Err(unexpected(Expectation::Token(TokenKind::SemiColon), TokenKind::RightParen, 3, 1))
    );
}

#[test]
fn simple_variable_is_one_variable_token() {
    let mut state = state_of(&[(TokenKind::Variable, "$name")]);
    assert_eq!(
        simple_variable(&mut state),
        Ok(SimpleVariable { span: span_at(0, 5), name: text("$name") })
    );
    assert!(state.is_eof());
}

#[test]
fn simple_variable_reports_anything_else() {
    let mut state = state_of(&[(TokenKind::Dollar, "$")]);
    assert_eq!(
        simple_variable(&mut state),
        Err(unexpected(Expectation::Variable, TokenKind::Dollar, 0, 1))
    );
    assert_eq!(state.cursor, 0);
}

#[test]
fn dynamic_variable_reads_a_simple_variable() {
    let mut state = state_of(&[(TokenKind::Variable, "$a")]);
    assert_eq!(
        dynamic_variable(&mut state),
        Ok(Variable::SimpleVariable(SimpleVariable { span: span_at(0, 2), name: text("$a") }))
    );
}

#[test]
fn dynamic_variable_reads_braces_that_come_as_two_tokens() {
    // $ { $x }
    let mut state = state_of(&[
        (TokenKind::Dollar, "$"),
        (TokenKind::LeftBrace, "{"),
        (TokenKind::Variable, "$x"),
        (TokenKind::RightBrace, "}"),
    ]);
    assert_eq!(
        dynamic_variable(&mut state),
        Ok(Variable::BracedVariableVariable(BracedVariableVariable {
            start: span_at(0, 3),
            variable: Box::new(simple("$x", 4)),
            end: span_at(7, 1),
        }))
    );
    assert!(state.is_eof());
}

#[test]
fn braces_give_the_same_tree_as_one_token_or_two() {
    // ${$x}, with nothing between the tokens
    let token = |kind: TokenKind, offset: usize, lexeme: &str| {
        Token::new(kind, span_at(offset, lexeme.len()), text(lexeme))
    };
    let rest = |tokens: &mut Vec<Token>| {
        tokens.push(token(TokenKind::Variable, 2, "$x"));
        tokens.push(token(TokenKind::RightBrace, 4, "}"));
        tokens.push(token(TokenKind::Eof, 5, ""));
    };
    let mut one = vec![token(TokenKind::DollarLeftBrace, 0, "${")];
    rest(&mut one);
    let mut two = vec![token(TokenKind::Dollar, 0, "$"), token(TokenKind::LeftBrace, 1, "{")];
    rest(&mut two);
    let from_one = dynamic_variable(&mut State::new(one)).unwrap();
    let from_two = dynamic_variable(&mut State::new(two)).unwrap();
    assert_eq!(from_one, from_two);
    assert_eq!(
        from_two,
        Variable::BracedVariableVariable(BracedVariableVariable {
            start: span_at(0, 2),
            variable: Box::new(simple("$x", 2)),
            end: span_at(4, 1),
        })
    );
}

#[test]
fn dynamic_variable_reports_what_is_no_variable() {
    let mut state = state_of(&[(TokenKind::LiteralInteger, "1")]);
    assert_eq!(
        dynamic_variable(&mut state),
        Err(unexpected(Expectation::Variable, TokenKind::LiteralInteger, 0, 1))
    );
    assert_eq!(state.cursor, 0);
    let mut state = state_of(&[(TokenKind::SemiColon, ";")]);
    assert_eq!(
        dynamic_variable(&mut state),
        Err(unexpected(Expectation::Variable, TokenKind::SemiColon, 0, 1))
    );
    assert_eq!(state.cursor, 0);
    let mut state = state_of(&[(TokenKind::Dollar, "$"), (TokenKind::SemiColon, ";")]);
    assert_eq!(
        dynamic_variable(&mut state),
        Err(unexpected(Expectation::Variable, TokenKind::SemiColon, 2, 1))
    );
    assert_eq!(state.cursor, 1);
}

#[test]
fn dynamic_variable_requires_the_closing_brace() {
    let mut state = state_of(&[(TokenKind::DollarLeftBrace, "${"), (TokenKind::Variable, "$x")]);
    assert_eq!(
        dynamic_variable(&mut state),
        Err(unexpected(Expectation::Token(TokenKind::RightBrace), TokenKind::Eof, 6, 0))
    );
}

#[test]
fn expression_is_a_literal_of_any_kind() {
    let mut state = state_of(&[
        (TokenKind::LiteralInteger, "42"),
        (TokenKind::LiteralFloat, "1.5"),
        (TokenKind::LiteralString, "'s'"),
    ]);
    assert_eq!(
        create(&mut state),
        Ok(Expression::Literal(Literal::Integer(LiteralInteger {
            value: text("42"),
            span: span_at(0, 2),
        })))
    );
    assert_eq!(
        create(&mut state),
        Ok(Expression::Literal(Literal::Float(LiteralFloat {
            value: text("1.5"),
            span: span_at(3, 3),
        })))
    );
    assert_eq!(
        create(&mut state),
        Ok(Expression::Literal(Literal::String(LiteralString {
            value: text("'s'"),
            span: span_at(7, 3),
        })))
    );
    assert!(state.is_eof());
}

#[test]
fn expression_in_parentheses_keeps_both_parentheses() {
    // ( ( $a ) )
    let mut state = state_of(&[
        (TokenKind::LeftParen, "("),
        (TokenKind::LeftParen, "("),
        (TokenKind::Variable, "$a"),
        (TokenKind::RightParen, ")"),
        (TokenKind::RightParen, ")"),
    ]);
    let inner = Expression::Parenthesized(ParenthesizedExpression {
        start: span_at(2, 1),
        expr: Box::new(simple("$a", 4)),
        end: span_at(7, 1),
    });
    assert_eq!(
        create(&mut state),
        Ok(Expression::Parenthesized(ParenthesizedExpression {
            start: span_at(0, 1),
            expr: Box::new(inner),
            end: span_at(9, 1),
        }))
    );
}

#[test]
fn expression_reports_what_starts_none() {
    let mut state = state_of(&[(TokenKind::Comma, ",")]);
    assert_eq!(create(&mut state), Err(unexpected(Expectation::Expression, TokenKind::Comma, 0, 1)));
    let mut state = state_of(&[]);
    assert_eq!(create(&mut state), Err(unexpected(Expectation::Expression, TokenKind::Eof, 0, 0)));
}

#[test]
fn names_are_read_as_wide_as_asked_for() {
    let lexemes = [
        (TokenKind::Identifier, "Foo"),
        (TokenKind::QualifiedIdentifier, "Foo\\Bar"),
        (TokenKind::FullyQualifiedIdentifier, "\\Foo"),
    ];
    let mut state = state_of(&lexemes);
    assert_eq!(
        identifier(&mut state),
        Ok(SimpleIdentifier {
            span: span_at(0, 3),
            form: IdentifierForm::Unqualified,
            value: text("Foo"),
        })
    );
    assert_eq!(
        identifier(&mut state),
        Err(unexpected(Expectation::Identifier, TokenKind::QualifiedIdentifier, 4, 7))
    );
    assert_eq!(
        name(&mut state),
        Ok(SimpleIdentifier {
            span: span_at(4, 7),
            form: IdentifierForm::Qualified,
            value: text("Foo\\Bar"),
        })
    );
    assert_eq!(
        name(&mut state),
        Err(unexpected(Expectation::Name, TokenKind::FullyQualifiedIdentifier, 12, 4))
    );
    assert_eq!(
        full_type_name(&mut state),
        Ok(SimpleIdentifier {
            span: span_at(12, 4),
            form: IdentifierForm::FullyQualified,
            value: text("\\Foo"),
        })
    );
    assert_eq!(
        full_type_name(&mut state),
        Err(unexpected(Expectation::FullName, TokenKind::Eof, 17, 0))
    );
}

#[test]
fn attribute_groups_are_gathered_in_their_order() {
    // #[ A , B ] #[ C , ] ;
    let mut state = state_of(&[
        (TokenKind::Attribute, "#["),
        (TokenKind::Identifier, "A"),
        (TokenKind::Comma, ","),
        (TokenKind::Identifier, "B"),
        (TokenKind::RightBracket, "]"),
        (TokenKind::Attribute, "#["),
        (TokenKind::Identifier, "C"),
        (TokenKind::Comma, ","),
        (TokenKind::RightBracket, "]"),
        (TokenKind::SemiColon, ";"),
    ]);
    assert_eq!(gather_attributes(&mut state), Ok(true));
    assert_eq!(state.current().kind, TokenKind::SemiColon);
    let id = |value: &str, offset: usize| SimpleIdentifier {
        span: span_at(offset, value.len()),
        form: IdentifierForm::Unqualified,
        value: text(value),
    };
    assert_eq!(
        state.get_attributes(),
        vec![
            AttributeGroup {
                start: span_at(0, 2),
                members: CommaSeparated {
                    inner: vec![id("A", 3), id("B", 7)],
                    commas: vec![span_at(5, 1)],
                },
                end: span_at(9, 1),
            },
            AttributeGroup {
                start: span_at(11, 2),
                members: CommaSeparated { inner: vec![id("C", 14)], commas: vec![span_at(16, 1)] },
                end: span_at(18, 1),
            },
        ]
    );
}

#[test]
fn gathering_finds_nothing_where_no_group_stands() {
    let mut state = state_of(&[(TokenKind::SemiColon, ";")]);
    assert_eq!(gather_attributes(&mut state), Ok(false));
    assert_eq!(state.cursor, 0);
    assert!(state.attributes.is_empty());
}

#[test]
fn attribute_group_needs_a_name_and_its_closing_bracket() {
    let mut state = state_of(&[(TokenKind::Attribute, "#["), (TokenKind::RightBracket, "]")]);
    assert_eq!(
        gather_attributes(&mut state),
        Err(unexpected(Expectation::FullName, TokenKind::RightBracket, 3, 1))
    );
    let mut state = state_of(&[(TokenKind::Attribute, "#["), (TokenKind::Identifier, "A")]);
    assert_eq!(
        gather_attributes(&mut state),
        Err(unexpected(Expectation::Token(TokenKind::RightBracket), TokenKind::Eof, 5, 0))
    );
}
