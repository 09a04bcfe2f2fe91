use pxp_parser::ast::expressions::Expression;
use pxp_parser::ast::identifiers::IdentifierForm;
use pxp_parser::ast::identifiers::SimpleIdentifier;
use pxp_parser::ast::literals::Literal;
use pxp_parser::ast::literals::LiteralInteger;
use pxp_parser::ast::loops::BreakStatement;
use pxp_parser::ast::loops::DoWhileStatement;
use pxp_parser::ast::loops::ForStatement;
use pxp_parser::ast::loops::ForStatementBody;
use pxp_parser::ast::loops::ForStatementIterator;
use pxp_parser::ast::loops::ForeachStatement;
use pxp_parser::ast::loops::ForeachStatementBody;
use pxp_parser::ast::loops::ForeachStatementIterator;
use pxp_parser::ast::loops::Level;
use pxp_parser::ast::modifiers::VisibilityModifier;
use pxp_parser::ast::statements::BlockStatement;
use pxp_parser::ast::statements::Ending;
use pxp_parser::ast::statements::Statement;
use pxp_parser::ast::traits::TraitBody;
use pxp_parser::ast::traits::TraitMember;
use pxp_parser::ast::traits::TraitStatement;
use pxp_parser::ast::traits::TraitUsage;
use pxp_parser::ast::traits::TraitUsageAdaptation;
use pxp_parser::ast::utils::CommaSeparated;
use pxp_parser::ast::variables::BracedVariableVariable;
use pxp_parser::ast::variables::SimpleVariable;
use pxp_parser::ast::variables::Variable;
use pxp_parser::ast::variables::VariableVariable;
use pxp_parser::bytestring::ByteString;
use pxp_parser::parser::error::Expectation;
use pxp_parser::parser::error::ParseError;
use pxp_parser::parser::parse;
use pxp_parser::parser::state::State;
use pxp_parser::parser::variables::dynamic_variable;
use pxp_parser::span::Position;
use pxp_parser::span::Span;
use pxp_parser::token::Token;
use pxp_parser::token::TokenKind;

/// Lays the lexemes out on one line, one space apart, and closes the
/// stream with the sentinel.
fn stream(lexemes: &[(TokenKind, &str)]) -> Vec<Token> {
    let mut tokens = Vec::new();
    let mut offset = 0;
    for (kind, text) in lexemes {
        tokens.push(Token::new(*kind, span(offset, text.len()), bytes(text)));
        offset += text.len() + 1;
    }
    tokens.push(Token::new(TokenKind::Eof, span(offset, 0), bytes("")));
    tokens
}

fn span(offset: usize, len: usize) -> Span {
    Span::new(Position::new(1, offset + 1, offset), Position::new(1, offset + len + 1, offset + len))
}

fn bytes(text: &str) -> ByteString {
    ByteString::new(text.as_bytes().to_vec())
}

fn variable(name: &str, offset: usize) -> Expression {
    Expression::Variable(Variable::SimpleVariable(SimpleVariable {
        span: span(offset, name.len()),
        name: bytes(name),
    }))
}

fn name(text: &str, offset: usize) -> SimpleIdentifier {
    SimpleIdentifier { span: span(offset, text.len()), form: IdentifierForm::Unqualified, value: bytes(text) }
}

#[test]
fn foreach_with_referenced_key_and_value() {
    // foreach ( $xs as & $k => $v ) { }
    let tokens = stream(&[
        (TokenKind::Foreach, "foreach"),
        (TokenKind::LeftParen, "("),
        (TokenKind::Variable, "$xs"),
        (TokenKind::As, "as"),
        (TokenKind::Ampersand, "&"),
        (TokenKind::Variable, "$k"),
        (TokenKind::DoubleArrow, "=>"),
        (TokenKind::Variable, "$v"),
        (TokenKind::RightParen, ")"),
        (TokenKind::LeftBrace, "{"),
        (TokenKind::RightBrace, "}"),
    ]);
    let program = parse(tokens).unwrap();
    let expected = vec![Statement::Foreach(ForeachStatement {
        foreach: span(0, 7),
        left_parenthesis: span(8, 1),
        iterator: ForeachStatementIterator::KeyAndValue {
            expression: variable("$xs", 10),
            as_keyword: span(14, 2),
            ampersand: Some(span(17, 1)),
            key: variable("$k", 19),
            double_arrow: span(22, 2),
            value: variable("$v", 25),
        },
        right_parenthesis: span(28, 1),
        body: ForeachStatementBody::Statement {
            statement: Box::new(Statement::Block(BlockStatement {
                left_brace: span(30, 1),
                statements: vec![],
                right_brace: span(32, 1),
            })),
        },
    })];
    assert_eq!(program, expected);
}

#[test]
fn for_with_three_empty_lists() {
    // for ( ; ; ) ;
    let tokens = stream(&[
        (TokenKind::For, "for"),
        (TokenKind::LeftParen, "("),
        (TokenKind::SemiColon, ";"),
        (TokenKind::SemiColon, ";"),
        (TokenKind::RightParen, ")"),
        (TokenKind::SemiColon, ";"),
    ]);
    let program = parse(tokens).unwrap();
    let empty = || CommaSeparated { inner: vec![], commas: vec![] };
    let expected = vec![Statement::For(ForStatement {
        for_keyword: span(0, 3),
        left_parenthesis: span(4, 1),
        iterator: ForStatementIterator {
            initializations: empty(),
            initializations_semicolon: span(6, 1),
            conditions: empty(),
            conditions_semicolon: span(8, 1),
            loop_list: empty(),
        },
        right_parenthesis: span(10, 1),
        body: ForStatementBody::Statement { statement: Box::new(Statement::Noop(span(12, 1))) },
    })];
    assert_eq!(program, expected);
}

#[test]
fn do_while_with_compound_body() {
    // do { } while ( 1 ) ;
    let tokens = stream(&[
        (TokenKind::Do, "do"),
        (TokenKind::LeftBrace, "{"),
        (TokenKind::RightBrace, "}"),
        (TokenKind::While, "while"),
        (TokenKind::LeftParen, "("),
        (TokenKind::LiteralInteger, "1"),
        (TokenKind::RightParen, ")"),
        (TokenKind::SemiColon, ";"),
    ]);
    let program = parse(tokens).unwrap();
    let expected = vec![Statement::DoWhile(DoWhileStatement {
        do_keyword: span(0, 2),
        body: Box::new(Statement::Block(BlockStatement {
            left_brace: span(3, 1),
            statements: vec![],
            right_brace: span(5, 1),
        })),
        while_keyword: span(7, 5),
        left_parenthesis: span(13, 1),
        condition: Expression::Literal(Literal::Integer(LiteralInteger {
            value: bytes("1"),
            span: span(15, 1),
        })),
        right_parenthesis: span(17, 1),
        semicolon: span(19, 1),
    })];
    assert_eq!(program, expected);
}

#[test]
fn break_with_nested_parenthesized_level() {
    // break ( ( ( 2 ) ) ) ;
    let tokens = stream(&[
        (TokenKind::Break, "break"),
        (TokenKind::LeftParen, "("),
        (TokenKind::LeftParen, "("),
        (TokenKind::LeftParen, "("),
        (TokenKind::LiteralInteger, "2"),
        (TokenKind::RightParen, ")"),
        (TokenKind::RightParen, ")"),
        (TokenKind::RightParen, ")"),
        (TokenKind::SemiColon, ";"),
    ]);
    let program = parse(tokens).unwrap();
    let level = |left: usize, inner: Level, right: usize| Level::Parenthesized {
        left_parenthesis: span(left, 1),
        level: Box::new(inner),
        right_parenthesis: span(right, 1),
    };
    let literal = Level::Literal(LiteralInteger { value: bytes("2"), span: span(12, 1) });
    let expected = vec![Statement::Break(BreakStatement {
        break_keyword: span(0, 5),
        level: Some(level(6, level(8, level(10, literal, 14), 16), 18)),
        ending: Ending::Semicolon(span(20, 1)),
    })];
    assert_eq!(program, expected);
}

#[test]
fn trait_with_usage_and_adaptations() {
    // trait T { use A , B { A :: m insteadof B ; B :: m as private n ; } }
    let tokens = stream(&[
        (TokenKind::Trait, "trait"),
        (TokenKind::Identifier, "T"),
        (TokenKind::LeftBrace, "{"),
        (TokenKind::Use, "use"),
        (TokenKind::Identifier, "A"),
        (TokenKind::Comma, ","),
        (TokenKind::Identifier, "B"),
        (TokenKind::LeftBrace, "{"),
        (TokenKind::Identifier, "A"),
        (TokenKind::DoubleColon, "::"),
        (TokenKind::Identifier, "m"),
        (TokenKind::Insteadof, "insteadof"),
        (TokenKind::Identifier, "B"),
        (TokenKind::SemiColon, ";"),
        (TokenKind::Identifier, "B"),
        (TokenKind::DoubleColon, "::"),
        (TokenKind::Identifier, "m"),
        (TokenKind::As, "as"),
        (TokenKind::Private, "private"),
        (TokenKind::Identifier, "n"),
        (TokenKind::SemiColon, ";"),
        (TokenKind::RightBrace, "}"),
        (TokenKind::RightBrace, "}"),
    ]);
    let program = parse(tokens).unwrap();
    let expected = vec![Statement::Trait(TraitStatement {
        trait_keyword: span(0, 5),
        name: name("T", 6),
        attributes: vec![],
        body: TraitBody {
            left_brace: span(8, 1),
            members: vec![TraitMember::TraitUsage(TraitUsage {
                use_keyword: span(10, 3),
                traits: vec![name("A", 14), name("B", 18)],
                adaptations: vec![
                    TraitUsageAdaptation::Precedence {
                        trait_name: Some(name("A", 22)),
                        method: name("m", 27),
                        insteadof: vec![name("B", 39)],
                    },
                    TraitUsageAdaptation::Alias {
                        trait_name: Some(name("B", 43)),
                        method: name("m", 48),
                        alias: name("n", 61),
                        visibility: Some(VisibilityModifier::Private(span(53, 7))),
                    },
                ],
            })],
            right_brace: span(67, 1),
        },
    })];
    assert_eq!(program, expected);
}

#[test]
fn variable_variable_ladder_over_braces() {
    // $ $ ${ $x }
    let tokens = stream(&[
        (TokenKind::Dollar, "$"),
        (TokenKind::Dollar, "$"),
        (TokenKind::DollarLeftBrace, "${"),
        (TokenKind::Variable, "$x"),
        (TokenKind::RightBrace, "}"),
    ]);
    let mut state = State::new(tokens);
    let parsed = dynamic_variable(&mut state).unwrap();
    let expected = Variable::VariableVariable(VariableVariable {
        span: span(0, 1),
        variable: Box::new(Variable::VariableVariable(VariableVariable {
            span: span(2, 1),
            variable: Box::new(Variable::BracedVariableVariable(BracedVariableVariable {
                start: span(4, 2),
                variable: Box::new(variable("$x", 7)),
                end: span(10, 1),
            })),
        })),
    });
    assert_eq!(parsed, expected);
    assert!(state.is_eof());
}

#[test]
fn trailing_comma_in_trait_use_is_reported_at_the_comma() {
    // trait T { use A , ; }
    let tokens = stream(&[
        (TokenKind::Trait, "trait"),
        (TokenKind::Identifier, "T"),
        (TokenKind::LeftBrace, "{"),
        (TokenKind::Use, "use"),
        (TokenKind::Identifier, "A"),
        (TokenKind::Comma, ","),
        (TokenKind::SemiColon, ";"),
        (TokenKind::RightBrace, "}"),
    ]);
    let error = parse(tokens).unwrap_err();
    assert_eq!(
        error,
        ParseError::UnexpectedToken {
            expected: Expectation::Token(TokenKind::SemiColon),
            found: TokenKind::Comma,
            span: span(16, 1),
        }
    );
    assert_eq!(error.span(), span(16, 1));
}
