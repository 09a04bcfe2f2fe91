use pxp_parser::ast::expressions::Expression;
use pxp_parser::ast::literals::LiteralInteger;
use pxp_parser::ast::loops::BreakStatement;
use pxp_parser::ast::loops::ContinueStatement;
use pxp_parser::ast::loops::ForStatement;
use pxp_parser::ast::loops::ForStatementBody;
use pxp_parser::ast::loops::ForStatementIterator;
use pxp_parser::ast::loops::ForeachStatement;
use pxp_parser::ast::loops::ForeachStatementBody;
use pxp_parser::ast::loops::ForeachStatementIterator;
use pxp_parser::ast::loops::Level;
use pxp_parser::ast::loops::WhileStatement;
use pxp_parser::ast::loops::WhileStatementBody;
use pxp_parser::ast::statements::BlockStatement;
use pxp_parser::ast::statements::Ending;
use pxp_parser::ast::statements::ExpressionStatement;
use pxp_parser::ast::statements::Statement;
use pxp_parser::ast::utils::CommaSeparated;
use pxp_parser::ast::variables::SimpleVariable;
use pxp_parser::ast::variables::Variable;
use pxp_parser::bytestring::ByteString;
use pxp_parser::parser::blocks::block_statement;
use pxp_parser::parser::blocks::multiple_statements_until;
use pxp_parser::parser::error::Expectation;
use pxp_parser::parser::error::ParseError;
use pxp_parser::parser::loops::break_statement;
use pxp_parser::parser::loops::continue_statement;
use pxp_parser::parser::loops::do_while_statement;
use pxp_parser::parser::loops::for_statement;
use pxp_parser::parser::loops::foreach_statement;
use pxp_parser::parser::loops::loop_level;
use pxp_parser::parser::loops::maybe_loop_level;
use pxp_parser::parser::loops::while_statement;
use pxp_parser::parser::parse;
use pxp_parser::parser::program;
use pxp_parser::parser::state::State;
use pxp_parser::parser::statements::statement;
use pxp_parser::span::Position;
use pxp_parser::span::Span;
use pxp_parser::token::Token;
use pxp_parser::token::TokenKind;

fn place(offset: usize, len: usize) -> Span {
    Span::new(Position::new(1, offset + 1, offset), Position::new(1, offset + len + 1, offset + len))
}

fn raw(value: &str) -> ByteString {
    ByteString::new(value.as_bytes().to_vec())
}

/// Lays the lexemes out on one line, one space apart, and closes the
/// stream with the sentinel.
fn lex(lexemes: &[(TokenKind, &str)]) -> Vec<Token> {
    let mut tokens = Vec::new();
    let mut offset = 0;
    for (kind, lexeme) in lexemes {
        tokens.push(Token::new(*kind, place(offset, lexeme.len()), raw(lexeme)));
        offset += lexeme.len() + 1;
    }
    tokens.push(Token::new(TokenKind::Eof, place(offset, 0), raw("")));
    tokens
}

fn var(name: &str, offset: usize) -> Expression {
    Expression::Variable(Variable::SimpleVariable(SimpleVariable {
        span: place(offset, name.len()),
        name: raw(name),
    }))
}

fn integer(value: &str, offset: usize) -> LiteralInteger {
    LiteralInteger { value: raw(value), span: place(offset, value.len()) }
}

fn wrong(expected: Expectation, found: TokenKind, offset: usize, len: usize) -> ParseError {
    ParseError::UnexpectedToken { expected, found, span: place(offset, len) }
}

fn noop_body(offset: usize) -> Box<Statement> {
    Box::new(Statement::Noop(place(offset, 1)))
}

const FOREACH: (TokenKind, &str) = (TokenKind::Foreach, "foreach");
const OPEN: (TokenKind, &str) = (TokenKind::LeftParen, "(");
const CLOSE: (TokenKind, &str) = (TokenKind::RightParen, ")");
const AS: (TokenKind, &str) = (TokenKind::As, "as");
const AMP: (TokenKind, &str) = (TokenKind::Ampersand, "&");
const ARROW: (TokenKind, &str) = (TokenKind::DoubleArrow, "=>");
const SEMI: (TokenKind, &str) = (TokenKind::SemiColon, ";");
const COLON: (TokenKind, &str) = (TokenKind::Colon, ":");
const A: (TokenKind, &str) = (TokenKind::Variable, "$a");
const K: (TokenKind, &str) = (TokenKind::Variable, "$k");
const V: (TokenKind, &str) = (TokenKind::Variable, "$v");

#[test]
fn foreach_over_values() {
    // foreach ( $a as $v ) ;
    let mut state = State::new(lex(&[FOREACH, OPEN, A, AS, V, CLOSE, SEMI]));
    assert_eq!(
        foreach_statement(&mut state),
        Ok(Statement::Foreach(ForeachStatement {
            foreach: place(0, 7),
            left_parenthesis: place(8, 1),
            iterator: ForeachStatementIterator::Value {
                expression: var("$a", 10),
                as_keyword: place(13, 2),
                ampersand: None,
                value: var("$v", 16),
            },
            right_parenthesis: place(19, 1),
            body: ForeachStatementBody::Statement { statement: noop_body(21) },
        }))
    );
    assert!(state.is_eof());
}

#[test]
fn foreach_over_values_by_reference() {
    // foreach ( $a as & $v ) ;
    let mut state = State::new(lex(&[FOREACH, OPEN, A, AS, AMP, V, CLOSE, SEMI]));
    let parsed = foreach_statement(&mut state).unwrap();
    let Statement::Foreach(node) = parsed else { panic!("not a foreach") };
    assert_eq!(
        node.iterator,
        ForeachStatementIterator::Value {
            expression: var("$a", 10),
            as_keyword: place(13, 2),
            ampersand: Some(place(16, 1)),
            value: var("$v", 18),
        }
    );
}

#[test]
fn foreach_puts_key_and_value_in_source_order() {
    // foreach ( $a as $k => $v ) ;
    let mut state = State::new(lex(&[FOREACH, OPEN, A, AS, K, ARROW, V, CLOSE, SEMI]));
    let parsed = foreach_statement(&mut state).unwrap();
    let Statement::Foreach(node) = parsed else { panic!("not a foreach") };
    assert_eq!(
        node.iterator,
        ForeachStatementIterator::KeyAndValue {
            expression: var("$a", 10),
            as_keyword: place(13, 2),
            ampersand: None,
            key: var("$k", 16),
            double_arrow: place(19, 2),
            value: var("$v", 22),
        }
    );
}

#[test]
fn foreach_keeps_the_reference_before_the_value() {
    // foreach ( $a as $k => & $v ) ;
    let mut state = State::new(lex(&[FOREACH, OPEN, A, AS, K, ARROW, AMP, V, CLOSE, SEMI]));
    let parsed = foreach_statement(&mut state).unwrap();
    let Statement::Foreach(node) = parsed else { panic!("not a foreach") };
    assert_eq!(
        node.iterator,
        ForeachStatementIterator::KeyAndValue {
            expression: var("$a", 10),
            as_keyword: place(13, 2),
            ampersand: Some(place(22, 1)),
            key: var("$k", 16),
            double_arrow: place(19, 2),
            value: var("$v", 24),
        }
    );
}

#[test]
fn foreach_keeps_the_second_of_two_references() {
    // foreach ( $a as & $k => & $v ) ;
    let mut state = State::new(lex(&[FOREACH, OPEN, A, AS, AMP, K, ARROW, AMP, V, CLOSE, SEMI]));
    let parsed = foreach_statement(&mut state).unwrap();
    let Statement::Foreach(node) = parsed else { panic!("not a foreach") };
    assert_eq!(
        node.iterator,
        ForeachStatementIterator::KeyAndValue {
            expression: var("$a", 10),
            as_keyword: place(13, 2),
            ampersand: Some(place(24, 1)),
            key: var("$k", 18),
            double_arrow: place(21, 2),
            value: var("$v", 26),
        }
    );
}

#[test]
fn foreach_body_is_a_block_behind_a_colon() {
    // foreach ( $a as $v ) : ; ; endforeach ?>
    let mut state = State::new(lex(&[
        FOREACH,
        OPEN,
        A,
        AS,
        V,
        CLOSE,
        COLON,
        SEMI,
        SEMI,
        (TokenKind::EndForeach, "endforeach"),
        (TokenKind::CloseTag, "?>"),
    ]));
    let parsed = foreach_statement(&mut state).unwrap();
    let Statement::Foreach(node) = parsed else { panic!("not a foreach") };
    assert_eq!(
        node.body,
        ForeachStatementBody::Block {
            colon: place(21, 1),
            statements: vec![Statement::Noop(place(23, 1)), Statement::Noop(place(25, 1))],
            endforeach: place(27, 10),
            ending: Ending::CloseTag(place(38, 2)),
        }
    );
    assert!(state.is_eof());
}

#[test]
fn foreach_reports_a_missing_as() {
    let mut state = State::new(lex(&[FOREACH, OPEN, A, CLOSE, SEMI]));
    assert_eq!(
        foreach_statement(&mut state),
        Err(wrong(Expectation::Token(TokenKind::As), TokenKind::RightParen, 13, 1))
    );
}

#[test]
fn foreach_block_must_be_closed_by_endforeach() {
    // foreach ( $a as $v ) : ; endwhile ;
    let mut state = State::new(lex(&[
        FOREACH,
        OPEN,
        A,
        AS,
        V,
        CLOSE,
        COLON,
        SEMI,
        (TokenKind::EndWhile, "endwhile"),
        SEMI,
    ]));
    assert_eq!(
        foreach_statement(&mut state),
        Err(wrong(Expectation::Expression, TokenKind::EndWhile, 25, 8))
    );
}

#[test]
fn for_with_lists_in_all_three_places() {
    // for ( $a , $k ; $v ; $a , $v ) ;
    let mut state = State::new(lex(&[
        (TokenKind::For, "for"),
        OPEN,
        A,
        (TokenKind::Comma, ","),
        K,
        SEMI,
        V,
        SEMI,
        A,
        (TokenKind::Comma, ","),
        V,
        CLOSE,
        SEMI,
    ]));
    assert_eq!(
        for_statement(&mut state),
        Ok(Statement::For(ForStatement {
            for_keyword: place(0, 3),
            left_parenthesis: place(4, 1),
            iterator: ForStatementIterator {
                initializations: CommaSeparated {
                    inner: vec![var("$a", 6), var("$k", 11)],
                    commas: vec![place(9, 1)],
                },
                initializations_semicolon: place(14, 1),
                conditions: CommaSeparated { inner: vec![var("$v", 16)], commas: vec![] },
                conditions_semicolon: place(19, 1),
                loop_list: CommaSeparated {
                    inner: vec![var("$a", 21), var("$v", 26)],
                    commas: vec![place(24, 1)],
                },
            },
            right_parenthesis: place(29, 1),
            body: ForStatementBody::Statement { statement: noop_body(31) },
        }))
    );
}

#[test]
fn for_body_is_a_block_behind_a_colon() {
    // for ( ; ; ) : endfor ;
    let mut state = State::new(lex(&[
        (TokenKind::For, "for"),
        OPEN,
        SEMI,
        SEMI,
        CLOSE,
        COLON,
        (TokenKind::EndFor, "endfor"),
        SEMI,
    ]));
    let parsed = for_statement(&mut state).unwrap();
    let Statement::For(node) = parsed else { panic!("not a for") };
    assert_eq!(
        node.body,
        ForStatementBody::Block {
            colon: place(12, 1),
            statements: vec![],
            endfor: place(14, 6),
            ending: Ending::Semicolon(place(21, 1)),
        }
    );
}

#[test]
fn for_rejects_a_trailing_comma_in_a_list() {
    // for ( $a , ; ; ) ;
    let mut state = State::new(lex(&[
        (TokenKind::For, "for"),
        OPEN,
        A,
        (TokenKind::Comma, ","),
        SEMI,
        SEMI,
        CLOSE,
        SEMI,
    ]));
    assert_eq!(
        for_statement(&mut state),
        Err(wrong(Expectation::Token(TokenKind::SemiColon), TokenKind::Comma, 9, 1))
    );
}

#[test]
fn while_with_one_statement_as_body() {
    // while ( $a ) $v ;
    let mut state = State::new(lex(&[(TokenKind::While, "while"), OPEN, A, CLOSE, V, SEMI]));
    assert_eq!(
        while_statement(&mut state),
        Ok(Statement::While(WhileStatement {
            while_keyword: place(0, 5),
            left_parenthesis: place(6, 1),
            condition: var("$a", 8),
            right_parenthesis: place(11, 1),
            body: WhileStatementBody::Statement {
                statement: Box::new(Statement::Expression(ExpressionStatement {
                    expression: var("$v", 13),
                    ending: Ending::Semicolon(place(16, 1)),
                })),
            },
        }))
    );
}

#[test]
fn while_body_is_a_block_behind_a_colon() {
    // while ( $a ) : break ; endwhile ;
    let mut state = State::new(lex(&[
        (TokenKind::While, "while"),
        OPEN,
        A,
        CLOSE,
        COLON,
        (TokenKind::Break, "break"),
        SEMI,
        (TokenKind::EndWhile, "endwhile"),
        SEMI,
    ]));
    let parsed = while_statement(&mut state).unwrap();
    let Statement::While(node) = parsed else { panic!("not a while") };
    assert_eq!(
        node.body,
        WhileStatementBody::Block {
            colon: place(13, 1),
            statements: vec![Statement::Break(BreakStatement {
                break_keyword: place(15, 5),
                level: None,
                ending: Ending::Semicolon(place(21, 1)),
            })],
            endwhile: place(23, 8),
            ending: Ending::Semicolon(place(32, 1)),
        }
    );
}

#[test]
fn while_block_needs_its_ending() {
    // while ( $a ) : endwhile
    let mut state = State::new(lex(&[
        (TokenKind::While, "while"),
        OPEN,
        A,
        CLOSE,
        COLON,
        (TokenKind::EndWhile, "endwhile"),
    ]));
    assert_eq!(
        while_statement(&mut state),
        Err(wrong(Expectation::Ending, TokenKind::Eof, 24, 0))
    );
}

#[test]
fn do_while_requires_the_semicolon() {
    // do ; while ( $a ) ?>
    let mut state = State::new(lex(&[
        (TokenKind::Do, "do"),
        SEMI,
        (TokenKind::While, "while"),
        OPEN,
        A,
        CLOSE,
        (TokenKind::CloseTag, "?>"),
    ]));
    assert_eq!(
        do_while_statement(&mut state),
        Err(wrong(Expectation::Token(TokenKind::SemiColon), TokenKind::CloseTag, 18, 2))
    );
}

#[test]
fn do_while_requires_while_behind_the_body() {
    let mut state = State::new(lex(&[(TokenKind::Do, "do"), SEMI, SEMI]));
    assert_eq!(
        do_while_statement(&mut state),
        Err(wrong(Expectation::Token(TokenKind::While), TokenKind::SemiColon, 5, 1))
    );
}

#[test]
fn break_without_a_level() {
    let mut state = State::new(lex(&[(TokenKind::Break, "break"), (TokenKind::CloseTag, "?>")]));
    assert_eq!(
        break_statement(&mut state),
        Ok(Statement::Break(BreakStatement {
            break_keyword: place(0, 5),
            level: None,
            ending: Ending::CloseTag(place(6, 2)),
        }))
    );
}

#[test]
fn continue_with_a_literal_level() {
    let mut state = State::new(lex(&[
        (TokenKind::Continue, "continue"),
        (TokenKind::LiteralInteger, "2"),
        SEMI,
    ]));
    assert_eq!(
        continue_statement(&mut state),
        Ok(Statement::Continue(ContinueStatement {
            continue_keyword: place(0, 8),
            level: Some(Level::Literal(integer("2", 9))),
            ending: Ending::Semicolon(place(11, 1)),
        }))
    );
}

#[test]
fn continue_without_a_level() {
    let mut state = State::new(lex(&[(TokenKind::Continue, "continue"), SEMI]));
    assert_eq!(
        continue_statement(&mut state),
        Ok(Statement::Continue(ContinueStatement {
            continue_keyword: place(0, 8),
            level: None,
            ending: Ending::Semicolon(place(9, 1)),
        }))
    );
}

#[test]
fn level_must_be_a_literal_or_stand_in_parentheses() {
    let mut state = State::new(lex(&[A]));
    assert_eq!(
        loop_level(&mut state),
        Err(wrong(Expectation::Token(TokenKind::LeftParen), TokenKind::Variable, 0, 2))
    );
    let mut state = State::new(lex(&[OPEN, (TokenKind::LiteralInteger, "1")]));
    assert_eq!(
        loop_level(&mut state),
        Err(wrong(Expectation::Token(TokenKind::RightParen), TokenKind::Eof, 4, 0))
    );
}

#[test]
fn level_is_read_unless_the_statement_ends_at_once() {
    let mut state = State::new(lex(&[SEMI]));
    assert_eq!(maybe_loop_level(&mut state), Ok(None));
    assert_eq!(state.cursor, 0);
    let mut state = State::new(lex(&[(TokenKind::CloseTag, "?>")]));
    assert_eq!(maybe_loop_level(&mut state), Ok(None));
    let mut state = State::new(lex(&[(TokenKind::LiteralInteger, "3"), SEMI]));
    assert_eq!(maybe_loop_level(&mut state), Ok(Some(Level::Literal(integer("3", 0)))));
    assert_eq!(state.cursor, 1);
}

#[test]
fn break_needs_an_ending_behind_the_level() {
    let mut state = State::new(lex(&[
        (TokenKind::Break, "break"),
        (TokenKind::LiteralInteger, "1"),
        (TokenKind::LiteralInteger, "2"),
    ]));
    assert_eq!(
        break_statement(&mut state),
        Err(wrong(Expectation::Ending, TokenKind::LiteralInteger, 8, 1))
    );
}

#[test]
fn statement_is_told_by_its_first_token() {
    let mut state = State::new(lex(&[SEMI, (TokenKind::LeftBrace, "{"), SEMI, (TokenKind::RightBrace, "}"), A, SEMI]));
    assert_eq!(statement(&mut state), Ok(Statement::Noop(place(0, 1))));
    assert_eq!(
        statement(&mut state),
        Ok(Statement::Block(BlockStatement {
            left_brace: place(2, 1),
            statements: vec![Statement::Noop(place(4, 1))],
            right_brace: place(6, 1),
        }))
    );
    assert_eq!(
        statement(&mut state),
        Ok(Statement::Expression(ExpressionStatement {
            expression: var("$a", 8),
            ending: Ending::Semicolon(place(11, 1)),
        }))
    );
    assert!(state.is_eof());
    assert_eq!(statement(&mut state), Err(wrong(Expectation::Expression, TokenKind::Eof, 13, 0)));
}

#[test]
fn block_needs_its_closing_brace() {
    let mut state = State::new(lex(&[(TokenKind::LeftBrace, "{"), SEMI]));
    assert_eq!(
        block_statement(&mut state),
        Err(wrong(Expectation::Expression, TokenKind::Eof, 4, 0))
    );
    let mut state = State::new(lex(&[SEMI]));
    assert_eq!(
        block_statement(&mut state),
        Err(wrong(Expectation::Token(TokenKind::LeftBrace), TokenKind::SemiColon, 0, 1))
    );
}

#[test]
fn statements_are_read_up_to_the_closing_token() {
    let mut state = State::new(lex(&[SEMI, SEMI, (TokenKind::EndWhile, "endwhile"), SEMI]));
    let statements = multiple_statements_until(&mut state, TokenKind::EndWhile).unwrap();
    assert_eq!(statements, vec![Statement::Noop(place(0, 1)), Statement::Noop(place(2, 1))]);
    assert_eq!(state.current().kind, TokenKind::EndWhile);
}

#[test]
fn cursor_is_on_the_sentinel_after_a_program() {
    let mut state = State::new(lex(&[SEMI, (TokenKind::Break, "break"), SEMI, A, SEMI]));
    let statements = program(&mut state).unwrap();
    assert_eq!(statements.len(), 3);
    assert!(state.is_eof());
    assert_eq!(state.current().kind, TokenKind::Eof);
    assert_eq!(state.cursor, 5);
}

#[test]
fn empty_program_has_no_statements() {
    assert_eq!(parse(lex(&[])), Ok(vec![]));
}

#[test]
fn program_stops_at_the_first_error() {
    // ; break 1 2 ; $a ,
    let tokens = lex(&[
        SEMI,
        (TokenKind::Break, "break"),
        (TokenKind::LiteralInteger, "1"),
        (TokenKind::LiteralInteger, "2"),
        SEMI,
        A,
        (TokenKind::Comma, ","),
    ]);
    assert_eq!(parse(tokens), Err(wrong(Expectation::Ending, TokenKind::LiteralInteger, 10, 1)));
}

#[test]
fn same_tokens_give_the_same_error() {
    let lexemes = [(TokenKind::While, "while"), OPEN, A, SEMI];
    let first = parse(lex(&lexemes)).unwrap_err();
    let second = parse(lex(&lexemes)).unwrap_err();
    assert_eq!(first, second);
    assert_eq!(first, wrong(Expectation::Token(TokenKind::RightParen), TokenKind::SemiColon, 11, 1));
    assert_eq!(first.span(), second.span());
    let mut state = State::new(lex(&lexemes));
    assert_eq!(while_statement(&mut state).unwrap_err(), first);
}

#[test]
fn same_tokens_give_the_same_tree() {
    let lexemes = [(TokenKind::While, "while"), OPEN, A, CLOSE, SEMI];
    assert_eq!(parse(lex(&lexemes)), parse(lex(&lexemes)));
}

#[test]
fn nested_loops_keep_every_span() {
    // while ( $a ) foreach ( $a as $v ) { continue 2 ; }
    let tokens = lex(&[
        (TokenKind::While, "while"),
        OPEN,
        A,
        CLOSE,
        FOREACH,
        OPEN,
        A,
        AS,
        V,
        CLOSE,
        (TokenKind::LeftBrace, "{"),
        (TokenKind::Continue, "continue"),
        (TokenKind::LiteralInteger, "2"),
        SEMI,
        (TokenKind::RightBrace, "}"),
    ]);
    let spans: Vec<Span> = tokens.iter().map(|token| token.span).collect();
    let program = parse(tokens).unwrap();
    let [Statement::While(outer)] = program.as_slice() else { panic!("not one while") };
    let WhileStatementBody::Statement { statement } = &outer.body else { panic!("a block") };
    let Statement::Foreach(inner) = &**statement else { panic!("not a foreach") };
    let ForeachStatementIterator::Value { expression, as_keyword, ampersand, value } =
        &inner.iterator
    else {
        panic!("a key")
    };
    let ForeachStatementBody::Statement { statement } = &inner.body else { panic!("a block") };
    let Statement::Block(block) = &**statement else { panic!("not a block") };
    let [Statement::Continue(leave)] = block.statements.as_slice() else { panic!("not one") };
    let Some(Level::Literal(level)) = &leave.level else { panic!("no level") };
    let of = |expression: &Expression| match expression {
        Expression::Variable(Variable::SimpleVariable(variable)) => variable.span,
        _ => panic!("not a simple variable"),
    };
    assert_eq!(*ampersand, None);
    let kept = vec![
        outer.while_keyword,
        outer.left_parenthesis,
        of(&outer.condition),
        outer.right_parenthesis,
        inner.foreach,
        inner.left_parenthesis,
        of(expression),
        *as_keyword,
        of(value),
        inner.right_parenthesis,
        block.left_brace,
        leave.continue_keyword,
        level.span,
        leave.ending.span(),
        block.right_brace,
    ];
    assert_eq!(kept, spans[..15].to_vec());
    assert_eq!(
        outer.condition,
        Expression::Variable(Variable::SimpleVariable(SimpleVariable {
            span: place(8, 2),
            name: raw("$a"),
        }))
    );
    assert_eq!(*level, integer("2", 45));
}
