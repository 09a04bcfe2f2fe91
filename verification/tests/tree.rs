use pxp_parser::ast::comments::Comment;
use pxp_parser::ast::comments::CommentFormat;
use pxp_parser::ast::comments::CommentGroup;
use pxp_parser::ast::expressions::Expression;
use pxp_parser::ast::identifiers::IdentifierForm;
use pxp_parser::ast::identifiers::SimpleIdentifier;
use pxp_parser::ast::literals::LiteralInteger;
use pxp_parser::ast::loops::ForeachStatementBody;
use pxp_parser::ast::loops::Level;
use pxp_parser::ast::namespaces::BracedNamespace;
use pxp_parser::ast::namespaces::BracedNamespaceBody;
use pxp_parser::ast::namespaces::NamespaceStatement;
use pxp_parser::ast::namespaces::UnbracedNamespace;
use pxp_parser::ast::node::NodeRef;
use pxp_parser::ast::statements::Statement;
use pxp_parser::ast::traits::TraitMember;
use pxp_parser::ast::utils::CommaSeparated;
use pxp_parser::ast::variables::SimpleVariable;
use pxp_parser::ast::variables::Variable;
use pxp_parser::bytestring::ByteString;
use pxp_parser::parser::parse;
use pxp_parser::span::Position;
use pxp_parser::span::Span;
use pxp_parser::token::Token;
use pxp_parser::token::TokenKind;

fn range(offset: usize, len: usize) -> Span {
    Span::new(Position::new(1, offset + 1, offset), Position::new(1, offset + len + 1, offset + len))
}

fn octets(value: &str) -> ByteString {
    ByteString::new(value.as_bytes().to_vec())
}

/// Lays the lexemes out on one line, one space apart, and closes the
/// stream with the sentinel.
fn line(lexemes: &[(TokenKind, &str)]) -> Vec<Token> {
    let mut tokens = Vec::new();
    let mut offset = 0;
    for (kind, lexeme) in lexemes {
        tokens.push(Token::new(*kind, range(offset, lexeme.len()), octets(lexeme)));
        offset += lexeme.len() + 1;
    }
    tokens.push(Token::new(TokenKind::Eof, range(offset, 0), octets("")));
    tokens
}

fn one(lexemes: &[(TokenKind, &str)]) -> Statement {
    let mut program = parse(line(lexemes)).unwrap();
    assert_eq!(program.len(), 1);
    program.remove(0)
}

fn plain(name: &str, offset: usize) -> Expression {
    Expression::Variable(Variable::SimpleVariable(SimpleVariable {
        span: range(offset, name.len()),
        name: octets(name),
    }))
}

/// The spans of the simple variables and integer literals under a node,
/// in the order in which the traversal meets them.
fn leaves(node: NodeRef<'_>, found: &mut Vec<Span>) {
    match node {
        NodeRef::SimpleVariable(variable) => found.push(variable.span),
        NodeRef::LiteralInteger(literal) => found.push(literal.span),
        NodeRef::SimpleIdentifier(name) => found.push(name.span),
        _ => {}
    }
    for child in node.children() {
        leaves(child, found);
    }
}

const FOREACH_KEY_VALUE: [(TokenKind, &str); 13] = [
    (TokenKind::Foreach, "foreach"),
    (TokenKind::LeftParen, "("),
    (TokenKind::Variable, "$a"),
    (TokenKind::As, "as"),
    (TokenKind::Variable, "$k"),
    (TokenKind::DoubleArrow, "=>"),
    (TokenKind::Variable, "$v"),
    (TokenKind::RightParen, ")"),
    (TokenKind::Colon, ":"),
    (TokenKind::Variable, "$b"),
    (TokenKind::SemiColon, ";"),
    (TokenKind::EndForeach, "endforeach"),
    (TokenKind::SemiColon, ";"),
];

#[test]
fn statement_hands_out_the_node_it_is() {
    let statement = one(&FOREACH_KEY_VALUE);
    let Statement::Foreach(node) = &statement else { panic!("not a foreach") };
    assert_eq!(statement.children(), vec![NodeRef::ForeachStatement(node)]);
    assert_eq!(NodeRef::Statement(&statement).children(), statement.children());
    assert_eq!(one(&[(TokenKind::SemiColon, ";")]).children(), vec![]);
}

#[test]
fn foreach_hands_out_iterator_and_body() {
    let statement = one(&FOREACH_KEY_VALUE);
    let Statement::Foreach(node) = &statement else { panic!("not a foreach") };
    assert_eq!(
        node.children(),
        vec![
            NodeRef::ForeachStatementIterator(&node.iterator),
            NodeRef::ForeachStatementBody(&node.body),
        ]
    );
    assert_eq!(
        node.iterator.children(),
        vec![
            NodeRef::Expression(&plain("$a", 10)),
            NodeRef::Expression(&plain("$k", 16)),
            NodeRef::Expression(&plain("$v", 22)),
        ]
    );
    let ForeachStatementBody::Block { statements, .. } = &node.body else { panic!("no block") };
    assert_eq!(node.body.children(), vec![NodeRef::Statement(&statements[0])]);
}

#[test]
fn foreach_over_values_hands_out_two_expressions() {
    let statement = one(&[
        (TokenKind::Foreach, "foreach"),
        (TokenKind::LeftParen, "("),
        (TokenKind::Variable, "$a"),
        (TokenKind::As, "as"),
        (TokenKind::Variable, "$v"),
        (TokenKind::RightParen, ")"),
        (TokenKind::SemiColon, ";"),
    ]);
    let Statement::Foreach(node) = &statement else { panic!("not a foreach") };
    assert_eq!(
        node.iterator.children(),
        vec![NodeRef::Expression(&plain("$a", 10)), NodeRef::Expression(&plain("$v", 16))]
    );
    let ForeachStatementBody::Statement { statement } = &node.body else { panic!("a block") };
    assert_eq!(node.body.children(), vec![NodeRef::Statement(&**statement)]);
}

#[test]
fn for_hands_out_the_expressions_of_all_three_lists() {
    // for ( $a , $b ; ; $c ) : endfor ;
    let statement = one(&[
        (TokenKind::For, "for"),
        (TokenKind::LeftParen, "("),
        (TokenKind::Variable, "$a"),
        (TokenKind::Comma, ","),
        (TokenKind::Variable, "$b"),
        (TokenKind::SemiColon, ";"),
        (TokenKind::SemiColon, ";"),
        (TokenKind::Variable, "$c"),
        (TokenKind::RightParen, ")"),
        (TokenKind::Colon, ":"),
        (TokenKind::EndFor, "endfor"),
        (TokenKind::SemiColon, ";"),
    ]);
    let Statement::For(node) = &statement else { panic!("not a for") };
    assert_eq!(
        node.children(),
        vec![NodeRef::ForStatementIterator(&node.iterator), NodeRef::ForStatementBody(&node.body)]
    );
    assert_eq!(
        node.iterator.children(),
        vec![
            NodeRef::Expression(&plain("$a", 6)),
            NodeRef::Expression(&plain("$b", 11)),
            NodeRef::Expression(&plain("$c", 18)),
        ]
    );
    assert_eq!(node.iterator.initializations.children().len(), 2);
    assert_eq!(node.iterator.conditions.children(), vec![]);
    assert_eq!(node.body.children(), vec![]);
}

#[test]
fn while_and_do_while_hand_out_condition_and_body_in_source_order() {
    let looped = one(&[
        (TokenKind::While, "while"),
        (TokenKind::LeftParen, "("),
        (TokenKind::Variable, "$a"),
        (TokenKind::RightParen, ")"),
        (TokenKind::SemiColon, ";"),
    ]);
    let Statement::While(node) = &looped else { panic!("not a while") };
    assert_eq!(
        node.children(),
        vec![NodeRef::Expression(&node.condition), NodeRef::WhileStatementBody(&node.body)]
    );
    assert_eq!(node.body.children().len(), 1);
    let repeated = one(&[
        (TokenKind::Do, "do"),
        (TokenKind::SemiColon, ";"),
        (TokenKind::While, "while"),
        (TokenKind::LeftParen, "("),
        (TokenKind::Variable, "$a"),
        (TokenKind::RightParen, ")"),
        (TokenKind::SemiColon, ";"),
    ]);
    let Statement::DoWhile(node) = &repeated else { panic!("not a do") };
    assert_eq!(
        node.children(),
        vec![NodeRef::Statement(&*node.body), NodeRef::Expression(&node.condition)]
    );
}

#[test]
fn level_hands_out_its_direct_child() {
    let statement = one(&[
        (TokenKind::Break, "break"),
        (TokenKind::LeftParen, "("),
        (TokenKind::LeftParen, "("),
        (TokenKind::LiteralInteger, "2"),
        (TokenKind::RightParen, ")"),
        (TokenKind::RightParen, ")"),
        (TokenKind::SemiColon, ";"),
    ]);
    let Statement::Break(node) = &statement else { panic!("not a break") };
    let Some(level) = &node.level else { panic!("no level") };
    assert_eq!(node.children(), vec![NodeRef::Level(level)]);
    let Level::Parenthesized { level: inner, .. } = level else { panic!("no parentheses") };
    assert_eq!(level.children(), vec![NodeRef::Level(&**inner)]);
    let Level::Parenthesized { level: core, .. } = &**inner else { panic!("no parentheses") };
    assert_eq!(inner.children(), vec![NodeRef::Level(&**core)]);
    let literal = LiteralInteger { value: octets("2"), span: range(10, 1) };
    assert_eq!(core.children(), vec![NodeRef::LiteralInteger(&literal)]);
    assert_eq!(**core, Level::Literal(literal));
}

#[test]
fn break_and_continue_without_a_level_have_no_children() {
    let statement = one(&[(TokenKind::Break, "break"), (TokenKind::SemiColon, ";")]);
    let Statement::Break(node) = &statement else { panic!("not a break") };
    assert_eq!(node.children(), vec![]);
    let statement = one(&[(TokenKind::Continue, "continue"), (TokenKind::SemiColon, ";")]);
    let Statement::Continue(node) = &statement else { panic!("not a continue") };
    assert_eq!(node.children(), vec![]);
    let statement = one(&[
        (TokenKind::Continue, "continue"),
        (TokenKind::LiteralInteger, "1"),
        (TokenKind::SemiColon, ";"),
    ]);
    let Statement::Continue(node) = &statement else { panic!("not a continue") };
    assert_eq!(node.children().len(), 1);
}

#[test]
fn namespaces_hand_out_name_and_statements() {
    let name = SimpleIdentifier {
        span: range(10, 3),
        form: IdentifierForm::Unqualified,
        value: octets("Foo"),
    };
    let unbraced = UnbracedNamespace {
        start: range(0, 9),
        name: name.clone(),
        end: range(13, 1),
        statements: vec![Statement::Noop(range(15, 1)), Statement::Noop(range(17, 1))],
    };
    assert_eq!(
        unbraced.children(),
        vec![
            NodeRef::SimpleIdentifier(&name),
            NodeRef::Statement(&Statement::Noop(range(15, 1))),
            NodeRef::Statement(&Statement::Noop(range(17, 1))),
        ]
    );
    let body = || BracedNamespaceBody {
        start: range(14, 1),
        end: range(18, 1),
        statements: vec![Statement::Noop(range(16, 1))],
    };
    assert_eq!(body().children(), vec![NodeRef::Statement(&Statement::Noop(range(16, 1)))]);
    let named = BracedNamespace { namespace: range(0, 9), name: Some(name.clone()), body: body() };
    assert_eq!(
        named.children(),
        vec![NodeRef::SimpleIdentifier(&name), NodeRef::BracedNamespaceBody(&body())]
    );
    let unnamed = BracedNamespace { namespace: range(0, 9), name: None, body: body() };
    assert_eq!(unnamed.children(), vec![NodeRef::BracedNamespaceBody(&body())]);
    let statement = NamespaceStatement::Braced(unnamed);
    let NamespaceStatement::Braced(inner) = &statement else { panic!("unbraced") };
    assert_eq!(statement.children(), vec![NodeRef::BracedNamespace(inner)]);
    let statement = NamespaceStatement::Unbraced(unbraced);
    let NamespaceStatement::Unbraced(inner) = &statement else { panic!("braced") };
    assert_eq!(statement.children(), vec![NodeRef::UnbracedNamespace(inner)]);
}

#[test]
fn expressions_and_variables_hand_out_the_node_they_are() {
    // ( $ $a ) ;   and   7 ;
    let statement = one(&[
        (TokenKind::LeftParen, "("),
        (TokenKind::Dollar, "$"),
        (TokenKind::Variable, "$a"),
        (TokenKind::RightParen, ")"),
        (TokenKind::SemiColon, ";"),
    ]);
    let Statement::Expression(node) = &statement else { panic!("no expression") };
    assert_eq!(
        NodeRef::ExpressionStatement(node).children(),
        vec![NodeRef::Expression(&node.expression)]
    );
    let Expression::Parenthesized(group) = &node.expression else { panic!("no parentheses") };
    assert_eq!(node.expression.children(), vec![NodeRef::ParenthesizedExpression(group)]);
    assert_eq!(
        NodeRef::ParenthesizedExpression(group).children(),
        vec![NodeRef::Expression(&*group.expr)]
    );
    let Expression::Variable(variable) = &*group.expr else { panic!("no variable") };
    assert_eq!(group.expr.children(), vec![NodeRef::Variable(variable)]);
    let Variable::VariableVariable(ladder) = variable else { panic!("no ladder") };
    assert_eq!(NodeRef::Variable(variable).children(), vec![NodeRef::VariableVariable(ladder)]);
    assert_eq!(
        NodeRef::VariableVariable(ladder).children(),
        vec![NodeRef::Variable(&*ladder.variable)]
    );
    let Variable::SimpleVariable(simple) = &*ladder.variable else { panic!("not simple") };
    assert_eq!(
        NodeRef::Variable(&*ladder.variable).children(),
        vec![NodeRef::SimpleVariable(simple)]
    );
    assert_eq!(NodeRef::SimpleVariable(simple).children(), vec![]);
    let statement = one(&[(TokenKind::LiteralInteger, "7"), (TokenKind::SemiColon, ";")]);
    let Statement::Expression(node) = &statement else { panic!("no expression") };
    let Expression::Literal(literal) = &node.expression else { panic!("no literal") };
    assert_eq!(node.expression.children(), vec![NodeRef::Literal(literal)]);
    let integer = LiteralInteger { value: octets("7"), span: range(0, 1) };
    assert_eq!(NodeRef::Literal(literal).children(), vec![NodeRef::LiteralInteger(&integer)]);
}

#[test]
fn declarations_hand_out_their_attribute_groups_first() {
    // trait T { #[ A ] var $x ; }
    let statement = one(&[
        (TokenKind::Trait, "trait"),
        (TokenKind::Identifier, "T"),
        (TokenKind::LeftBrace, "{"),
        (TokenKind::Attribute, "#["),
        (TokenKind::Identifier, "A"),
        (TokenKind::RightBracket, "]"),
        (TokenKind::Var, "var"),
        (TokenKind::Variable, "$x"),
        (TokenKind::SemiColon, ";"),
        (TokenKind::RightBrace, "}"),
    ]);
    let Statement::Trait(node) = &statement else { panic!("not a trait") };
    assert_eq!(
        NodeRef::TraitStatement(node).children(),
        vec![NodeRef::SimpleIdentifier(&node.name), NodeRef::TraitBody(&node.body)]
    );
    let TraitMember::VariableProperty(property) = &node.body.members[0] else {
        panic!("not a property")
    };
    assert_eq!(
        NodeRef::VariableProperty(property).children(),
        vec![
            NodeRef::AttributeGroup(&property.attributes[0]),
            NodeRef::SimpleVariable(&property.variable),
        ]
    );
    assert_eq!(
        NodeRef::AttributeGroup(&property.attributes[0]).children(),
        vec![NodeRef::SimpleIdentifier(&property.attributes[0].members.inner[0])]
    );
}

#[test]
fn member_hands_out_the_node_it_is() {
    // trait T { use A , B { A :: m insteadof B ; m as n ; } function f ( $p ) { ; } }
    let statement = one(&[
        (TokenKind::Trait, "trait"),
        (TokenKind::Identifier, "T"),
        (TokenKind::LeftBrace, "{"),
        (TokenKind::Use, "use"),
        (TokenKind::Identifier, "A"),
        (TokenKind::Comma, ","),
        (TokenKind::Identifier, "B"),
        (TokenKind::LeftBrace, "{"),
        (TokenKind::Identifier, "A"),
        (TokenKind::DoubleColon, "::"),
        (TokenKind::Identifier, "m"),
        (TokenKind::Insteadof, "insteadof"),
        (TokenKind::Identifier, "B"),
        (TokenKind::SemiColon, ";"),
        (TokenKind::Identifier, "m"),
        (TokenKind::As, "as"),
        (TokenKind::Identifier, "n"),
        (TokenKind::SemiColon, ";"),
        (TokenKind::RightBrace, "}"),
        (TokenKind::Function, "function"),
        (TokenKind::Identifier, "f"),
        (TokenKind::LeftParen, "("),
        (TokenKind::Variable, "$p"),
        (TokenKind::RightParen, ")"),
        (TokenKind::LeftBrace, "{"),
        (TokenKind::SemiColon, ";"),
        (TokenKind::RightBrace, "}"),
        (TokenKind::RightBrace, "}"),
    ]);
    let Statement::Trait(node) = &statement else { panic!("not a trait") };
    let members = &node.body.members;
    assert_eq!(
        NodeRef::TraitBody(&node.body).children(),
        vec![NodeRef::TraitMember(&members[0]), NodeRef::TraitMember(&members[1])]
    );
    let TraitMember::TraitUsage(usage) = &members[0] else { panic!("not a trait use") };
    assert_eq!(NodeRef::TraitMember(&members[0]).children(), vec![NodeRef::TraitUsage(usage)]);
    assert_eq!(
        NodeRef::TraitUsage(usage).children(),
        vec![
            NodeRef::SimpleIdentifier(&usage.traits[0]),
            NodeRef::SimpleIdentifier(&usage.traits[1]),
            NodeRef::TraitUsageAdaptation(&usage.adaptations[0]),
            NodeRef::TraitUsageAdaptation(&usage.adaptations[1]),
        ]
    );
    let names = |adaptation: usize| -> Vec<usize> {
        NodeRef::TraitUsageAdaptation(&usage.adaptations[adaptation])
            .children()
            .iter()
            .map(|child| match child {
                NodeRef::SimpleIdentifier(name) => name.span.start.offset,
                _ => panic!("not a name"),
            })
            .collect()
    };
    assert_eq!(names(0), vec![22, 27, 39]);
    assert_eq!(names(1), vec![43, 48]);
    let TraitMember::ConcreteMethod(method) = &members[1] else { panic!("not a method") };
    assert_eq!(
        NodeRef::TraitMember(&members[1]).children(),
        vec![NodeRef::ConcreteMethod(method)]
    );
    assert_eq!(
        NodeRef::ConcreteMethod(method).children(),
        vec![
            NodeRef::SimpleIdentifier(&method.name),
            NodeRef::FunctionParameterList(&method.parameters),
            NodeRef::MethodBody(&method.body),
        ]
    );
    assert_eq!(
        NodeRef::FunctionParameterList(&method.parameters).children(),
        vec![NodeRef::SimpleVariable(&method.parameters.parameters.inner[0])]
    );
    assert_eq!(
        NodeRef::MethodBody(&method.body).children(),
        vec![NodeRef::Statement(&method.body.statements[0])]
    );
}

#[test]
fn traversal_meets_the_leaves_in_source_order() {
    // trait T { function m ( $p ) { foreach ( $a as $k => $v ) continue 2 ; } const N = 1 ; }
    let statement = one(&[
        (TokenKind::Trait, "trait"),
        (TokenKind::Identifier, "T"),
        (TokenKind::LeftBrace, "{"),
        (TokenKind::Function, "function"),
        (TokenKind::Identifier, "m"),
        (TokenKind::LeftParen, "("),
        (TokenKind::Variable, "$p"),
        (TokenKind::RightParen, ")"),
        (TokenKind::LeftBrace, "{"),
        (TokenKind::Foreach, "foreach"),
        (TokenKind::LeftParen, "("),
        (TokenKind::Variable, "$a"),
        (TokenKind::As, "as"),
        (TokenKind::Variable, "$k"),
        (TokenKind::DoubleArrow, "=>"),
        (TokenKind::Variable, "$v"),
        (TokenKind::RightParen, ")"),
        (TokenKind::Continue, "continue"),
        (TokenKind::LiteralInteger, "2"),
        (TokenKind::SemiColon, ";"),
        (TokenKind::RightBrace, "}"),
        (TokenKind::Const, "const"),
        (TokenKind::Identifier, "N"),
        (TokenKind::Equals, "="),
        (TokenKind::LiteralInteger, "1"),
        (TokenKind::SemiColon, ";"),
        (TokenKind::RightBrace, "}"),
    ]);
    let mut found = Vec::new();
    leaves(NodeRef::Statement(&statement), &mut found);
    let offsets: Vec<usize> = found.iter().map(|span| span.start.offset).collect();
    assert_eq!(offsets, vec![6, 19, 23, 40, 46, 52, 66, 78, 82]);
    let mut sorted = offsets.clone();
    sorted.sort();
    assert_eq!(offsets, sorted);
}

#[test]
fn parent_starts_no_later_and_ends_no_earlier_than_its_children() {
    let statement = one(&FOREACH_KEY_VALUE);
    let Statement::Foreach(node) = &statement else { panic!("not a foreach") };
    let ForeachStatementBody::Block { colon, statements, ending, .. } = &node.body else {
        panic!("no block")
    };
    let Statement::Expression(inner) = &statements[0] else { panic!("no expression") };
    // the loop against its body
    assert!(node.foreach.start.offset <= colon.start.offset);
    assert!(ending.span().end.offset <= ending.span().end.offset);
    // the body against its statement
    let Expression::Variable(Variable::SimpleVariable(variable)) = &inner.expression else {
        panic!("no variable")
    };
    assert!(colon.start.offset <= variable.span.start.offset);
    assert!(inner.ending.span().end.offset <= ending.span().end.offset);
    assert_eq!(node.foreach.start.offset, 0);
    assert_eq!(colon.start.offset, 27);
    assert_eq!(variable.span.start.offset, 29);
    assert_eq!(inner.ending.span().end.offset, 33);
    assert_eq!(ending.span().end.offset, 46);
}

#[test]
fn comma_separated_list_hands_out_its_items() {
    let list: CommaSeparated<Expression> = CommaSeparated {
        inner: vec![plain("$a", 0), plain("$b", 5)],
        commas: vec![range(3, 1)],
    };
    assert_eq!(
        list.children(),
        vec![NodeRef::Expression(&plain("$a", 0)), NodeRef::Expression(&plain("$b", 5))]
    );
    let items: Vec<&Expression> = list.iter().collect();
    assert_eq!(items, vec![&plain("$a", 0), &plain("$b", 5)]);
    assert_eq!(list.len(), 2);
}

#[test]
fn comma_separated_list_lets_its_items_be_changed_and_taken() {
    let mut list: CommaSeparated<Expression> = CommaSeparated {
        inner: vec![plain("$a", 0), plain("$b", 5)],
        commas: vec![range(3, 1)],
    };
    for item in list.iter_mut() {
        *item = plain("$c", 9);
    }
    assert_eq!(list.inner, vec![plain("$c", 9), plain("$c", 9)]);
    assert_eq!(list.commas, vec![range(3, 1)]);
    let taken: Vec<Expression> = list.into_iter().collect();
    assert_eq!(taken, vec![plain("$c", 9), plain("$c", 9)]);
}

#[test]
fn comment_group_hands_out_its_comments_in_order() {
    let comments = vec![
        Comment { span: range(0, 4), format: CommentFormat::SingleLine, content: octets("// a") },
        Comment { span: range(5, 7), format: CommentFormat::MultiLine, content: octets("/* b */") },
        Comment { span: range(13, 3), format: CommentFormat::HashMark, content: octets("# c") },
        Comment { span: range(17, 8), format: CommentFormat::Document, content: octets("/** d */") },
    ];
    let group = CommentGroup { comments: comments.clone() };
    assert_eq!(group.len(), 4);
    assert_eq!(group.get(0), Some(&comments[0]));
    assert_eq!(group.get(3), Some(&comments[3]));
    assert_eq!(group.get(4), None);
    let seen: Vec<Comment> = group.iter().cloned().collect();
    assert_eq!(seen, comments);
    let formats: Vec<CommentFormat> = group.iter().map(|comment| comment.format).collect();
    assert_eq!(
        formats,
        vec![
            CommentFormat::SingleLine,
            CommentFormat::MultiLine,
            CommentFormat::HashMark,
            CommentFormat::Document,
        ]
    );
    let taken: Vec<Comment> = group.into_iter().collect();
    assert_eq!(taken, comments);
    assert_eq!(CommentGroup { comments: vec![] }.len(), 0);
    assert_eq!(CommentGroup { comments: vec![] }.iter().count(), 0);
}
