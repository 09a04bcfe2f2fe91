//! Nesting: the atoms of a child are a run of the atoms of its parent, so
//! that, where the atoms stand in the order of the source, no child starts
//! before its parent or ends behind it.

use vstd::prelude::*;
use crate::ast::atom::Atom;
use crate::ast::atom::in_order;
use crate::ast::atom::lemma_part_in_order;
use crate::ast::atom::lemma_part_inside;
use crate::ast::atom::lemma_within_back;
use crate::ast::atom::lemma_within_front;
use crate::ast::atom::lemma_within_itself;
use crate::ast::atom::lemma_within_within;
use crate::ast::atom::mark;
use crate::ast::atom::within;
use crate::ast::attributes::AttributeGroup;
use crate::ast::attributes::groups_atoms;
use crate::ast::constants::ClassishConstant;
use crate::ast::expressions::Expression;
use crate::ast::expressions::ParenthesizedExpression;
use crate::ast::functions::AbstractConstructor;
use crate::ast::functions::AbstractMethod;
use crate::ast::functions::ConcreteConstructor;
use crate::ast::functions::ConcreteMethod;
use crate::ast::functions::FunctionParameterList;
use crate::ast::functions::MethodBody;
use crate::ast::functions::head_atoms;
use crate::ast::functions::lemma_concrete_constructor_atoms;
use crate::ast::functions::lemma_concrete_constructor_own_atoms;
use crate::ast::functions::lemma_concrete_method_atoms;
use crate::ast::functions::lemma_concrete_method_own_atoms;
use crate::ast::functions::lemma_method_body_atoms;
use crate::ast::identifiers::SimpleIdentifier;
use crate::ast::literals::Literal;
use crate::ast::loops::BreakStatement;
use crate::ast::loops::ContinueStatement;
use crate::ast::loops::DoWhileStatement;
use crate::ast::loops::ForStatement;
use crate::ast::loops::ForStatementBody;
use crate::ast::loops::ForStatementIterator;
use crate::ast::loops::ForeachStatement;
use crate::ast::loops::ForeachStatementBody;
use crate::ast::loops::ForeachStatementIterator;
use crate::ast::loops::Level;
use crate::ast::loops::WhileStatement;
use crate::ast::loops::WhileStatementBody;
use crate::ast::loops::lemma_do_while_statement_atoms;
use crate::ast::loops::lemma_for_statement_atoms;
use crate::ast::loops::lemma_for_statement_body_atoms;
use crate::ast::loops::lemma_foreach_statement_atoms;
use crate::ast::loops::lemma_foreach_statement_body_atoms;
use crate::ast::loops::lemma_while_statement_atoms;
use crate::ast::loops::lemma_while_statement_body_atoms;
use crate::ast::loops::level_atoms;
use crate::ast::loops::reference_atoms;
use crate::ast::namespaces::BracedNamespace;
use crate::ast::namespaces::BracedNamespaceBody;
use crate::ast::namespaces::NamespaceStatement;
use crate::ast::namespaces::UnbracedNamespace;
use crate::ast::node::NodeRef;
use crate::ast::node::attribute_nodes;
use crate::ast::node::method_nodes;
use crate::ast::properties::Property;
use crate::ast::properties::VariableProperty;
use crate::ast::statements::BlockStatement;
use crate::ast::statements::ExpressionStatement;
use crate::ast::statements::Statement;
use crate::ast::statements::lemma_block_statement_atoms;
use crate::ast::statements::lemma_statement_atoms;
use crate::ast::statements::lemma_statements_atoms;
use crate::ast::statements::statements_atoms;
use crate::ast::traits::TraitBody;
use crate::ast::traits::TraitMember;
use crate::ast::traits::TraitStatement;
use crate::ast::traits::TraitUsage;
use crate::ast::traits::TraitUsageAdaptation;
use crate::ast::traits::adaptations_atoms;
use crate::ast::traits::lemma_members_atoms;
use crate::ast::traits::lemma_trait_body_atoms;
use crate::ast::traits::lemma_trait_member_atoms;
use crate::ast::traits::lemma_trait_statement_atoms;
use crate::ast::traits::lemma_trait_statement_own_atoms;
use crate::ast::traits::members_atoms;
use crate::ast::traits::method_atoms;
use crate::ast::traits::names_atoms;
use crate::ast::traits::trait_name_atoms;
use crate::ast::traits::visibility_atoms;
use crate::ast::utils::expression_item;
use crate::ast::utils::expressions_atoms;
use crate::ast::utils::listed;
use crate::ast::utils::name_item;
use crate::ast::utils::names_list_atoms;
use crate::ast::utils::variable_item;
use crate::ast::utils::variables_atoms;
use crate::ast::variables::BracedVariableVariable;
use crate::ast::variables::SimpleVariable;
use crate::ast::variables::Variable;
use crate::ast::variables::VariableVariable;
use crate::span::Span;
use crate::token::TokenKind;

verus! {

/// Each of two joined runs is a run of both.
pub proof fn lemma_parts2(a: Seq<Atom>, b: Seq<Atom>)
    ensures
        within(a + b, a),
        within(a + b, b),
{
    lemma_within_itself(a);
    lemma_within_itself(b);
    lemma_within_front(a, b, a);
    lemma_within_back(a, b, b);
}

/// Each of three joined runs is a run of all.
pub proof fn lemma_parts3(a: Seq<Atom>, b: Seq<Atom>, c: Seq<Atom>)
    ensures
        within(a + b + c, a),
        within(a + b + c, b),
        within(a + b + c, c),
{
    lemma_parts2(a, b);
    lemma_parts2(a + b, c);
    lemma_within_within(a + b + c, a + b, a);
    lemma_within_within(a + b + c, a + b, b);
}

/// Each of four joined runs is a run of all.
pub proof fn lemma_parts4(a: Seq<Atom>, b: Seq<Atom>, c: Seq<Atom>, d: Seq<Atom>)
    ensures
        within(a + b + c + d, a),
        within(a + b + c + d, b),
        within(a + b + c + d, c),
        within(a + b + c + d, d),
{
    lemma_parts3(a, b, c);
    lemma_parts2(a + b + c, d);
    lemma_within_within(a + b + c + d, a + b + c, a);
    lemma_within_within(a + b + c + d, a + b + c, b);
    lemma_within_within(a + b + c + d, a + b + c, c);
}

/// Each of five joined runs is a run of all.
pub proof fn lemma_parts5(a: Seq<Atom>, b: Seq<Atom>, c: Seq<Atom>, d: Seq<Atom>, e: Seq<Atom>)
    ensures
        within(a + b + c + d + e, a),
        within(a + b + c + d + e, b),
        within(a + b + c + d + e, c),
        within(a + b + c + d + e, d),
        within(a + b + c + d + e, e),
{
    lemma_parts4(a, b, c, d);
    lemma_parts2(a + b + c + d, e);
    lemma_within_within(a + b + c + d + e, a + b + c + d, a);
    lemma_within_within(a + b + c + d + e, a + b + c + d, b);
    lemma_within_within(a + b + c + d + e, a + b + c + d, c);
    lemma_within_within(a + b + c + d + e, a + b + c + d, d);
}

/// Each of seven joined runs is a run of all.
pub proof fn lemma_parts7(
    a: Seq<Atom>,
    b: Seq<Atom>,
    c: Seq<Atom>,
    d: Seq<Atom>,
    e: Seq<Atom>,
    f: Seq<Atom>,
    g: Seq<Atom>,
)
    ensures
        within(a + b + c + d + e + f + g, a),
        within(a + b + c + d + e + f + g, b),
        within(a + b + c + d + e + f + g, c),
        within(a + b + c + d + e + f + g, d),
        within(a + b + c + d + e + f + g, e),
        within(a + b + c + d + e + f + g, f),
        within(a + b + c + d + e + f + g, g),
{
    lemma_parts5(a, b, c, d, e);
    let five = a + b + c + d + e;
    lemma_parts3(five, f, g);
    lemma_within_within(five + f + g, five, a);
    lemma_within_within(five + f + g, five, b);
    lemma_within_within(five + f + g, five, c);
    lemma_within_within(five + f + g, five, d);
    lemma_within_within(five + f + g, five, e);
}

/// The atoms of each statement are a run of the atoms of all.
pub proof fn lemma_statement_within(statements: Seq<Statement>, i: int)
    requires
        0 <= i < statements.len(),
    ensures
        within(statements_atoms(statements), statements[i].atoms()),
    decreases statements.len(),
{
    lemma_statements_atoms(statements);
    lemma_parts2(statements_atoms(statements.drop_last()), statements.last().atoms());
    if i < statements.len() - 1 {
        lemma_statement_within(statements.drop_last(), i);
        lemma_within_within(
            statements_atoms(statements),
            statements_atoms(statements.drop_last()),
            statements[i].atoms(),
        );
    }
}

/// The atoms of each member are a run of the atoms of all.
pub proof fn lemma_member_within(members: Seq<TraitMember>, i: int)
    requires
        0 <= i < members.len(),
    ensures
        within(members_atoms(members), members[i].atoms()),
    decreases members.len(),
{
    lemma_members_atoms(members);
    lemma_parts2(members_atoms(members.drop_last()), members.last().atoms());
    if i < members.len() - 1 {
        lemma_member_within(members.drop_last(), i);
        lemma_within_within(
            members_atoms(members),
            members_atoms(members.drop_last()),
            members[i].atoms(),
        );
    }
}

/// The atoms of each name are a run of the atoms of all.
pub proof fn lemma_name_within(names: Seq<SimpleIdentifier>, i: int)
    requires
        0 <= i < names.len(),
    ensures
        within(names_atoms(names), names[i].atoms()),
    decreases names.len(),
{
    lemma_parts2(names_atoms(names.drop_last()), names.last().atoms());
    if i < names.len() - 1 {
        lemma_name_within(names.drop_last(), i);
        lemma_within_within(names_atoms(names), names_atoms(names.drop_last()), names[i].atoms());
    }
}

/// The atoms of each of the first `n` items of a list are a run of the
/// atoms of these items.
pub proof fn lemma_item_within<T>(
    inner: Seq<T>,
    commas: Seq<Span>,
    item: spec_fn(T) -> Seq<Atom>,
    n: nat,
    i: int,
)
    requires
        0 <= i < n <= inner.len(),
    ensures
        within(listed(inner, commas, item, n), item(inner[i])),
    decreases n,
{
    let before = listed(inner, commas, item, (n - 1) as nat);
    let comma = if n - 1 < commas.len() {
        seq![mark(TokenKind::Comma, commas[n - 1])]
    } else {
        Seq::empty()
    };
    lemma_parts3(before, item(inner[n - 1]), comma);
    if i < n - 1 {
        lemma_item_within(inner, commas, item, (n - 1) as nat, i);
        lemma_within_within(listed(inner, commas, item, n), before, item(inner[i]));
    }
}

/// The atoms of each child of the node are a run of the atoms of the node.
pub open spec fn children_within(node: NodeRef) -> bool {
    forall|i: int|
        0 <= i < node.child_nodes().len() ==> within(
            node.atoms(),
            (#[trigger] node.child_nodes()[i]).atoms(),
        )
}

proof fn lemma_statement_children(node: Statement)
    ensures
        children_within(NodeRef::Statement(&node)),
{
    lemma_statement_atoms(node);
    lemma_within_itself(node.atoms());
}

proof fn lemma_expression_children(node: Expression)
    ensures
        children_within(NodeRef::Expression(&node)),
{
    lemma_within_itself(node.atoms());
}

proof fn lemma_parenthesized_expression_children(node: ParenthesizedExpression)
    ensures
        children_within(NodeRef::ParenthesizedExpression(&node)),
{
    lemma_parts3(
        seq![mark(TokenKind::LeftParen, node.start)],
        node.expr.atoms(),
        seq![mark(TokenKind::RightParen, node.end)],
    );
}

proof fn lemma_literal_children(node: Literal)
    ensures
        children_within(NodeRef::Literal(&node)),
{
    lemma_within_itself(node.atoms());
}

proof fn lemma_variable_children(node: Variable)
    ensures
        children_within(NodeRef::Variable(&node)),
{
    lemma_within_itself(node.atoms());
}

proof fn lemma_variable_variable_children(node: VariableVariable)
    ensures
        children_within(NodeRef::VariableVariable(&node)),
{
    lemma_parts2(seq![mark(TokenKind::Dollar, node.span)], node.variable.atoms());
}

proof fn lemma_braced_variable_variable_children(node: BracedVariableVariable)
    ensures
        children_within(NodeRef::BracedVariableVariable(&node)),
{
    lemma_parts3(
        seq![mark(TokenKind::DollarLeftBrace, node.start)],
        node.variable.atoms(),
        seq![mark(TokenKind::RightBrace, node.end)],
    );
}

proof fn lemma_foreach_statement_children(node: ForeachStatement)
    ensures
        children_within(NodeRef::ForeachStatement(&node)),
{
    lemma_foreach_statement_atoms(node);
    lemma_parts5(
        seq![mark(TokenKind::Foreach, node.foreach)],
        seq![mark(TokenKind::LeftParen, node.left_parenthesis)],
        node.iterator.atoms(),
        seq![mark(TokenKind::RightParen, node.right_parenthesis)],
        node.body.atoms(),
    );
}

proof fn lemma_for_statement_children(node: ForStatement)
    ensures
        children_within(NodeRef::ForStatement(&node)),
{
    lemma_for_statement_atoms(node);
    lemma_parts5(
        seq![mark(TokenKind::For, node.for_keyword)],
        seq![mark(TokenKind::LeftParen, node.left_parenthesis)],
        node.iterator.atoms(),
        seq![mark(TokenKind::RightParen, node.right_parenthesis)],
        node.body.atoms(),
    );
}

proof fn lemma_while_statement_children(node: WhileStatement)
    ensures
        children_within(NodeRef::WhileStatement(&node)),
{
    lemma_while_statement_atoms(node);
    lemma_parts5(
        seq![mark(TokenKind::While, node.while_keyword)],
        seq![mark(TokenKind::LeftParen, node.left_parenthesis)],
        node.condition.atoms(),
        seq![mark(TokenKind::RightParen, node.right_parenthesis)],
        node.body.atoms(),
    );
}

proof fn lemma_foreach_statement_iterator_children(node: ForeachStatementIterator)
    ensures
        children_within(NodeRef::ForeachStatementIterator(&node)),
{
    match node {
        ForeachStatementIterator::Value { expression, as_keyword, ampersand, value } => {
            lemma_parts4(
                expression.atoms(),
                seq![mark(TokenKind::As, as_keyword)],
                reference_atoms(ampersand),
                value.atoms(),
            );
        },
        ForeachStatementIterator::KeyAndValue {
            expression,
            as_keyword,
            ampersand,
            key,
            double_arrow,
            value,
        } => {
            lemma_parts7(
                expression.atoms(),
                seq![mark(TokenKind::As, as_keyword)],
                if node.reference_leads() {
                    reference_atoms(ampersand)
                } else {
                    Seq::empty()
                },
                key.atoms(),
                seq![mark(TokenKind::DoubleArrow, double_arrow)],
                if node.reference_leads() {
                    Seq::empty()
                } else {
                    reference_atoms(ampersand)
                },
                value.atoms(),
            );
        },
    }
}

proof fn lemma_foreach_statement_body_children(node: ForeachStatementBody)
    ensures
        children_within(NodeRef::ForeachStatementBody(&node)),
{
    lemma_foreach_statement_body_atoms(node);
    match node {
        ForeachStatementBody::Statement { statement } => {
            lemma_within_itself(statement.atoms());
        },
        ForeachStatementBody::Block { colon, statements, endforeach, ending } => {
            lemma_parts4(
                seq![mark(TokenKind::Colon, colon)],
                statements_atoms(statements@),
                seq![mark(TokenKind::EndForeach, endforeach)],
                ending.atoms(),
            );
            assert forall|i: int| 0 <= i < statements@.len() implies within(
                node.atoms(),
                #[trigger] statements@[i].atoms(),
            ) by {
                lemma_statement_within(statements@, i);
                lemma_within_within(
                    node.atoms(),
                    statements_atoms(statements@),
                    statements@[i].atoms(),
                );
            }
        },
    }
}

proof fn lemma_for_statement_body_children(node: ForStatementBody)
    ensures
        children_within(NodeRef::ForStatementBody(&node)),
{
    lemma_for_statement_body_atoms(node);
    match node {
        ForStatementBody::Statement { statement } => {
            lemma_within_itself(statement.atoms());
        },
        ForStatementBody::Block { colon, statements, endfor, ending } => {
            lemma_parts4(
                seq![mark(TokenKind::Colon, colon)],
                statements_atoms(statements@),
                seq![mark(TokenKind::EndFor, endfor)],
                ending.atoms(),
            );
            assert forall|i: int| 0 <= i < statements@.len() implies within(
                node.atoms(),
                #[trigger] statements@[i].atoms(),
            ) by {
                lemma_statement_within(statements@, i);
                lemma_within_within(
                    node.atoms(),
                    statements_atoms(statements@),
                    statements@[i].atoms(),
                );
            }
        },
    }
}

proof fn lemma_while_statement_body_children(node: WhileStatementBody)
    ensures
        children_within(NodeRef::WhileStatementBody(&node)),
{
    lemma_while_statement_body_atoms(node);
    match node {
        WhileStatementBody::Statement { statement } => {
            lemma_within_itself(statement.atoms());
        },
        WhileStatementBody::Block { colon, statements, endwhile, ending } => {
            lemma_parts4(
                seq![mark(TokenKind::Colon, colon)],
                statements_atoms(statements@),
                seq![mark(TokenKind::EndWhile, endwhile)],
                ending.atoms(),
            );
            assert forall|i: int| 0 <= i < statements@.len() implies within(
                node.atoms(),
                #[trigger] statements@[i].atoms(),
            ) by {
                lemma_statement_within(statements@, i);
                lemma_within_within(
                    node.atoms(),
                    statements_atoms(statements@),
                    statements@[i].atoms(),
                );
            }
        },
    }
}

proof fn lemma_for_statement_iterator_children(node: ForStatementIterator)
    ensures
        children_within(NodeRef::ForStatementIterator(&node)),
{
    let first = node.initializations;
    let second = node.conditions;
    let third = node.loop_list;
    lemma_parts5(
        expressions_atoms(first),
        seq![mark(TokenKind::SemiColon, node.initializations_semicolon)],
        expressions_atoms(second),
        seq![mark(TokenKind::SemiColon, node.conditions_semicolon)],
        expressions_atoms(third),
    );
    let children = NodeRef::ForStatementIterator(&node).child_nodes();
    assert forall|i: int| 0 <= i < children.len() implies within(
        node.atoms(),
        (#[trigger] children[i]).atoms(),
    ) by {
        let a = first.inner@.len() as int;
        let b = second.inner@.len() as int;
        if i < a {
            lemma_item_within(first.inner@, first.commas@, expression_item(), a as nat, i);
            lemma_within_within(node.atoms(), expressions_atoms(first), first.inner@[i].atoms());
        } else if i < a + b {
            lemma_item_within(second.inner@, second.commas@, expression_item(), b as nat, i - a);
            lemma_within_within(
                node.atoms(),
                expressions_atoms(second),
                second.inner@[i - a].atoms(),
            );
        } else {
            let c = third.inner@.len();
            lemma_item_within(third.inner@, third.commas@, expression_item(), c, i - a - b);
            lemma_within_within(
                node.atoms(),
                expressions_atoms(third),
                third.inner@[i - a - b].atoms(),
            );
        }
    }
}

proof fn lemma_do_while_statement_children(node: DoWhileStatement)
    ensures
        children_within(NodeRef::DoWhileStatement(&node)),
{
    lemma_do_while_statement_atoms(node);
    lemma_parts7(
        seq![mark(TokenKind::Do, node.do_keyword)],
        node.body.atoms(),
        seq![mark(TokenKind::While, node.while_keyword)],
        seq![mark(TokenKind::LeftParen, node.left_parenthesis)],
        node.condition.atoms(),
        seq![mark(TokenKind::RightParen, node.right_parenthesis)],
        seq![mark(TokenKind::SemiColon, node.semicolon)],
    );
}

proof fn lemma_level_children(node: Level)
    ensures
        children_within(NodeRef::Level(&node)),
{
    match node {
        Level::Literal(literal) => {
            lemma_within_itself(literal.atoms());
        },
        Level::Parenthesized { left_parenthesis, level, right_parenthesis } => {
            lemma_parts3(
                seq![mark(TokenKind::LeftParen, left_parenthesis)],
                level.atoms(),
                seq![mark(TokenKind::RightParen, right_parenthesis)],
            );
        },
    }
}

proof fn lemma_break_statement_children(node: BreakStatement)
    ensures
        children_within(NodeRef::BreakStatement(&node)),
{
    lemma_parts3(
        seq![mark(TokenKind::Break, node.break_keyword)],
        level_atoms(node.level),
        node.ending.atoms(),
    );
}

proof fn lemma_continue_statement_children(node: ContinueStatement)
    ensures
        children_within(NodeRef::ContinueStatement(&node)),
{
    lemma_parts3(
        seq![mark(TokenKind::Continue, node.continue_keyword)],
        level_atoms(node.level),
        node.ending.atoms(),
    );
}

proof fn lemma_block_statement_children(node: BlockStatement)
    ensures
        children_within(NodeRef::BlockStatement(&node)),
{
    lemma_block_statement_atoms(node);
    lemma_parts3(
        seq![mark(TokenKind::LeftBrace, node.left_brace)],
        statements_atoms(node.statements@),
        seq![mark(TokenKind::RightBrace, node.right_brace)],
    );
    assert forall|i: int| 0 <= i < node.statements@.len() implies within(
        node.atoms(),
        #[trigger] node.statements@[i].atoms(),
    ) by {
        lemma_statement_within(node.statements@, i);
        lemma_within_within(
            node.atoms(),
            statements_atoms(node.statements@),
            node.statements@[i].atoms(),
        );
    }
}

proof fn lemma_expression_statement_children(node: ExpressionStatement)
    ensures
        children_within(NodeRef::ExpressionStatement(&node)),
{
    lemma_parts2(node.expression.atoms(), node.ending.atoms());
}

proof fn lemma_unbraced_namespace_children(node: UnbracedNamespace)
    ensures
        children_within(NodeRef::UnbracedNamespace(&node)),
{
    lemma_parts4(
        seq![mark(TokenKind::Namespace, node.start)],
        node.name.atoms(),
        seq![mark(TokenKind::SemiColon, node.end)],
        statements_atoms(node.statements@),
    );
    let children = NodeRef::UnbracedNamespace(&node).child_nodes();
    assert forall|i: int| 0 <= i < children.len() implies within(
        node.atoms(),
        (#[trigger] children[i]).atoms(),
    ) by {
        if i > 0 {
            lemma_statement_within(node.statements@, i - 1);
            lemma_within_within(
                node.atoms(),
                statements_atoms(node.statements@),
                node.statements@[i - 1].atoms(),
            );
        }
    }
}

proof fn lemma_braced_namespace_body_children(node: BracedNamespaceBody)
    ensures
        children_within(NodeRef::BracedNamespaceBody(&node)),
{
    lemma_parts3(
        seq![mark(TokenKind::LeftBrace, node.start)],
        statements_atoms(node.statements@),
        seq![mark(TokenKind::RightBrace, node.end)],
    );
    assert forall|i: int| 0 <= i < node.statements@.len() implies within(
        node.atoms(),
        #[trigger] node.statements@[i].atoms(),
    ) by {
        lemma_statement_within(node.statements@, i);
        lemma_within_within(
            node.atoms(),
            statements_atoms(node.statements@),
            node.statements@[i].atoms(),
        );
    }
}

proof fn lemma_braced_namespace_children(node: BracedNamespace)
    ensures
        children_within(NodeRef::BracedNamespace(&node)),
{
    lemma_parts3(
        seq![mark(TokenKind::Namespace, node.namespace)],
        match node.name {
            Some(name) => name.atoms(),
            None => Seq::empty(),
        },
        node.body.atoms(),
    );
}

proof fn lemma_namespace_statement_children(node: NamespaceStatement)
    ensures
        children_within(NodeRef::NamespaceStatement(&node)),
{
    lemma_within_itself(node.atoms());
}

proof fn lemma_trait_statement_children(node: TraitStatement)
    ensures
        children_within(NodeRef::TraitStatement(&node)),
{
    lemma_trait_statement_atoms(node);
    lemma_trait_statement_own_atoms(node);
    lemma_parts3(
        seq![mark(TokenKind::Trait, node.trait_keyword)],
        node.name.atoms(),
        node.body.atoms(),
    );
    lemma_member_children_within(
        node.attributes@,
        Seq::empty(),
        node.own_atoms(),
        seq![NodeRef::SimpleIdentifier(&node.name), NodeRef::TraitBody(&node.body)],
    );
    assert(groups_atoms(node.attributes@) + Seq::<Atom>::empty() + node.own_atoms()
        =~= node.atoms());
}

proof fn lemma_trait_body_children(node: TraitBody)
    ensures
        children_within(NodeRef::TraitBody(&node)),
{
    lemma_trait_body_atoms(node);
    lemma_parts3(
        seq![mark(TokenKind::LeftBrace, node.left_brace)],
        members_atoms(node.members@),
        seq![mark(TokenKind::RightBrace, node.right_brace)],
    );
    assert forall|i: int| 0 <= i < node.members@.len() implies within(
        node.atoms(),
        #[trigger] node.members@[i].atoms(),
    ) by {
        lemma_member_within(node.members@, i);
        lemma_within_within(node.atoms(), members_atoms(node.members@), node.members@[i].atoms());
    }
}

/// The atoms of each adaptation are a run of the atoms of all.
pub proof fn lemma_adaptation_within(adaptations: Seq<TraitUsageAdaptation>, i: int)
    requires
        0 <= i < adaptations.len(),
    ensures
        within(adaptations_atoms(adaptations), adaptations[i].atoms()),
    decreases adaptations.len(),
{
    lemma_parts2(adaptations_atoms(adaptations.drop_last()), adaptations.last().atoms());
    if i < adaptations.len() - 1 {
        lemma_adaptation_within(adaptations.drop_last(), i);
        lemma_within_within(
            adaptations_atoms(adaptations),
            adaptations_atoms(adaptations.drop_last()),
            adaptations[i].atoms(),
        );
    }
}

/// The atoms of the name and of the parameters of a method are runs of
/// the atoms of the method from `function` on, and so is `tail`, with which
/// these end: the atoms of the body, or `;`.
proof fn lemma_method_parts(
    function: Span,
    name: SimpleIdentifier,
    parameters: FunctionParameterList,
    tail: Seq<Atom>,
)
    ensures
        within(head_atoms(function, name, parameters) + tail, name.atoms()),
        within(head_atoms(function, name, parameters) + tail, parameters.atoms()),
        within(head_atoms(function, name, parameters) + tail, tail),
{
    let head = head_atoms(function, name, parameters);
    let own = head + tail;
    lemma_parts2(head, tail);
    lemma_parts3(seq![mark(TokenKind::Function, function)], name.atoms(), parameters.atoms());
    lemma_within_within(own, head, name.atoms());
    lemma_within_within(own, head, parameters.atoms());
}

proof fn lemma_trait_member_children(node: TraitMember)
    ensures
        children_within(NodeRef::TraitMember(&node)),
{
    lemma_trait_member_atoms(node);
    lemma_within_itself(node.atoms());
}

proof fn lemma_trait_usage_children(node: TraitUsage)
    ensures
        children_within(NodeRef::TraitUsage(&node)),
{
    lemma_parts3(
        seq![mark(TokenKind::Use, node.use_keyword)],
        names_atoms(node.traits@),
        adaptations_atoms(node.adaptations@),
    );
    let children = NodeRef::TraitUsage(&node).child_nodes();
    assert forall|i: int| 0 <= i < children.len() implies within(
        node.atoms(),
        (#[trigger] children[i]).atoms(),
    ) by {
        let names = node.traits@.len() as int;
        if i < names {
            lemma_name_within(node.traits@, i);
            lemma_within_within(node.atoms(), names_atoms(node.traits@), node.traits@[i].atoms());
        } else {
            lemma_adaptation_within(node.adaptations@, i - names);
            lemma_within_within(
                node.atoms(),
                adaptations_atoms(node.adaptations@),
                node.adaptations@[i - names].atoms(),
            );
        }
    }
}

/// The atoms of the method that an adaptation is about, and of its trait
/// where it names one, are runs of the atoms of both.
proof fn lemma_method_nodes_within(trait_name: Option<SimpleIdentifier>, method: SimpleIdentifier)
    ensures
        forall|i: int|
            0 <= i < method_nodes(trait_name, method).len() ==> within(
                method_atoms(trait_name, method),
                (#[trigger] method_nodes(trait_name, method)[i]).atoms(),
            ),
{
    lemma_parts2(trait_name_atoms(trait_name), method.atoms());
}

proof fn lemma_trait_usage_adaptation_children(node: TraitUsageAdaptation)
    ensures
        children_within(NodeRef::TraitUsageAdaptation(&node)),
{
    reveal(TraitUsageAdaptation::atoms);
    let children = NodeRef::TraitUsageAdaptation(&node).child_nodes();
    match node {
        TraitUsageAdaptation::Alias { trait_name, method, alias, visibility } => {
            let named = method_atoms(trait_name, method);
            lemma_method_nodes_within(trait_name, method);
            lemma_parts3(named, visibility_atoms(visibility), alias.atoms());
            assert forall|i: int| 0 <= i < children.len() implies within(
                node.atoms(),
                (#[trigger] children[i]).atoms(),
            ) by {
                if i < method_nodes(trait_name, method).len() {
                    assert(children[i] == method_nodes(trait_name, method)[i]);
                    lemma_within_within(node.atoms(), named, children[i].atoms());
                }
            }
        },
        TraitUsageAdaptation::Visibility { trait_name, method, visibility } => {
            let named = method_atoms(trait_name, method);
            lemma_method_nodes_within(trait_name, method);
            lemma_parts2(named, visibility.atoms());
            assert forall|i: int| 0 <= i < children.len() implies within(
                node.atoms(),
                (#[trigger] children[i]).atoms(),
            ) by {
                lemma_within_within(node.atoms(), named, children[i].atoms());
            }
        },
        TraitUsageAdaptation::Precedence { trait_name, method, insteadof } => {
            let named = method_atoms(trait_name, method);
            lemma_method_nodes_within(trait_name, method);
            lemma_parts2(named, names_atoms(insteadof@));
            assert forall|i: int| 0 <= i < children.len() implies within(
                node.atoms(),
                (#[trigger] children[i]).atoms(),
            ) by {
                let first = method_nodes(trait_name, method).len() as int;
                if i < first {
                    assert(children[i] == method_nodes(trait_name, method)[i]);
                    lemma_within_within(node.atoms(), named, children[i].atoms());
                } else {
                    lemma_name_within(insteadof@, i - first);
                    lemma_within_within(
                        node.atoms(),
                        names_atoms(insteadof@),
                        insteadof@[i - first].atoms(),
                    );
                }
            }
        },
    }
}

/// The atoms of each attribute group are a run of the atoms of all.
pub proof fn lemma_group_within(groups: Seq<AttributeGroup>, i: int)
    requires
        0 <= i < groups.len(),
    ensures
        within(groups_atoms(groups), groups[i].atoms()),
    decreases groups.len(),
{
    lemma_parts2(groups_atoms(groups.drop_last()), groups.last().atoms());
    if i < groups.len() - 1 {
        lemma_group_within(groups.drop_last(), i);
        lemma_within_within(
            groups_atoms(groups),
            groups_atoms(groups.drop_last()),
            groups[i].atoms(),
        );
    }
}

/// The children of a member are its attribute groups and then `rest`: if
/// the atoms of each node of `rest` are a run of the atoms of the member
/// from its keyword on, the atoms of each child are a run of all its atoms.
proof fn lemma_member_children_within(
    attributes: Seq<AttributeGroup>,
    modifiers: Seq<Atom>,
    own: Seq<Atom>,
    rest: Seq<NodeRef>,
)
    requires
        forall|j: int| 0 <= j < rest.len() ==> within(own, (#[trigger] rest[j]).atoms()),
    ensures
        forall|i: int|
            0 <= i < (attribute_nodes(attributes) + rest).len() ==> within(
                groups_atoms(attributes) + modifiers + own,
                (#[trigger] (attribute_nodes(attributes) + rest)[i]).atoms(),
            ),
{
    let groups = groups_atoms(attributes);
    let all = groups + modifiers + own;
    let children = attribute_nodes(attributes) + rest;
    lemma_parts3(groups, modifiers, own);
    assert forall|i: int| 0 <= i < children.len() implies within(
        all,
        (#[trigger] children[i]).atoms(),
    ) by {
        if i < attributes.len() {
            lemma_group_within(attributes, i);
            lemma_within_within(all, groups, attributes[i].atoms());
        } else {
            let j = i - attributes.len();
            assert(children[i] == rest[j]);
            lemma_within_within(all, own, rest[j].atoms());
        }
    }
}

proof fn lemma_classish_constant_children(node: ClassishConstant)
    ensures
        children_within(NodeRef::ClassishConstant(&node)),
{
    lemma_parts5(
        seq![mark(TokenKind::Const, node.const_keyword)],
        node.name.atoms(),
        seq![mark(TokenKind::Equals, node.equals)],
        node.value.atoms(),
        seq![mark(TokenKind::SemiColon, node.semicolon)],
    );
    lemma_member_children_within(
        node.attributes@,
        node.modifiers.atoms(),
        node.own_atoms(),
        seq![NodeRef::SimpleIdentifier(&node.name), NodeRef::Expression(&node.value)],
    );
}

proof fn lemma_property_children(node: Property)
    ensures
        children_within(NodeRef::Property(&node)),
{
    lemma_parts2(node.variable.atoms(), seq![mark(TokenKind::SemiColon, node.end)]);
    lemma_member_children_within(
        node.attributes@,
        node.modifiers.atoms(),
        node.own_atoms(),
        seq![NodeRef::SimpleVariable(&node.variable)],
    );
}

proof fn lemma_variable_property_children(node: VariableProperty)
    ensures
        children_within(NodeRef::VariableProperty(&node)),
{
    lemma_parts3(
        seq![mark(TokenKind::Var, node.var)],
        node.variable.atoms(),
        seq![mark(TokenKind::SemiColon, node.end)],
    );
    lemma_member_children_within(
        node.attributes@,
        Seq::empty(),
        node.own_atoms(),
        seq![NodeRef::SimpleVariable(&node.variable)],
    );
    assert(groups_atoms(node.attributes@) + Seq::<Atom>::empty() + node.own_atoms()
        =~= node.atoms());
}

proof fn lemma_abstract_method_children(node: AbstractMethod)
    ensures
        children_within(NodeRef::AbstractMethod(&node)),
{
    let tail = seq![mark(TokenKind::SemiColon, node.semicolon)];
    lemma_method_parts(node.function, node.name, node.parameters, tail);
    lemma_member_children_within(
        node.attributes@,
        node.modifiers.atoms(),
        node.own_atoms(),
        seq![
            NodeRef::SimpleIdentifier(&node.name),
            NodeRef::FunctionParameterList(&node.parameters),
        ],
    );
}

proof fn lemma_abstract_constructor_children(node: AbstractConstructor)
    ensures
        children_within(NodeRef::AbstractConstructor(&node)),
{
    let tail = seq![mark(TokenKind::SemiColon, node.semicolon)];
    lemma_method_parts(node.function, node.name, node.parameters, tail);
    lemma_member_children_within(
        node.attributes@,
        node.modifiers.atoms(),
        node.own_atoms(),
        seq![
            NodeRef::SimpleIdentifier(&node.name),
            NodeRef::FunctionParameterList(&node.parameters),
        ],
    );
}

proof fn lemma_concrete_method_children(node: ConcreteMethod)
    ensures
        children_within(NodeRef::ConcreteMethod(&node)),
{
    lemma_concrete_method_atoms(node);
    lemma_concrete_method_own_atoms(node);
    lemma_method_parts(node.function, node.name, node.parameters, node.body.atoms());
    lemma_member_children_within(
        node.attributes@,
        node.modifiers.atoms(),
        node.own_atoms(),
        seq![
            NodeRef::SimpleIdentifier(&node.name),
            NodeRef::FunctionParameterList(&node.parameters),
            NodeRef::MethodBody(&node.body),
        ],
    );
}

proof fn lemma_concrete_constructor_children(node: ConcreteConstructor)
    ensures
        children_within(NodeRef::ConcreteConstructor(&node)),
{
    lemma_concrete_constructor_atoms(node);
    lemma_concrete_constructor_own_atoms(node);
    lemma_method_parts(node.function, node.name, node.parameters, node.body.atoms());
    lemma_member_children_within(
        node.attributes@,
        node.modifiers.atoms(),
        node.own_atoms(),
        seq![
            NodeRef::SimpleIdentifier(&node.name),
            NodeRef::FunctionParameterList(&node.parameters),
            NodeRef::MethodBody(&node.body),
        ],
    );
}

proof fn lemma_attribute_group_children(node: AttributeGroup)
    ensures
        children_within(NodeRef::AttributeGroup(&node)),
{
    let list = node.members;
    lemma_parts3(
        seq![mark(TokenKind::Attribute, node.start)],
        names_list_atoms(list),
        seq![mark(TokenKind::RightBracket, node.end)],
    );
    assert forall|i: int| 0 <= i < list.inner@.len() implies within(
        node.atoms(),
        (#[trigger] list.inner@[i]).atoms(),
    ) by {
        lemma_item_within(list.inner@, list.commas@, name_item(), list.inner@.len(), i);
        lemma_within_within(node.atoms(), names_list_atoms(list), list.inner@[i].atoms());
    }
}

proof fn lemma_function_parameter_list_children(node: FunctionParameterList)
    ensures
        children_within(NodeRef::FunctionParameterList(&node)),
{
    let list = node.parameters;
    lemma_parts3(
        seq![mark(TokenKind::LeftParen, node.left_parenthesis)],
        variables_atoms(list),
        seq![mark(TokenKind::RightParen, node.right_parenthesis)],
    );
    assert forall|i: int| 0 <= i < list.inner@.len() implies within(
        node.atoms(),
        (#[trigger] list.inner@[i]).atoms(),
    ) by {
        lemma_item_within(list.inner@, list.commas@, variable_item(), list.inner@.len(), i);
        lemma_within_within(node.atoms(), variables_atoms(list), list.inner@[i].atoms());
    }
}

proof fn lemma_method_body_children(node: MethodBody)
    ensures
        children_within(NodeRef::MethodBody(&node)),
{
    lemma_method_body_atoms(node);
    lemma_parts3(
        seq![mark(TokenKind::LeftBrace, node.left_brace)],
        statements_atoms(node.statements@),
        seq![mark(TokenKind::RightBrace, node.right_brace)],
    );
    assert forall|i: int| 0 <= i < node.statements@.len() implies within(
        node.atoms(),
        (#[trigger] node.statements@[i]).atoms(),
    ) by {
        lemma_statement_within(node.statements@, i);
        lemma_within_within(
            node.atoms(),
            statements_atoms(node.statements@),
            node.statements@[i].atoms(),
        );
    }
}

/// The atoms of each child of a node are a run of the atoms of the node.
pub proof fn lemma_children_within(node: NodeRef)
    ensures
        children_within(node),
{
    match node {
        NodeRef::Statement(inner) => lemma_statement_children(*inner),
        NodeRef::Expression(inner) => lemma_expression_children(*inner),
        NodeRef::ParenthesizedExpression(inner) => lemma_parenthesized_expression_children(
            *inner,
        ),
        NodeRef::Literal(inner) => lemma_literal_children(*inner),
        NodeRef::LiteralFloat(_) => {},
        NodeRef::LiteralString(_) => {},
        NodeRef::Variable(inner) => lemma_variable_children(*inner),
        NodeRef::VariableVariable(inner) => lemma_variable_variable_children(*inner),
        NodeRef::BracedVariableVariable(inner) => lemma_braced_variable_variable_children(
            *inner,
        ),
        NodeRef::LiteralInteger(_) => {},
        NodeRef::SimpleIdentifier(_) => {},
        NodeRef::SimpleVariable(_) => {},
        NodeRef::ForeachStatement(inner) => lemma_foreach_statement_children(*inner),
        NodeRef::ForeachStatementIterator(inner) => lemma_foreach_statement_iterator_children(
            *inner,
        ),
        NodeRef::ForeachStatementBody(inner) => lemma_foreach_statement_body_children(*inner),
        NodeRef::ForStatement(inner) => lemma_for_statement_children(*inner),
        NodeRef::ForStatementIterator(inner) => lemma_for_statement_iterator_children(*inner),
        NodeRef::ForStatementBody(inner) => lemma_for_statement_body_children(*inner),
        NodeRef::DoWhileStatement(inner) => lemma_do_while_statement_children(*inner),
        NodeRef::WhileStatement(inner) => lemma_while_statement_children(*inner),
        NodeRef::WhileStatementBody(inner) => lemma_while_statement_body_children(*inner),
        NodeRef::Level(inner) => lemma_level_children(*inner),
        NodeRef::BreakStatement(inner) => lemma_break_statement_children(*inner),
        NodeRef::ContinueStatement(inner) => lemma_continue_statement_children(*inner),
        NodeRef::BlockStatement(inner) => lemma_block_statement_children(*inner),
        NodeRef::ExpressionStatement(inner) => lemma_expression_statement_children(*inner),
        NodeRef::UnbracedNamespace(inner) => lemma_unbraced_namespace_children(*inner),
        NodeRef::BracedNamespace(inner) => lemma_braced_namespace_children(*inner),
        NodeRef::BracedNamespaceBody(inner) => lemma_braced_namespace_body_children(*inner),
        NodeRef::NamespaceStatement(inner) => lemma_namespace_statement_children(*inner),
        NodeRef::TraitStatement(inner) => lemma_trait_statement_children(*inner),
        NodeRef::TraitBody(inner) => lemma_trait_body_children(*inner),
        NodeRef::TraitMember(inner) => lemma_trait_member_children(*inner),
        NodeRef::TraitUsage(inner) => lemma_trait_usage_children(*inner),
        NodeRef::TraitUsageAdaptation(inner) => lemma_trait_usage_adaptation_children(*inner),
        NodeRef::ClassishConstant(inner) => lemma_classish_constant_children(*inner),
        NodeRef::Property(inner) => lemma_property_children(*inner),
        NodeRef::VariableProperty(inner) => lemma_variable_property_children(*inner),
        NodeRef::AbstractMethod(inner) => lemma_abstract_method_children(*inner),
        NodeRef::AbstractConstructor(inner) => lemma_abstract_constructor_children(*inner),
        NodeRef::ConcreteMethod(inner) => lemma_concrete_method_children(*inner),
        NodeRef::ConcreteConstructor(inner) => lemma_concrete_constructor_children(*inner),
        NodeRef::FunctionParameterList(inner) => lemma_function_parameter_list_children(*inner),
        NodeRef::MethodBody(inner) => lemma_method_body_children(*inner),
        NodeRef::AttributeGroup(inner) => lemma_attribute_group_children(*inner),
    }
}

/// Span monotonicity. Where the atoms of a node stand in the order of the
/// source, the node starts no later than any of its children, and ends no
/// earlier: its first span starts at or before the start of the child's
/// first span, and its last span ends at or behind the end of the child's
/// last span. The atoms of the child stand in order too, so that the same
/// holds of the child and its children. (The atoms of a node that the
/// parser read stand in order wherever the spans of the tokens do: that is
/// what `placed` says of them.)
pub proof fn lemma_span_monotonicity(node: NodeRef, i: int)
    requires
        in_order(node.atoms()),
        0 <= i < node.child_nodes().len(),
    ensures
        in_order(node.child_nodes()[i].atoms()),
        node.child_nodes()[i].atoms().len() > 0 ==> {
            &&& node.atoms().first().span.start.offset <= node.child_nodes()[i].atoms().first().span.start.offset
            &&& node.child_nodes()[i].atoms().last().span.end.offset
                <= node.atoms().last().span.end.offset
        },
{
    lemma_children_within(node);
    lemma_part_in_order(node.atoms(), node.child_nodes()[i].atoms());
    if node.child_nodes()[i].atoms().len() > 0 {
        lemma_part_inside(node.atoms(), node.child_nodes()[i].atoms());
    }
}

/// Where the atoms of a run of statements stand in order, so do those of
/// each of the statements.
pub proof fn lemma_statement_in_order(statements: Seq<Statement>, i: int)
    requires
        in_order(statements_atoms(statements)),
        0 <= i < statements.len(),
    ensures
        in_order(statements[i].atoms()),
{
    lemma_statement_within(statements, i);
    lemma_part_in_order(statements_atoms(statements), statements[i].atoms());
}

} // verus!
