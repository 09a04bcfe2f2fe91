//! Traversal: every node hands out its direct children, in source order.

use vstd::prelude::*;
use crate::ast::atom::Atom;
use crate::ast::attributes::AttributeGroup;
use crate::ast::constants::ClassishConstant;
use crate::ast::expressions::Expression;
use crate::ast::expressions::ParenthesizedExpression;
use crate::ast::functions::AbstractConstructor;
use crate::ast::functions::AbstractMethod;
use crate::ast::functions::ConcreteConstructor;
use crate::ast::functions::ConcreteMethod;
use crate::ast::functions::FunctionParameterList;
use crate::ast::functions::MethodBody;
use crate::ast::identifiers::SimpleIdentifier;
use crate::ast::literals::Literal;
use crate::ast::literals::LiteralFloat;
use crate::ast::literals::LiteralInteger;
use crate::ast::literals::LiteralString;
use crate::ast::loops::BreakStatement;
use crate::ast::loops::ContinueStatement;
use crate::ast::loops::DoWhileStatement;
use crate::ast::loops::ForStatement;
use crate::ast::loops::ForStatementBody;
use crate::ast::loops::ForStatementIterator;
use crate::ast::loops::ForeachStatement;
use crate::ast::loops::ForeachStatementBody;
use crate::ast::loops::ForeachStatementIterator;
use crate::ast::loops::Level;
use crate::ast::loops::WhileStatement;
use crate::ast::loops::WhileStatementBody;
use crate::ast::namespaces::BracedNamespace;
use crate::ast::namespaces::BracedNamespaceBody;
use crate::ast::namespaces::NamespaceStatement;
use crate::ast::namespaces::UnbracedNamespace;
use crate::ast::properties::Property;
use crate::ast::properties::VariableProperty;
use crate::ast::statements::BlockStatement;
use crate::ast::statements::ExpressionStatement;
use crate::ast::statements::Statement;
use crate::ast::traits::TraitBody;
use crate::ast::traits::TraitMember;
use crate::ast::traits::TraitStatement;
use crate::ast::traits::TraitUsage;
use crate::ast::traits::TraitUsageAdaptation;
use crate::ast::utils::CommaSeparated;
use crate::ast::variables::BracedVariableVariable;
use crate::ast::variables::SimpleVariable;
use crate::ast::variables::Variable;
use crate::ast::variables::VariableVariable;

verus! {

/// A node of the tree, of whatever type.
#[derive(Debug, PartialEq, Eq, Clone, Copy)]
pub enum NodeRef<'a> {
    Statement(&'a Statement),
    Expression(&'a Expression),
    ParenthesizedExpression(&'a ParenthesizedExpression),
    Literal(&'a Literal),
    LiteralInteger(&'a LiteralInteger),
    LiteralFloat(&'a LiteralFloat),
    LiteralString(&'a LiteralString),
    Variable(&'a Variable),
    VariableVariable(&'a VariableVariable),
    BracedVariableVariable(&'a BracedVariableVariable),
    SimpleIdentifier(&'a SimpleIdentifier),
    SimpleVariable(&'a SimpleVariable),
    ForeachStatement(&'a ForeachStatement),
    ForeachStatementIterator(&'a ForeachStatementIterator),
    ForeachStatementBody(&'a ForeachStatementBody),
    ForStatement(&'a ForStatement),
    ForStatementIterator(&'a ForStatementIterator),
    ForStatementBody(&'a ForStatementBody),
    DoWhileStatement(&'a DoWhileStatement),
    WhileStatement(&'a WhileStatement),
    WhileStatementBody(&'a WhileStatementBody),
    Level(&'a Level),
    BreakStatement(&'a BreakStatement),
    ContinueStatement(&'a ContinueStatement),
    BlockStatement(&'a BlockStatement),
    ExpressionStatement(&'a ExpressionStatement),
    UnbracedNamespace(&'a UnbracedNamespace),
    BracedNamespace(&'a BracedNamespace),
    BracedNamespaceBody(&'a BracedNamespaceBody),
    NamespaceStatement(&'a NamespaceStatement),
    TraitStatement(&'a TraitStatement),
    TraitBody(&'a TraitBody),
    TraitMember(&'a TraitMember),
    TraitUsage(&'a TraitUsage),
    TraitUsageAdaptation(&'a TraitUsageAdaptation),
    ClassishConstant(&'a ClassishConstant),
    Property(&'a Property),
    VariableProperty(&'a VariableProperty),
    AbstractMethod(&'a AbstractMethod),
    AbstractConstructor(&'a AbstractConstructor),
    ConcreteMethod(&'a ConcreteMethod),
    ConcreteConstructor(&'a ConcreteConstructor),
    FunctionParameterList(&'a FunctionParameterList),
    MethodBody(&'a MethodBody),
    AttributeGroup(&'a AttributeGroup),
}

/// The statements, as nodes.
pub open spec fn statement_nodes<'a>(statements: Seq<Statement>) -> Seq<NodeRef<'a>> {
    Seq::new(statements.len(), |i: int| NodeRef::Statement(&statements[i]))
}

/// The expressions, as nodes.
pub open spec fn expression_nodes<'a>(expressions: Seq<Expression>) -> Seq<NodeRef<'a>> {
    Seq::new(expressions.len(), |i: int| NodeRef::Expression(&expressions[i]))
}

/// The names, as nodes.
pub open spec fn name_nodes<'a>(names: Seq<SimpleIdentifier>) -> Seq<NodeRef<'a>> {
    Seq::new(names.len(), |i: int| NodeRef::SimpleIdentifier(&names[i]))
}

/// The variables, as nodes.
pub open spec fn variable_nodes<'a>(variables: Seq<SimpleVariable>) -> Seq<NodeRef<'a>> {
    Seq::new(variables.len(), |i: int| NodeRef::SimpleVariable(&variables[i]))
}

/// The members, as nodes.
pub open spec fn member_nodes<'a>(members: Seq<TraitMember>) -> Seq<NodeRef<'a>> {
    Seq::new(members.len(), |i: int| NodeRef::TraitMember(&members[i]))
}

/// The child of a level: its literal, or the level between its
/// parentheses.
pub open spec fn level_children<'a>(level: Level) -> Seq<NodeRef<'a>> {
    match level {
        Level::Literal(literal) => seq![NodeRef::LiteralInteger(&literal)],
        Level::Parenthesized { level, .. } => seq![NodeRef::Level(&*level)],
    }
}

/// The attribute groups, as nodes.
pub open spec fn attribute_nodes<'a>(groups: Seq<AttributeGroup>) -> Seq<NodeRef<'a>> {
    Seq::new(groups.len(), |i: int| NodeRef::AttributeGroup(&groups[i]))
}

/// The adaptations, as nodes.
pub open spec fn adaptation_nodes<'a>(adaptations: Seq<TraitUsageAdaptation>) -> Seq<NodeRef<'a>> {
    Seq::new(adaptations.len(), |i: int| NodeRef::TraitUsageAdaptation(&adaptations[i]))
}

/// The method that an adaptation is about, as a node, behind its trait
/// where it names one.
pub open spec fn method_nodes<'a>(
    trait_name: Option<SimpleIdentifier>,
    method: SimpleIdentifier,
) -> Seq<NodeRef<'a>> {
    (match trait_name {
        Some(name) => seq![NodeRef::SimpleIdentifier(&name)],
        None => Seq::empty(),
    }) + seq![NodeRef::SimpleIdentifier(&method)]
}

/// The child of a member of a trait: the member that it is.
pub open spec fn member_children<'a>(member: TraitMember) -> Seq<NodeRef<'a>> {
    match member {
        TraitMember::Constant(node) => seq![NodeRef::ClassishConstant(&node)],
        TraitMember::TraitUsage(node) => seq![NodeRef::TraitUsage(&node)],
        TraitMember::Property(node) => seq![NodeRef::Property(&node)],
        TraitMember::VariableProperty(node) => seq![NodeRef::VariableProperty(&node)],
        TraitMember::AbstractMethod(node) => seq![NodeRef::AbstractMethod(&node)],
        TraitMember::AbstractConstructor(node) => seq![NodeRef::AbstractConstructor(&node)],
        TraitMember::ConcreteMethod(node) => seq![NodeRef::ConcreteMethod(&node)],
        TraitMember::ConcreteConstructor(node) => seq![NodeRef::ConcreteConstructor(&node)],
    }
}

/// The children of an adaptation: the names in it, in source order.
pub open spec fn adaptation_children<'a>(adaptation: TraitUsageAdaptation) -> Seq<NodeRef<'a>> {
    match adaptation {
        TraitUsageAdaptation::Alias { trait_name, method, alias, .. } => method_nodes(
            trait_name,
            method,
        ) + seq![NodeRef::SimpleIdentifier(&alias)],
        TraitUsageAdaptation::Visibility { trait_name, method, .. } => method_nodes(
            trait_name,
            method,
        ),
        TraitUsageAdaptation::Precedence { trait_name, method, insteadof } => method_nodes(
            trait_name,
            method,
        ) + name_nodes(insteadof@),
    }
}

impl<'a> NodeRef<'a> {
    /// The lexical atoms that the node keeps.
    pub open spec fn atoms(self) -> Seq<Atom> {
        match self {
            NodeRef::Statement(node) => node.atoms(),
            NodeRef::Expression(node) => node.atoms(),
            NodeRef::ParenthesizedExpression(node) => Expression::Parenthesized(*node).atoms(),
            NodeRef::Literal(node) => node.atoms(),
            NodeRef::LiteralInteger(node) => node.atoms(),
            NodeRef::LiteralFloat(node) => Literal::Float(*node).atoms(),
            NodeRef::LiteralString(node) => Literal::String(*node).atoms(),
            NodeRef::Variable(node) => node.atoms(),
            NodeRef::VariableVariable(node) => Variable::VariableVariable(*node).atoms(),
            NodeRef::BracedVariableVariable(node) => Variable::BracedVariableVariable(
                *node,
            ).atoms(),
            NodeRef::SimpleIdentifier(node) => node.atoms(),
            NodeRef::SimpleVariable(node) => node.atoms(),
            NodeRef::ForeachStatement(node) => node.atoms(),
            NodeRef::ForeachStatementIterator(node) => node.atoms(),
            NodeRef::ForeachStatementBody(node) => node.atoms(),
            NodeRef::ForStatement(node) => node.atoms(),
            NodeRef::ForStatementIterator(node) => node.atoms(),
            NodeRef::ForStatementBody(node) => node.atoms(),
            NodeRef::DoWhileStatement(node) => node.atoms(),
            NodeRef::WhileStatement(node) => node.atoms(),
            NodeRef::WhileStatementBody(node) => node.atoms(),
            NodeRef::Level(node) => node.atoms(),
            NodeRef::BreakStatement(node) => node.atoms(),
            NodeRef::ContinueStatement(node) => node.atoms(),
            NodeRef::BlockStatement(node) => node.atoms(),
            NodeRef::ExpressionStatement(node) => node.atoms(),
            NodeRef::UnbracedNamespace(node) => node.atoms(),
            NodeRef::BracedNamespace(node) => node.atoms(),
            NodeRef::BracedNamespaceBody(node) => node.atoms(),
            NodeRef::NamespaceStatement(node) => node.atoms(),
            NodeRef::TraitStatement(node) => node.atoms(),
            NodeRef::TraitBody(node) => node.atoms(),
            NodeRef::TraitMember(node) => node.atoms(),
            NodeRef::TraitUsage(node) => node.atoms(),
            NodeRef::TraitUsageAdaptation(node) => node.atoms(),
            NodeRef::ClassishConstant(node) => node.atoms(),
            NodeRef::Property(node) => node.atoms(),
            NodeRef::VariableProperty(node) => node.atoms(),
            NodeRef::AbstractMethod(node) => node.atoms(),
            NodeRef::AbstractConstructor(node) => node.atoms(),
            NodeRef::ConcreteMethod(node) => node.atoms(),
            NodeRef::ConcreteConstructor(node) => node.atoms(),
            NodeRef::FunctionParameterList(node) => node.atoms(),
            NodeRef::MethodBody(node) => node.atoms(),
            NodeRef::AttributeGroup(node) => node.atoms(),
        }
    }

    /// The direct children of the node, in source order. A node that is
    /// one of several kinds of node hands out the node that it is; a leaf
    /// hands out nothing.
    pub open spec fn child_nodes(self) -> Seq<NodeRef<'a>> {
        match self {
            NodeRef::Statement(node) => match *node {
                Statement::Foreach(inner) => seq![NodeRef::ForeachStatement(&inner)],
                Statement::For(inner) => seq![NodeRef::ForStatement(&inner)],
                Statement::DoWhile(inner) => seq![NodeRef::DoWhileStatement(&inner)],
                Statement::While(inner) => seq![NodeRef::WhileStatement(&inner)],
                Statement::Break(inner) => seq![NodeRef::BreakStatement(&inner)],
                Statement::Continue(inner) => seq![NodeRef::ContinueStatement(&inner)],
                Statement::Trait(inner) => seq![NodeRef::TraitStatement(&inner)],
                Statement::Block(inner) => seq![NodeRef::BlockStatement(&inner)],
                Statement::Expression(inner) => seq![NodeRef::ExpressionStatement(&inner)],
                Statement::Noop(_) => Seq::empty(),
            },
            NodeRef::Expression(node) => match *node {
                Expression::Literal(inner) => seq![NodeRef::Literal(&inner)],
                Expression::Variable(inner) => seq![NodeRef::Variable(&inner)],
                Expression::Parenthesized(inner) => seq![NodeRef::ParenthesizedExpression(&inner)],
            },
            NodeRef::ParenthesizedExpression(node) => seq![NodeRef::Expression(&*node.expr)],
            NodeRef::Literal(node) => match *node {
                Literal::Integer(inner) => seq![NodeRef::LiteralInteger(&inner)],
                Literal::Float(inner) => seq![NodeRef::LiteralFloat(&inner)],
                Literal::String(inner) => seq![NodeRef::LiteralString(&inner)],
            },
            NodeRef::Variable(node) => match *node {
                Variable::SimpleVariable(inner) => seq![NodeRef::SimpleVariable(&inner)],
                Variable::VariableVariable(inner) => seq![NodeRef::VariableVariable(&inner)],
                Variable::BracedVariableVariable(inner) => seq![
                    NodeRef::BracedVariableVariable(&inner),
                ],
            },
            NodeRef::VariableVariable(node) => seq![NodeRef::Variable(&*node.variable)],
            NodeRef::BracedVariableVariable(node) => seq![NodeRef::Expression(&*node.variable)],
            NodeRef::LiteralInteger(_) => Seq::empty(),
            NodeRef::LiteralFloat(_) => Seq::empty(),
            NodeRef::LiteralString(_) => Seq::empty(),
            NodeRef::SimpleIdentifier(_) => Seq::empty(),
            NodeRef::SimpleVariable(_) => Seq::empty(),
            NodeRef::ForeachStatement(node) => seq![
                NodeRef::ForeachStatementIterator(&node.iterator),
                NodeRef::ForeachStatementBody(&node.body),
            ],
            NodeRef::ForeachStatementIterator(node) => match *node {
                ForeachStatementIterator::Value { expression, value, .. } => seq![
                    NodeRef::Expression(&expression),
                    NodeRef::Expression(&value),
                ],
                ForeachStatementIterator::KeyAndValue { expression, key, value, .. } => seq![
                    NodeRef::Expression(&expression),
                    NodeRef::Expression(&key),
                    NodeRef::Expression(&value),
                ],
            },
            NodeRef::ForeachStatementBody(node) => match *node {
                ForeachStatementBody::Statement { statement } => seq![
                    NodeRef::Statement(&*statement),
                ],
                ForeachStatementBody::Block { statements, .. } => statement_nodes(statements@),
            },
            NodeRef::ForStatement(node) => seq![
                NodeRef::ForStatementIterator(&node.iterator),
                NodeRef::ForStatementBody(&node.body),
            ],
            NodeRef::ForStatementIterator(node) => expression_nodes(
                node.initializations.inner@,
            ) + expression_nodes(node.conditions.inner@) + expression_nodes(
                node.loop_list.inner@,
            ),
            NodeRef::ForStatementBody(node) => match *node {
                ForStatementBody::Statement { statement } => seq![NodeRef::Statement(&*statement)],
                ForStatementBody::Block { statements, .. } => statement_nodes(statements@),
            },
            NodeRef::DoWhileStatement(node) => seq![
                NodeRef::Statement(&*node.body),
                NodeRef::Expression(&node.condition),
            ],
            NodeRef::WhileStatement(node) => seq![
                NodeRef::Expression(&node.condition),
                NodeRef::WhileStatementBody(&node.body),
            ],
            NodeRef::WhileStatementBody(node) => match *node {
                WhileStatementBody::Statement { statement } => seq![
                    NodeRef::Statement(&*statement),
                ],
                WhileStatementBody::Block { statements, .. } => statement_nodes(statements@),
            },
            NodeRef::Level(node) => level_children(*node),
            NodeRef::BreakStatement(node) => match node.level {
                Some(level) => seq![NodeRef::Level(&level)],
                None => Seq::empty(),
            },
            NodeRef::ContinueStatement(node) => match node.level {
                Some(level) => seq![NodeRef::Level(&level)],
                None => Seq::empty(),
            },
            NodeRef::BlockStatement(node) => statement_nodes(node.statements@),
            NodeRef::ExpressionStatement(node) => seq![NodeRef::Expression(&node.expression)],
            NodeRef::UnbracedNamespace(node) => seq![NodeRef::SimpleIdentifier(&node.name)]
                + statement_nodes(node.statements@),
            NodeRef::BracedNamespace(node) => (match node.name {
                Some(name) => seq![NodeRef::SimpleIdentifier(&name)],
                None => Seq::empty(),
            }) + seq![NodeRef::BracedNamespaceBody(&node.body)],
            NodeRef::BracedNamespaceBody(node) => statement_nodes(node.statements@),
            NodeRef::NamespaceStatement(node) => match *node {
                NamespaceStatement::Unbraced(inner) => seq![NodeRef::UnbracedNamespace(&inner)],
                NamespaceStatement::Braced(inner) => seq![NodeRef::BracedNamespace(&inner)],
            },
            NodeRef::TraitStatement(node) => attribute_nodes(node.attributes@) + seq![
                NodeRef::SimpleIdentifier(&node.name),
                NodeRef::TraitBody(&node.body),
            ],
            NodeRef::TraitBody(node) => member_nodes(node.members@),
            NodeRef::TraitMember(node) => member_children(*node),
            NodeRef::TraitUsage(node) => name_nodes(node.traits@) + adaptation_nodes(
                node.adaptations@,
            ),
            NodeRef::TraitUsageAdaptation(node) => adaptation_children(*node),
            NodeRef::ClassishConstant(node) => attribute_nodes(node.attributes@) + seq![
                NodeRef::SimpleIdentifier(&node.name),
                NodeRef::Expression(&node.value),
            ],
            NodeRef::Property(node) => attribute_nodes(node.attributes@) + seq![
                NodeRef::SimpleVariable(&node.variable),
            ],
            NodeRef::VariableProperty(node) => attribute_nodes(node.attributes@) + seq![
                NodeRef::SimpleVariable(&node.variable),
            ],
            NodeRef::AbstractMethod(node) => attribute_nodes(node.attributes@) + seq![
                NodeRef::SimpleIdentifier(&node.name),
                NodeRef::FunctionParameterList(&node.parameters),
            ],
            NodeRef::AbstractConstructor(node) => attribute_nodes(node.attributes@) + seq![
                NodeRef::SimpleIdentifier(&node.name),
                NodeRef::FunctionParameterList(&node.parameters),
            ],
            NodeRef::ConcreteMethod(node) => attribute_nodes(node.attributes@) + seq![
                NodeRef::SimpleIdentifier(&node.name),
                NodeRef::FunctionParameterList(&node.parameters),
                NodeRef::MethodBody(&node.body),
            ],
            NodeRef::ConcreteConstructor(node) => attribute_nodes(node.attributes@) + seq![
                NodeRef::SimpleIdentifier(&node.name),
                NodeRef::FunctionParameterList(&node.parameters),
                NodeRef::MethodBody(&node.body),
            ],
            NodeRef::FunctionParameterList(node) => variable_nodes(node.parameters.inner@),
            NodeRef::MethodBody(node) => statement_nodes(node.statements@),
            NodeRef::AttributeGroup(node) => name_nodes(node.members.inner@),
        }
    }
}

/// Appends the statements, as nodes.
fn append_statements<'a>(nodes: &mut Vec<NodeRef<'a>>, statements: &'a Vec<Statement>)
    ensures
        final(nodes)@ == old(nodes)@ + statement_nodes(statements@),
{
    let ghost before = nodes@;
    let mut i: usize = 0;
    while i < statements.len()
        invariant
            i <= statements.len(),
            nodes@.len() == before.len() + i,
            forall|j: int| 0 <= j < before.len() ==> nodes@[j] == before[j],
            forall|j: int|
                0 <= j < i ==> nodes@[before.len() + j] == NodeRef::Statement(&statements@[j]),
        decreases statements.len() - i,
    {
        nodes.push(NodeRef::Statement(&statements[i]));
        i += 1;
    }
    assert(nodes@ =~= before + statement_nodes(statements@));
}

/// Appends the expressions, as nodes.
fn append_expressions<'a>(nodes: &mut Vec<NodeRef<'a>>, expressions: &'a Vec<Expression>)
    ensures
        final(nodes)@ == old(nodes)@ + expression_nodes(expressions@),
{
    let ghost before = nodes@;
    let mut i: usize = 0;
    while i < expressions.len()
        invariant
            i <= expressions.len(),
            nodes@.len() == before.len() + i,
            forall|j: int| 0 <= j < before.len() ==> nodes@[j] == before[j],
            forall|j: int|
                0 <= j < i ==> nodes@[before.len() + j] == NodeRef::Expression(&expressions@[j]),
        decreases expressions.len() - i,
    {
        nodes.push(NodeRef::Expression(&expressions[i]));
        i += 1;
    }
    assert(nodes@ =~= before + expression_nodes(expressions@));
}

/// Appends the names, as nodes.
fn append_names<'a>(nodes: &mut Vec<NodeRef<'a>>, names: &'a Vec<SimpleIdentifier>)
    ensures
        final(nodes)@ == old(nodes)@ + name_nodes(names@),
{
    let ghost before = nodes@;
    let mut i: usize = 0;
    while i < names.len()
        invariant
            i <= names.len(),
            nodes@.len() == before.len() + i,
            forall|j: int| 0 <= j < before.len() ==> nodes@[j] == before[j],
            forall|j: int|
                0 <= j < i ==> nodes@[before.len() + j] == NodeRef::SimpleIdentifier(&names@[j]),
        decreases names.len() - i,
    {
        nodes.push(NodeRef::SimpleIdentifier(&names[i]));
        i += 1;
    }
    assert(nodes@ =~= before + name_nodes(names@));
}

/// Appends the variables, as nodes.
fn append_variables<'a>(nodes: &mut Vec<NodeRef<'a>>, variables: &'a Vec<SimpleVariable>)
    ensures
        final(nodes)@ == old(nodes)@ + variable_nodes(variables@),
{
    let ghost before = nodes@;
    let mut i: usize = 0;
    while i < variables.len()
        invariant
            i <= variables.len(),
            nodes@.len() == before.len() + i,
            forall|j: int| 0 <= j < before.len() ==> nodes@[j] == before[j],
            forall|j: int|
                0 <= j < i ==> nodes@[before.len() + j] == NodeRef::SimpleVariable(&variables@[j]),
        decreases variables.len() - i,
    {
        nodes.push(NodeRef::SimpleVariable(&variables[i]));
        i += 1;
    }
    assert(nodes@ =~= before + variable_nodes(variables@));
}

/// Appends the members, as nodes.
fn append_members<'a>(nodes: &mut Vec<NodeRef<'a>>, members: &'a Vec<TraitMember>)
    ensures
        final(nodes)@ == old(nodes)@ + member_nodes(members@),
{
    let ghost before = nodes@;
    let mut i: usize = 0;
    while i < members.len()
        invariant
            i <= members.len(),
            nodes@.len() == before.len() + i,
            forall|j: int| 0 <= j < before.len() ==> nodes@[j] == before[j],
            forall|j: int|
                0 <= j < i ==> nodes@[before.len() + j] == NodeRef::TraitMember(&members@[j]),
        decreases members.len() - i,
    {
        nodes.push(NodeRef::TraitMember(&members[i]));
        i += 1;
    }
    assert(nodes@ =~= before + member_nodes(members@));
}

/// Appends the attribute groups, as nodes.
fn append_attributes<'a>(nodes: &mut Vec<NodeRef<'a>>, groups: &'a Vec<AttributeGroup>)
    ensures
        final(nodes)@ == old(nodes)@ + attribute_nodes(groups@),
{
    let ghost before = nodes@;
    let mut i: usize = 0;
    while i < groups.len()
        invariant
            i <= groups.len(),
            nodes@.len() == before.len() + i,
            forall|j: int| 0 <= j < before.len() ==> nodes@[j] == before[j],
            forall|j: int|
                0 <= j < i ==> nodes@[before.len() + j] == NodeRef::AttributeGroup(&groups@[j]),
        decreases groups.len() - i,
    {
        nodes.push(NodeRef::AttributeGroup(&groups[i]));
        i += 1;
    }
    assert(nodes@ =~= before + attribute_nodes(groups@));
}

/// Appends the adaptations, as nodes.
fn append_adaptations<'a>(
    nodes: &mut Vec<NodeRef<'a>>,
    adaptations: &'a Vec<TraitUsageAdaptation>,
)
    ensures
        final(nodes)@ == old(nodes)@ + adaptation_nodes(adaptations@),
{
    let ghost before = nodes@;
    let mut i: usize = 0;
    while i < adaptations.len()
        invariant
            i <= adaptations.len(),
            nodes@.len() == before.len() + i,
            forall|j: int| 0 <= j < before.len() ==> nodes@[j] == before[j],
            forall|j: int|
                0 <= j < i ==> nodes@[before.len() + j] == NodeRef::TraitUsageAdaptation(
                    &adaptations@[j],
                ),
        decreases adaptations.len() - i,
    {
        nodes.push(NodeRef::TraitUsageAdaptation(&adaptations[i]));
        i += 1;
    }
    assert(nodes@ =~= before + adaptation_nodes(adaptations@));
}

/// The method that an adaptation is about, as a node, behind its trait
/// where it names one.
fn method_children<'a>(
    trait_name: &'a Option<SimpleIdentifier>,
    method: &'a SimpleIdentifier,
) -> (r: Vec<NodeRef<'a>>)
    ensures
        r@ == method_nodes(*trait_name, *method),
{
    let mut nodes: Vec<NodeRef<'a>> = Vec::new();
    match trait_name {
        Some(name) => {
            nodes.push(NodeRef::SimpleIdentifier(name));
        },
        None => {},
    }
    nodes.push(NodeRef::SimpleIdentifier(method));
    assert(nodes@ =~= method_nodes(*trait_name, *method));
    nodes
}

/// The nodes of a run of statements.
fn statement_children<'a>(statements: &'a Vec<Statement>) -> (r: Vec<NodeRef<'a>>)
    ensures
        r@ == statement_nodes(statements@),
{
    let mut nodes: Vec<NodeRef<'a>> = Vec::new();
    append_statements(&mut nodes, statements);
    assert(nodes@ =~= statement_nodes(statements@));
    nodes
}

impl<'a> NodeRef<'a> {
    /// The direct children of the node, in source order.
    pub fn children(&self) -> (r: Vec<NodeRef<'a>>)
        ensures
            r@ == self.child_nodes(),
    {
        match *self {
            NodeRef::Statement(node) => match node {
                Statement::Foreach(inner) => vec![NodeRef::ForeachStatement(inner)],
                Statement::For(inner) => vec![NodeRef::ForStatement(inner)],
                Statement::DoWhile(inner) => vec![NodeRef::DoWhileStatement(inner)],
                Statement::While(inner) => vec![NodeRef::WhileStatement(inner)],
                Statement::Break(inner) => vec![NodeRef::BreakStatement(inner)],
                Statement::Continue(inner) => vec![NodeRef::ContinueStatement(inner)],
                Statement::Trait(inner) => vec![NodeRef::TraitStatement(inner)],
                Statement::Block(inner) => vec![NodeRef::BlockStatement(inner)],
                Statement::Expression(inner) => vec![NodeRef::ExpressionStatement(inner)],
                Statement::Noop(_) => Vec::new(),
            },
            NodeRef::Expression(node) => match node {
                Expression::Literal(inner) => vec![NodeRef::Literal(inner)],
                Expression::Variable(inner) => vec![NodeRef::Variable(inner)],
                Expression::Parenthesized(inner) => vec![NodeRef::ParenthesizedExpression(inner)],
            },
            NodeRef::ParenthesizedExpression(node) => vec![NodeRef::Expression(&*node.expr)],
            NodeRef::Literal(node) => match node {
                Literal::Integer(inner) => vec![NodeRef::LiteralInteger(inner)],
                Literal::Float(inner) => vec![NodeRef::LiteralFloat(inner)],
                Literal::String(inner) => vec![NodeRef::LiteralString(inner)],
            },
            NodeRef::Variable(node) => match node {
                Variable::SimpleVariable(inner) => vec![NodeRef::SimpleVariable(inner)],
                Variable::VariableVariable(inner) => vec![NodeRef::VariableVariable(inner)],
                Variable::BracedVariableVariable(inner) => vec![
                    NodeRef::BracedVariableVariable(inner),
                ],
            },
            NodeRef::VariableVariable(node) => vec![NodeRef::Variable(&*node.variable)],
            NodeRef::BracedVariableVariable(node) => vec![NodeRef::Expression(&*node.variable)],
            NodeRef::LiteralInteger(_) => Vec::new(),
            NodeRef::LiteralFloat(_) => Vec::new(),
            NodeRef::LiteralString(_) => Vec::new(),
            NodeRef::SimpleIdentifier(_) => Vec::new(),
            NodeRef::SimpleVariable(_) => Vec::new(),
            NodeRef::ForeachStatement(node) => vec![
                NodeRef::ForeachStatementIterator(&node.iterator),
                NodeRef::ForeachStatementBody(&node.body),
            ],
            NodeRef::ForeachStatementIterator(node) => match node {
                ForeachStatementIterator::Value { expression, value, .. } => vec![
                    NodeRef::Expression(expression),
                    NodeRef::Expression(value),
                ],
                ForeachStatementIterator::KeyAndValue { expression, key, value, .. } => vec![
                    NodeRef::Expression(expression),
                    NodeRef::Expression(key),
                    NodeRef::Expression(value),
                ],
            },
            NodeRef::ForeachStatementBody(node) => match node {
                ForeachStatementBody::Statement { statement } => vec![
                    NodeRef::Statement(&**statement),
                ],
                ForeachStatementBody::Block { statements, .. } => statement_children(statements),
            },
            NodeRef::ForStatement(node) => vec![
                NodeRef::ForStatementIterator(&node.iterator),
                NodeRef::ForStatementBody(&node.body),
            ],
            NodeRef::ForStatementIterator(node) => {
                let mut nodes: Vec<NodeRef<'a>> = Vec::new();
                append_expressions(&mut nodes, &node.initializations.inner);
                append_expressions(&mut nodes, &node.conditions.inner);
                append_expressions(&mut nodes, &node.loop_list.inner);
                assert(nodes@ =~= self.child_nodes());
                nodes
            },
            NodeRef::ForStatementBody(node) => match node {
                ForStatementBody::Statement { statement } => vec![
                    NodeRef::Statement(&**statement),
                ],
                ForStatementBody::Block { statements, .. } => statement_children(statements),
            },
            NodeRef::DoWhileStatement(node) => vec![
                NodeRef::Statement(&*node.body),
                NodeRef::Expression(&node.condition),
            ],
            NodeRef::WhileStatement(node) => vec![
                NodeRef::Expression(&node.condition),
                NodeRef::WhileStatementBody(&node.body),
            ],
            NodeRef::WhileStatementBody(node) => match node {
                WhileStatementBody::Statement { statement } => vec![
                    NodeRef::Statement(&**statement),
                ],
                WhileStatementBody::Block { statements, .. } => statement_children(statements),
            },
            NodeRef::Level(node) => match node {
                Level::Literal(literal) => vec![NodeRef::LiteralInteger(literal)],
                Level::Parenthesized { level, .. } => vec![NodeRef::Level(&**level)],
            },
            NodeRef::BreakStatement(node) => match &node.level {
                Some(level) => vec![NodeRef::Level(level)],
                None => Vec::new(),
            },
            NodeRef::ContinueStatement(node) => match &node.level {
                Some(level) => vec![NodeRef::Level(level)],
                None => Vec::new(),
            },
            NodeRef::BlockStatement(node) => statement_children(&node.statements),
            NodeRef::ExpressionStatement(node) => vec![NodeRef::Expression(&node.expression)],
            NodeRef::UnbracedNamespace(node) => {
                let mut nodes: Vec<NodeRef<'a>> = Vec::new();
                nodes.push(NodeRef::SimpleIdentifier(&node.name));
                append_statements(&mut nodes, &node.statements);
                assert(nodes@ =~= self.child_nodes());
                nodes
            },
            NodeRef::BracedNamespace(node) => {
                let mut nodes: Vec<NodeRef<'a>> = Vec::new();
                match &node.name {
                    Some(name) => {
                        nodes.push(NodeRef::SimpleIdentifier(name));
                    },
                    None => {},
                }
                nodes.push(NodeRef::BracedNamespaceBody(&node.body));
                assert(nodes@ =~= self.child_nodes());
                nodes
            },
            NodeRef::BracedNamespaceBody(node) => statement_children(&node.statements),
            NodeRef::NamespaceStatement(node) => match node {
                NamespaceStatement::Unbraced(inner) => vec![NodeRef::UnbracedNamespace(inner)],
                NamespaceStatement::Braced(inner) => vec![NodeRef::BracedNamespace(inner)],
            },
            NodeRef::TraitStatement(node) => {
                let mut nodes: Vec<NodeRef<'a>> = Vec::new();
                append_attributes(&mut nodes, &node.attributes);
                nodes.push(NodeRef::SimpleIdentifier(&node.name));
                nodes.push(NodeRef::TraitBody(&node.body));
                assert(nodes@ =~= self.child_nodes());
                nodes
            },
            NodeRef::TraitBody(node) => {
                let mut nodes: Vec<NodeRef<'a>> = Vec::new();
                append_members(&mut nodes, &node.members);
                assert(nodes@ =~= member_nodes(node.members@));
                nodes
            },
            NodeRef::TraitMember(node) => match node {
                TraitMember::Constant(inner) => vec![NodeRef::ClassishConstant(inner)],
                TraitMember::TraitUsage(inner) => vec![NodeRef::TraitUsage(inner)],
                TraitMember::Property(inner) => vec![NodeRef::Property(inner)],
                TraitMember::VariableProperty(inner) => vec![NodeRef::VariableProperty(inner)],
                TraitMember::AbstractMethod(inner) => vec![NodeRef::AbstractMethod(inner)],
                TraitMember::AbstractConstructor(inner) => vec![
                    NodeRef::AbstractConstructor(inner),
                ],
                TraitMember::ConcreteMethod(inner) => vec![NodeRef::ConcreteMethod(inner)],
                TraitMember::ConcreteConstructor(inner) => vec![
                    NodeRef::ConcreteConstructor(inner),
                ],
            },
            NodeRef::TraitUsage(node) => {
                let mut nodes: Vec<NodeRef<'a>> = Vec::new();
                append_names(&mut nodes, &node.traits);
                append_adaptations(&mut nodes, &node.adaptations);
                assert(nodes@ =~= self.child_nodes());
                nodes
            },
            NodeRef::TraitUsageAdaptation(node) => match node {
                TraitUsageAdaptation::Alias { trait_name, method, alias, .. } => {
                    let mut nodes = method_children(trait_name, method);
                    nodes.push(NodeRef::SimpleIdentifier(alias));
                    assert(nodes@ =~= self.child_nodes());
                    nodes
                },
                TraitUsageAdaptation::Visibility { trait_name, method, .. } => method_children(
                    trait_name,
                    method,
                ),
                TraitUsageAdaptation::Precedence { trait_name, method, insteadof } => {
                    let mut nodes = method_children(trait_name, method);
                    append_names(&mut nodes, insteadof);
                    nodes
                },
            },
            NodeRef::ClassishConstant(node) => {
                let mut nodes: Vec<NodeRef<'a>> = Vec::new();
                append_attributes(&mut nodes, &node.attributes);
                nodes.push(NodeRef::SimpleIdentifier(&node.name));
                nodes.push(NodeRef::Expression(&node.value));
                assert(nodes@ =~= self.child_nodes());
                nodes
            },
            NodeRef::Property(node) => {
                let mut nodes: Vec<NodeRef<'a>> = Vec::new();
                append_attributes(&mut nodes, &node.attributes);
                nodes.push(NodeRef::SimpleVariable(&node.variable));
                assert(nodes@ =~= self.child_nodes());
                nodes
            },
            NodeRef::VariableProperty(node) => {
                let mut nodes: Vec<NodeRef<'a>> = Vec::new();
                append_attributes(&mut nodes, &node.attributes);
                nodes.push(NodeRef::SimpleVariable(&node.variable));
                assert(nodes@ =~= self.child_nodes());
                nodes
            },
            NodeRef::AbstractMethod(node) => {
                let mut nodes: Vec<NodeRef<'a>> = Vec::new();
                append_attributes(&mut nodes, &node.attributes);
                nodes.push(NodeRef::SimpleIdentifier(&node.name));
                nodes.push(NodeRef::FunctionParameterList(&node.parameters));
                assert(nodes@ =~= self.child_nodes());
                nodes
            },
            NodeRef::AbstractConstructor(node) => {
                let mut nodes: Vec<NodeRef<'a>> = Vec::new();
                append_attributes(&mut nodes, &node.attributes);
                nodes.push(NodeRef::SimpleIdentifier(&node.name));
                nodes.push(NodeRef::FunctionParameterList(&node.parameters));
                assert(nodes@ =~= self.child_nodes());
                nodes
            },
            NodeRef::ConcreteMethod(node) => {
                let mut nodes: Vec<NodeRef<'a>> = Vec::new();
                append_attributes(&mut nodes, &node.attributes);
                nodes.push(NodeRef::SimpleIdentifier(&node.name));
                nodes.push(NodeRef::FunctionParameterList(&node.parameters));
                nodes.push(NodeRef::MethodBody(&node.body));
                assert(nodes@ =~= self.child_nodes());
                nodes
            },
            NodeRef::ConcreteConstructor(node) => {
                let mut nodes: Vec<NodeRef<'a>> = Vec::new();
                append_attributes(&mut nodes, &node.attributes);
                nodes.push(NodeRef::SimpleIdentifier(&node.name));
                nodes.push(NodeRef::FunctionParameterList(&node.parameters));
                nodes.push(NodeRef::MethodBody(&node.body));
                assert(nodes@ =~= self.child_nodes());
                nodes
            },
            NodeRef::FunctionParameterList(node) => {
                let mut nodes: Vec<NodeRef<'a>> = Vec::new();
                append_variables(&mut nodes, &node.parameters.inner);
                assert(nodes@ =~= variable_nodes(node.parameters.inner@));
                nodes
            },
            NodeRef::MethodBody(node) => statement_children(&node.statements),
            NodeRef::AttributeGroup(node) => {
                let mut nodes: Vec<NodeRef<'a>> = Vec::new();
                append_names(&mut nodes, &node.members.inner);
                assert(nodes@ =~= name_nodes(node.members.inner@));
                nodes
            },
        }
    }
}

impl ForeachStatement {
    /// The direct children of the node, in source order.
    pub fn children(&self) -> (r: Vec<NodeRef<'_>>)
        ensures
            r@ == NodeRef::ForeachStatement(self).child_nodes(),
    {
        NodeRef::ForeachStatement(self).children()
    }
}

impl ForeachStatementIterator {
    /// The direct children of the node, in source order.
    pub fn children(&self) -> (r: Vec<NodeRef<'_>>)
        ensures
            r@ == NodeRef::ForeachStatementIterator(self).child_nodes(),
    {
        NodeRef::ForeachStatementIterator(self).children()
    }
}

impl ForeachStatementBody {
    /// The direct children of the node, in source order.
    pub fn children(&self) -> (r: Vec<NodeRef<'_>>)
        ensures
            r@ == NodeRef::ForeachStatementBody(self).child_nodes(),
    {
        NodeRef::ForeachStatementBody(self).children()
    }
}

impl ForStatement {
    /// The direct children of the node, in source order.
    pub fn children(&self) -> (r: Vec<NodeRef<'_>>)
        ensures
            r@ == NodeRef::ForStatement(self).child_nodes(),
    {
        NodeRef::ForStatement(self).children()
    }
}

impl ForStatementIterator {
    /// The direct children of the node, in source order.
    pub fn children(&self) -> (r: Vec<NodeRef<'_>>)
        ensures
            r@ == NodeRef::ForStatementIterator(self).child_nodes(),
    {
        NodeRef::ForStatementIterator(self).children()
    }
}

impl ForStatementBody {
    /// The direct children of the node, in source order.
    pub fn children(&self) -> (r: Vec<NodeRef<'_>>)
        ensures
            r@ == NodeRef::ForStatementBody(self).child_nodes(),
    {
        NodeRef::ForStatementBody(self).children()
    }
}

impl DoWhileStatement {
    /// The direct children of the node, in source order.
    pub fn children(&self) -> (r: Vec<NodeRef<'_>>)
        ensures
            r@ == NodeRef::DoWhileStatement(self).child_nodes(),
    {
        NodeRef::DoWhileStatement(self).children()
    }
}

impl WhileStatement {
    /// The direct children of the node, in source order.
    pub fn children(&self) -> (r: Vec<NodeRef<'_>>)
        ensures
            r@ == NodeRef::WhileStatement(self).child_nodes(),
    {
        NodeRef::WhileStatement(self).children()
    }
}

impl WhileStatementBody {
    /// The direct children of the node, in source order.
    pub fn children(&self) -> (r: Vec<NodeRef<'_>>)
        ensures
            r@ == NodeRef::WhileStatementBody(self).child_nodes(),
    {
        NodeRef::WhileStatementBody(self).children()
    }
}

impl Level {
    /// The direct children of the node, in source order.
    pub fn children(&self) -> (r: Vec<NodeRef<'_>>)
        ensures
            r@ == NodeRef::Level(self).child_nodes(),
    {
        NodeRef::Level(self).children()
    }
}

impl BreakStatement {
    /// The direct children of the node, in source order.
    pub fn children(&self) -> (r: Vec<NodeRef<'_>>)
        ensures
            r@ == NodeRef::BreakStatement(self).child_nodes(),
    {
        NodeRef::BreakStatement(self).children()
    }
}

impl ContinueStatement {
    /// The direct children of the node, in source order.
    pub fn children(&self) -> (r: Vec<NodeRef<'_>>)
        ensures
            r@ == NodeRef::ContinueStatement(self).child_nodes(),
    {
        NodeRef::ContinueStatement(self).children()
    }
}

impl UnbracedNamespace {
    /// The direct children of the node, in source order.
    pub fn children(&self) -> (r: Vec<NodeRef<'_>>)
        ensures
            r@ == NodeRef::UnbracedNamespace(self).child_nodes(),
    {
        NodeRef::UnbracedNamespace(self).children()
    }
}

impl BracedNamespace {
    /// The direct children of the node, in source order.
    pub fn children(&self) -> (r: Vec<NodeRef<'_>>)
        ensures
            r@ == NodeRef::BracedNamespace(self).child_nodes(),
    {
        NodeRef::BracedNamespace(self).children()
    }
}

impl BracedNamespaceBody {
    /// The direct children of the node, in source order.
    pub fn children(&self) -> (r: Vec<NodeRef<'_>>)
        ensures
            r@ == NodeRef::BracedNamespaceBody(self).child_nodes(),
    {
        NodeRef::BracedNamespaceBody(self).children()
    }
}

impl NamespaceStatement {
    /// The direct children of the node, in source order.
    pub fn children(&self) -> (r: Vec<NodeRef<'_>>)
        ensures
            r@ == NodeRef::NamespaceStatement(self).child_nodes(),
    {
        NodeRef::NamespaceStatement(self).children()
    }
}

impl Statement {
    /// The direct children of the node, in source order.
    pub fn children(&self) -> (r: Vec<NodeRef<'_>>)
        ensures
            r@ == NodeRef::Statement(self).child_nodes(),
    {
        NodeRef::Statement(self).children()
    }
}

impl Expression {
    /// The direct children of the node, in source order.
    pub fn children(&self) -> (r: Vec<NodeRef<'_>>)
        ensures
            r@ == NodeRef::Expression(self).child_nodes(),
    {
        NodeRef::Expression(self).children()
    }
}

impl CommaSeparated<Expression> {
    /// The expressions of the list, as nodes, in their order.
    pub fn children(&self) -> (r: Vec<NodeRef<'_>>)
        ensures
            r@ == expression_nodes(self.inner@),
    {
        let mut nodes: Vec<NodeRef<'_>> = Vec::new();
        append_expressions(&mut nodes, &self.inner);
        assert(nodes@ =~= expression_nodes(self.inner@));
        nodes
    }
}

} // verus!
