//! Methods.

use vstd::prelude::*;
use crate::ast::atom::Atom;
use crate::ast::atom::mark;
use crate::ast::attributes::AttributeGroup;
use crate::ast::functions::AbstractConstructor;
use crate::ast::functions::AbstractMethod;
use crate::ast::functions::ConcreteConstructor;
use crate::ast::functions::ConcreteMethod;
use crate::ast::functions::FunctionParameterList;
use crate::ast::functions::Method;
use crate::ast::functions::MethodBody;
use crate::ast::functions::head_atoms;
use crate::ast::functions::lemma_concrete_constructor_own_atoms;
use crate::ast::functions::lemma_concrete_method_own_atoms;
use crate::ast::functions::lemma_method_body_atoms;
use crate::ast::functions::lemma_method_own_atoms;
use crate::ast::identifiers::IdentifierForm;
use crate::ast::identifiers::SimpleIdentifier;
use crate::ast::modifiers::ModifierGroup;
use crate::ast::statements::statements_atoms;
use crate::ast::utils::CommaSeparated;
use crate::ast::utils::lemma_listed_prefix;
use crate::ast::utils::listed;
use crate::ast::utils::variable_item;
use crate::ast::utils::variables_atoms;
use crate::ast::variables::SimpleVariable;
use crate::bytestring::ByteString;
use crate::parser::blocks::block_statement_extent;
use crate::parser::blocks::lemma_block_statement_extent;
use crate::parser::blocks::multiple_statements_until;
use crate::parser::blocks::statement_start;
use crate::parser::blocks::statements_stand_at;
use crate::parser::error::Expectation;
use crate::parser::error::Extent;
use crate::parser::error::Failure;
use crate::parser::error::ParseError;
use crate::parser::error::ParseResult;
use crate::parser::error::kind_at;
use crate::parser::error::later;
use crate::parser::error::span_at;
use crate::parser::error::stopped;
use crate::parser::identifiers::identifier;
use crate::parser::identifiers::name_extent;
use crate::parser::lossless::lemma_lossless_join3;
use crate::parser::lossless::lemma_lossless_join;
use crate::parser::lossless::lemma_lossless_mark;
use crate::parser::lossless::lemma_lossless_nothing;
use crate::parser::lossless::lossless;
use crate::parser::state::State;
use crate::parser::state::parsed;
use crate::parser::traits::names_width;
use crate::parser::utils::after;
use crate::parser::utils::closing;
use crate::parser::utils::opening;
use crate::parser::utils::remaining;
use crate::parser::utils::skip;
use crate::parser::utils::skip_left_brace;
use crate::parser::utils::skip_left_parenthesis;
use crate::parser::utils::skip_right_brace;
use crate::parser::utils::skip_right_parenthesis;
use crate::parser::utils::skip_semicolon;
use crate::parser::utils::value_at;
use crate::parser::variables::simple_variable;
use crate::parser::variables::simple_variable_extent;
use crate::span::Span;
use crate::token::Token;
use crate::token::TokenKind;

verus! {

/// Parameters parted by commas, up to `)`, which is left in place. A comma
/// directly before `)` is reported, as not being `)`.
pub open spec fn parameters_extent(tokens: Seq<Token>, pos: int) -> Extent
    decreases remaining(tokens, pos),
{
    if kind_at(tokens, pos) == TokenKind::RightParen {
        Ok(0)
    } else {
        match simple_variable_extent(tokens, pos) {
            Err(e) => Err(e),
            Ok(_) => if kind_at(tokens, pos + 1) != TokenKind::Comma {
                Ok(1)
            } else if kind_at(tokens, pos + 2) == TokenKind::RightParen {
                stopped(tokens, pos, pos + 1, Expectation::Token(TokenKind::RightParen))
            } else {
                after(2, parameters_extent(tokens, pos + 2))
            },
        }
    }
}

/// `(`, parameters, `)`.
pub open spec fn parameter_list_extent(tokens: Seq<Token>, pos: int) -> Extent {
    opening(
        tokens,
        pos,
        TokenKind::LeftParen,
        closing(tokens, pos + 1, parameters_extent(tokens, pos + 1), TokenKind::RightParen),
    )
}

/// What closes a method: `;` where it has no body, else the body in braces.
#[verifier::opaque]
pub open spec fn method_tail_extent(tokens: Seq<Token>, pos: int) -> Extent
    decreases remaining(tokens, pos), 1int,
{
    if kind_at(tokens, pos) == TokenKind::SemiColon {
        Ok(1)
    } else {
        block_statement_extent(tokens, pos)
    }
}

/// The definition of `method_tail_extent`, unfolded once.
pub proof fn lemma_method_tail_extent(tokens: Seq<Token>, pos: int)
    ensures
        method_tail_extent(tokens, pos) == {
            if kind_at(tokens, pos) == TokenKind::SemiColon {
                Ok(1)
            } else {
                block_statement_extent(tokens, pos)
            }
        },
{
    reveal_with_fuel(method_tail_extent, 1);
    reveal_with_fuel(block_statement_extent, 1);
}

/// `function`, a name, the parameters, and `;` or a body.
#[verifier::opaque]
pub open spec fn method_extent(tokens: Seq<Token>, pos: int) -> Extent
    decreases remaining(tokens, pos), 2int,
{
    if kind_at(tokens, pos) == TokenKind::Function {
        match name_extent(tokens, pos + 1, IdentifierForm::Unqualified) {
            Err(e) => later(1, e),
            Ok(_) => match parameter_list_extent(tokens, pos + 2) {
                Err(e) => later(2, e),
                Ok(n) => after(2 + n, method_tail_extent(tokens, pos + 2 + n)),
            },
        }
    } else {
        stopped(tokens, pos, pos, Expectation::Token(TokenKind::Function))
    }
}

/// The definition of `method_extent`, unfolded once.
pub proof fn lemma_method_extent(tokens: Seq<Token>, pos: int)
    ensures
        method_extent(tokens, pos) == {
            if kind_at(tokens, pos) == TokenKind::Function {
                match name_extent(tokens, pos + 1, IdentifierForm::Unqualified) {
                    Err(e) => later(1, e),
                    Ok(_) => match parameter_list_extent(tokens, pos + 2) {
                        Err(e) => later(2, e),
                        Ok(n) => after(2 + n, method_tail_extent(tokens, pos + 2 + n)),
                    },
                }
            } else {
                stopped(tokens, pos, pos, Expectation::Token(TokenKind::Function))
            }
        },
{
    reveal_with_fuel(method_extent, 1);
    reveal_with_fuel(method_tail_extent, 1);
}

/// `__construct`, as bytes.
pub open spec fn constructor_name() -> Seq<u8> {
    seq![95u8, 95u8, 99u8, 111u8, 110u8, 115u8, 116u8, 114u8, 117u8, 99u8, 116u8]
}

/// Whether the name is that of a constructor: `__construct`.
pub open spec fn names_constructor(name: Seq<u8>) -> bool {
    name == constructor_name()
}

/// Whether the name is that of a constructor.
pub fn is_constructor_name(name: &ByteString) -> (r: bool)
    ensures
        r == names_constructor(name@),
{
    let expected: [u8; 11] = [95, 95, 99, 111, 110, 115, 116, 114, 117, 99, 116];
    assert(expected@ =~= constructor_name());
    if name.bytes.len() != 11 {
        return false;
    }
    let mut i: usize = 0;
    while i < 11
        invariant
            i <= 11,
            name.bytes@.len() == 11,
            expected@ == constructor_name(),
            forall|j: int| 0 <= j < i ==> #[trigger] name@[j] == constructor_name()[j],
        decreases 11 - i,
    {
        if name.bytes[i] != expected[i] {
            assert(name@[i as int] != constructor_name()[i as int]);
            return false;
        }
        i += 1;
    }
    assert(name@ =~= constructor_name());
    true
}

impl FunctionParameterList {
    /// The node is the tree of the parameter list that starts at `pos`.
    pub open spec fn stands_at(self, tokens: Seq<Token>, pos: int) -> bool {
        let variables = self.parameters.inner@;
        let commas = self.parameters.commas@;
        &&& self.left_parenthesis == span_at(tokens, pos)
        &&& self.parameters.no_trailing()
        &&& forall|i: int|
            0 <= i < variables.len() ==> (#[trigger] variables[i]).stands_at(
                tokens,
                pos + 1 + 2 * i,
            )
        &&& forall|i: int|
            0 <= i < commas.len() ==> #[trigger] commas[i] == span_at(tokens, pos + 2 + 2 * i)
        &&& parameters_extent(tokens, pos + 1) == Ok::<nat, Failure>(
            names_width(variables.len()),
        )
        &&& self.right_parenthesis == span_at(tokens, pos + 1 + names_width(variables.len()))
    }
}

impl MethodBody {
    /// The node is the tree of the body that starts at `pos`.
    #[verifier::opaque]
    pub open spec fn stands_at(self, tokens: Seq<Token>, pos: int) -> bool
        decreases self, 1int,
    {
        let end = statement_start(tokens, pos + 1, self.statements@.len());
        &&& self.left_brace == span_at(tokens, pos)
        &&& statements_stand_at(self.statements@, tokens, pos + 1)
        &&& kind_at(tokens, end) == TokenKind::RightBrace
        &&& self.right_brace == span_at(tokens, end)
    }
}

/// The definition of `MethodBody::stands_at`, unfolded once.
pub proof fn lemma_method_body_stands_at(node: MethodBody, tokens: Seq<Token>, pos: int)
    ensures
        node.stands_at(tokens, pos) == {
            let end = statement_start(tokens, pos + 1, node.statements@.len());
            &&& node.left_brace == span_at(tokens, pos)
            &&& statements_stand_at(node.statements@, tokens, pos + 1)
            &&& kind_at(tokens, end) == TokenKind::RightBrace
            &&& node.right_brace == span_at(tokens, end)
        },
{
    reveal_with_fuel(MethodBody::stands_at, 1);
    reveal_with_fuel(statements_stand_at, 1);
}

/// `function`, the name and the parameters are those read from `pos` on.
pub open spec fn head_stands_at(
    function: Span,
    name: SimpleIdentifier,
    parameters: FunctionParameterList,
    tokens: Seq<Token>,
    pos: int,
) -> bool {
    &&& function == span_at(tokens, pos)
    &&& name.stands_at(tokens, pos + 1)
    &&& parameters.stands_at(tokens, pos + 2)
}

/// Where the `;` or the body of the method that starts at `pos` stands.
pub open spec fn tail_at(tokens: Seq<Token>, pos: int) -> int {
    match parameter_list_extent(tokens, pos + 2) {
        Ok(n) => pos + 2 + n,
        Err(_) => pos,
    }
}

/// Whether `;` closes the method that starts at `pos`, so that it has no body.
pub open spec fn closed_at(tokens: Seq<Token>, pos: int) -> bool {
    kind_at(tokens, tail_at(tokens, pos)) == TokenKind::SemiColon
}

/// Whether the method that starts at `pos` is a constructor by its name.
pub open spec fn constructor_at(tokens: Seq<Token>, pos: int) -> bool {
    names_constructor(value_at(tokens, pos + 1))
}

impl AbstractMethod {
    /// The node, but for its attributes and modifiers, is the tree of the
    /// method that starts with `function` at `pos`.
    pub open spec fn stands_at(self, tokens: Seq<Token>, pos: int) -> bool {
        &&& closed_at(tokens, pos) && !constructor_at(tokens, pos)
        &&& head_stands_at(self.function, self.name, self.parameters, tokens, pos)
        &&& self.semicolon == span_at(tokens, tail_at(tokens, pos))
    }
}

impl AbstractConstructor {
    /// The node, but for its attributes and modifiers, is the tree of the
    /// constructor that starts with `function` at `pos`.
    pub open spec fn stands_at(self, tokens: Seq<Token>, pos: int) -> bool {
        &&& closed_at(tokens, pos) && constructor_at(tokens, pos)
        &&& head_stands_at(self.function, self.name, self.parameters, tokens, pos)
        &&& self.semicolon == span_at(tokens, tail_at(tokens, pos))
    }
}

impl ConcreteMethod {
    /// The node, but for its attributes and modifiers, is the tree of the
    /// method that starts with `function` at `pos`.
    #[verifier::opaque]
    pub open spec fn stands_at(self, tokens: Seq<Token>, pos: int) -> bool
        decreases self, 2int,
    {
        &&& !closed_at(tokens, pos) && !constructor_at(tokens, pos)
        &&& head_stands_at(self.function, self.name, self.parameters, tokens, pos)
        &&& self.body.stands_at(tokens, tail_at(tokens, pos))
    }
}

/// The definition of `ConcreteMethod::stands_at`, unfolded once.
pub proof fn lemma_concrete_method_stands_at(node: ConcreteMethod, tokens: Seq<Token>, pos: int)
    ensures
        node.stands_at(tokens, pos) == {
            &&& !closed_at(tokens, pos) && !constructor_at(tokens, pos)
            &&& head_stands_at(node.function, node.name, node.parameters, tokens, pos)
            &&& node.body.stands_at(tokens, tail_at(tokens, pos))
        },
{
    reveal_with_fuel(ConcreteMethod::stands_at, 1);
    reveal_with_fuel(MethodBody::stands_at, 1);
}

impl ConcreteConstructor {
    /// The node, but for its attributes and modifiers, is the tree of the
    /// constructor that starts with `function` at `pos`.
    #[verifier::opaque]
    pub open spec fn stands_at(self, tokens: Seq<Token>, pos: int) -> bool
        decreases self, 2int,
    {
        &&& !closed_at(tokens, pos) && constructor_at(tokens, pos)
        &&& head_stands_at(self.function, self.name, self.parameters, tokens, pos)
        &&& self.body.stands_at(tokens, tail_at(tokens, pos))
    }
}

/// The definition of `ConcreteConstructor::stands_at`, unfolded once.
pub proof fn lemma_concrete_constructor_stands_at(
    node: ConcreteConstructor,
    tokens: Seq<Token>,
    pos: int,
)
    ensures
        node.stands_at(tokens, pos) == {
            &&& !closed_at(tokens, pos) && constructor_at(tokens, pos)
            &&& head_stands_at(node.function, node.name, node.parameters, tokens, pos)
            &&& node.body.stands_at(tokens, tail_at(tokens, pos))
        },
{
    reveal_with_fuel(ConcreteConstructor::stands_at, 1);
    reveal_with_fuel(MethodBody::stands_at, 1);
}

impl Method {
    /// The node, but for its attributes and modifiers, is the tree of the
    /// method that starts with `function` at `pos`: without a body where
    /// `;` closes it, and a constructor where its name says so.
    #[verifier::opaque]
    pub open spec fn stands_at(self, tokens: Seq<Token>, pos: int) -> bool
        decreases self, 3int,
    {
        match self {
            Method::Abstract(node) => node.stands_at(tokens, pos),
            Method::AbstractConstructor(node) => node.stands_at(tokens, pos),
            Method::Concrete(node) => node.stands_at(tokens, pos),
            Method::ConcreteConstructor(node) => node.stands_at(tokens, pos),
        }
    }

    /// The attribute groups of the method.
    pub open spec fn attributes(self) -> Seq<AttributeGroup> {
        match self {
            Method::Abstract(node) => node.attributes@,
            Method::AbstractConstructor(node) => node.attributes@,
            Method::Concrete(node) => node.attributes@,
            Method::ConcreteConstructor(node) => node.attributes@,
        }
    }

    /// The modifiers of the method.
    pub open spec fn modifiers(self) -> ModifierGroup {
        match self {
            Method::Abstract(node) => node.modifiers,
            Method::AbstractConstructor(node) => node.modifiers,
            Method::Concrete(node) => node.modifiers,
            Method::ConcreteConstructor(node) => node.modifiers,
        }
    }
}

/// The definition of `Method::stands_at`, unfolded once.
pub proof fn lemma_method_stands_at(node: Method, tokens: Seq<Token>, pos: int)
    ensures
        node.stands_at(tokens, pos) == {
            match node {
                Method::Abstract(node) => node.stands_at(tokens, pos),
                Method::AbstractConstructor(node) => node.stands_at(tokens, pos),
                Method::Concrete(node) => node.stands_at(tokens, pos),
                Method::ConcreteConstructor(node) => node.stands_at(tokens, pos),
            }
        },
{
    reveal_with_fuel(Method::stands_at, 1);
    reveal_with_fuel(ConcreteMethod::stands_at, 1);
    reveal_with_fuel(ConcreteConstructor::stands_at, 1);
}

/// Reads the parameters between `(` and `)`.
fn parameters(state: &mut State) -> (r: ParseResult<CommaSeparated<SimpleVariable>>)
    requires
        old(state).wf(),
    ensures
        parsed(
            *old(state),
            *final(state),
            parameters_extent(old(state).tokens@, old(state).cursor as int),
            r,
        ),
        final(state).attributes@ == old(state).attributes@,
        r matches Ok(list) ==> {
            let tokens = old(state).tokens@;
            let pos = old(state).cursor as int;
            &&& list.no_trailing()
            &&& forall|i: int|
                0 <= i < list.inner@.len() ==> (#[trigger] list.inner@[i]).stands_at(
                    tokens,
                    pos + 2 * i,
                )
            &&& forall|i: int|
                0 <= i < list.commas@.len() ==> #[trigger] list.commas@[i] == span_at(
                    tokens,
                    pos + 1 + 2 * i,
                )
            &&& final(state).cursor == pos + names_width(list.inner@.len())
        },
        r matches Ok(list) ==> lossless(
            variables_atoms(list),
            old(state).tokens@,
            old(state).cursor as int,
            final(state).cursor as int,
        ),
{
    let ghost tokens = state.tokens@;
    let ghost start = state.cursor as int;
    let mut inner: Vec<SimpleVariable> = Vec::new();
    let mut commas: Vec<Span> = Vec::new();
    proof {
        lemma_lossless_nothing(tokens, start);
    }
    loop
        invariant
            state.wf(),
            state.tokens@ == tokens,
            state.attributes@ == old(state).attributes@,
            tokens == old(state).tokens@,
            start == old(state).cursor,
            inner@.len() == commas@.len(),
            state.cursor == start + 2 * inner@.len(),
            forall|i: int|
                0 <= i < inner@.len() ==> (#[trigger] inner@[i]).stands_at(tokens, start + 2 * i),
            forall|i: int|
                0 <= i < commas@.len() ==> #[trigger] commas@[i] == span_at(
                    tokens,
                    start + 1 + 2 * i,
                ),
            parameters_extent(tokens, start) == after(
                (state.cursor - start) as nat,
                parameters_extent(tokens, state.cursor as int),
            ),
            inner@.len() > 0 ==> kind_at(tokens, state.cursor as int) != TokenKind::RightParen,
            lossless(
                listed(inner@, commas@, variable_item(), inner@.len()),
                tokens,
                start,
                state.cursor as int,
            ),
        decreases tokens.len() - state.cursor,
    {
        let ghost here = state.cursor as int;
        let ghost before = commas@;
        let ghost items = inner@;
        let ghost so_far = listed(items, before, variable_item(), items.len());
        if state.current().kind == TokenKind::RightParen {
            return Ok(CommaSeparated { inner, commas });
        }
        let variable = simple_variable(state)?;
        let ghost read = variable.atoms();
        inner.push(variable);
        let current = state.current();
        proof {
            lemma_listed_prefix(items, before, inner@, before, variable_item(), items.len());
        }
        if current.kind != TokenKind::Comma {
            proof {
                lemma_lossless_nothing(tokens, here + 1);
                lemma_lossless_join3(
                    so_far,
                    read,
                    Seq::<Atom>::empty(),
                    tokens,
                    start,
                    here,
                    here + 1,
                    here + 1,
                );
            }
            return Ok(CommaSeparated { inner, commas });
        }
        let span = current.span;
        if state.peek().kind == TokenKind::RightParen {
            return Err(
                ParseError::UnexpectedToken {
                    expected: Expectation::Token(TokenKind::RightParen),
                    found: TokenKind::Comma,
                    span,
                },
            );
        }
        commas.push(span);
        state.next();
        proof {
            lemma_listed_prefix(items, before, inner@, commas@, variable_item(), items.len());
            lemma_lossless_mark(TokenKind::Comma, span, tokens, here + 1);
            lemma_lossless_join3(
                so_far,
                read,
                seq![mark(TokenKind::Comma, span)],
                tokens,
                start,
                here,
                here + 1,
                here + 2,
            );
        }
    }
}

/// Reads `(`, the parameters, `)`.
pub fn parameter_list(state: &mut State) -> (r: ParseResult<FunctionParameterList>)
    requires
        old(state).wf(),
    ensures
        parsed(
            *old(state),
            *final(state),
            parameter_list_extent(old(state).tokens@, old(state).cursor as int),
            r,
        ),
        final(state).attributes@ == old(state).attributes@,
        r matches Ok(list) ==> list.stands_at(old(state).tokens@, old(state).cursor as int),
        r matches Ok(node) ==> lossless(
            node.atoms(),
            old(state).tokens@,
            old(state).cursor as int,
            final(state).cursor as int,
        ),
{
    let ghost tokens = state.tokens@;
    let ghost pos = state.cursor as int;
    let left_parenthesis = skip_left_parenthesis(state)?;
    let parameters = parameters(state)?;
    let ghost close = state.cursor as int;
    let right_parenthesis = skip_right_parenthesis(state)?;
    let node = FunctionParameterList { left_parenthesis, parameters, right_parenthesis };
    proof {
        lemma_lossless_mark(TokenKind::LeftParen, left_parenthesis, tokens, pos);
        lemma_lossless_mark(TokenKind::RightParen, right_parenthesis, tokens, close);
        lemma_lossless_join3(
            seq![mark(TokenKind::LeftParen, left_parenthesis)],
            variables_atoms(node.parameters),
            seq![mark(TokenKind::RightParen, right_parenthesis)],
            tokens,
            pos,
            pos + 1,
            close,
            close + 1,
        );
    }
    Ok(node)
}

/// Reads the body of a method.
pub fn method_body(state: &mut State) -> (r: ParseResult<MethodBody>)
    requires
        old(state).settled(),
    ensures
        parsed(
            *old(state),
            *final(state),
            block_statement_extent(old(state).tokens@, old(state).cursor as int),
            r,
        ),
        r matches Ok(body) ==> final(state).settled() && body.stands_at(
            old(state).tokens@,
            old(state).cursor as int,
        ),
        r matches Ok(body) ==> lossless(
            body.atoms(),
            old(state).tokens@,
            old(state).cursor as int,
            final(state).cursor as int,
        ),
    decreases remaining(old(state).tokens@, old(state).cursor as int), 0int,
{
    let ghost tokens = state.tokens@;
    let ghost pos = state.cursor as int;
    proof {
        lemma_block_statement_extent(tokens, pos);
    }
    let left_brace = skip_left_brace(state)?;
    let statements = multiple_statements_until(state, TokenKind::RightBrace)?;
    let ghost close = state.cursor as int;
    let right_brace = skip_right_brace(state)?;
    let body = MethodBody { left_brace, statements, right_brace };
    proof {
        lemma_method_body_stands_at(body, tokens, pos);
        lemma_lossless_mark(TokenKind::LeftBrace, left_brace, tokens, pos);
        lemma_lossless_mark(TokenKind::RightBrace, right_brace, tokens, close);
        lemma_lossless_join3(
            seq![mark(TokenKind::LeftBrace, left_brace)],
            statements_atoms(body.statements@),
            seq![mark(TokenKind::RightBrace, right_brace)],
            tokens,
            pos,
            pos + 1,
            close,
            close + 1,
        );
        lemma_method_body_atoms(body);
    }
    Ok(body)
}

/// Reads a method behind the given modifiers, and gives it the attribute
/// groups that wait. It has no body where `;` stands behind the parameters,
/// and is a constructor where its name is `__construct`.
pub fn method(state: &mut State, modifiers: ModifierGroup) -> (r: ParseResult<Method>)
    requires
        old(state).wf(),
    ensures
        parsed(
            *old(state),
            *final(state),
            method_extent(old(state).tokens@, old(state).cursor as int),
            r,
        ),
        r matches Ok(node) ==> {
            &&& final(state).settled()
            &&& old(state).cursor < final(state).cursor
            &&& node.attributes() == old(state).attributes@
            &&& node.modifiers() == modifiers
            &&& node.stands_at(old(state).tokens@, old(state).cursor as int)
        },
        r matches Ok(node) ==> lossless(
            node.own_atoms(),
            old(state).tokens@,
            old(state).cursor as int,
            final(state).cursor as int,
        ),
    decreases remaining(old(state).tokens@, old(state).cursor as int), 2int,
{
    let ghost tokens = state.tokens@;
    let ghost pos = state.cursor as int;
    proof {
        lemma_method_extent(tokens, pos);
    }
    let attributes = state.get_attributes();
    let function = skip(state, TokenKind::Function)?;
    let name = identifier(state)?;
    let parameters = parameter_list(state)?;
    let constructor = is_constructor_name(&name.value);
    let ghost tail = state.cursor as int;
    let ghost head = head_atoms(function, name, parameters);
    proof {
        lemma_method_tail_extent(tokens, tail);
        lemma_lossless_mark(TokenKind::Function, function, tokens, pos);
        lemma_lossless_join3(
            seq![mark(TokenKind::Function, function)],
            name.atoms(),
            parameters.atoms(),
            tokens,
            pos,
            pos + 1,
            pos + 2,
            tail,
        );
    }
    if state.current().kind == TokenKind::SemiColon {
        let semicolon = skip_semicolon(state)?;
        let node = if constructor {
            Method::AbstractConstructor(
                AbstractConstructor { attributes, modifiers, function, name, parameters, semicolon },
            )
        } else {
            Method::Abstract(
                AbstractMethod { attributes, modifiers, function, name, parameters, semicolon },
            )
        };
        proof {
            lemma_method_stands_at(node, tokens, pos);
            lemma_lossless_mark(TokenKind::SemiColon, semicolon, tokens, tail);
            lemma_lossless_join(
                head,
                seq![mark(TokenKind::SemiColon, semicolon)],
                tokens,
                pos,
                tail,
                tail + 1,
            );
            lemma_method_own_atoms(node);
        }
        Ok(node)
    } else {
        let body = method_body(state)?;
        let ghost body_atoms = body.atoms();
        if constructor {
            let inner = ConcreteConstructor {
                attributes,
                modifiers,
                function,
                name,
                parameters,
                body,
            };
            proof {
                lemma_concrete_constructor_stands_at(inner, tokens, pos);
                lemma_method_stands_at(Method::ConcreteConstructor(inner), tokens, pos);
                lemma_lossless_join(head, body_atoms, tokens, pos, tail, state.cursor as int);
                lemma_concrete_constructor_own_atoms(inner);
                lemma_method_own_atoms(Method::ConcreteConstructor(inner));
            }
            Ok(Method::ConcreteConstructor(inner))
        } else {
            let inner = ConcreteMethod { attributes, modifiers, function, name, parameters, body };
            proof {
                lemma_concrete_method_stands_at(inner, tokens, pos);
                lemma_method_stands_at(Method::Concrete(inner), tokens, pos);
                lemma_lossless_join(head, body_atoms, tokens, pos, tail, state.cursor as int);
                lemma_concrete_method_own_atoms(inner);
                lemma_method_own_atoms(Method::Concrete(inner));
            }
            Ok(Method::Concrete(inner))
        }
    }
}

} // verus!
