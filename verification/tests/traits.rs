use pxp_parser::ast::attributes::AttributeGroup;
use pxp_parser::ast::constants::ClassishConstant;
use pxp_parser::ast::expressions::Expression;
use pxp_parser::ast::functions::AbstractConstructor;
use pxp_parser::ast::functions::AbstractMethod;
use pxp_parser::ast::functions::ConcreteConstructor;
use pxp_parser::ast::functions::ConcreteMethod;
use pxp_parser::ast::functions::FunctionParameterList;
use pxp_parser::ast::functions::MethodBody;
use pxp_parser::ast::identifiers::IdentifierForm;
use pxp_parser::ast::identifiers::SimpleIdentifier;
use pxp_parser::ast::literals::Literal;
use pxp_parser::ast::literals::LiteralInteger;
use pxp_parser::ast::modifiers::Modifier;
use pxp_parser::ast::modifiers::ModifierGroup;
use pxp_parser::ast::modifiers::ModifierKind;
use pxp_parser::ast::modifiers::VisibilityModifier;
use pxp_parser::ast::properties::Property;
use pxp_parser::ast::properties::VariableProperty;
use pxp_parser::ast::statements::Statement;
use pxp_parser::ast::traits::TraitBody;
use pxp_parser::ast::traits::TraitMember;
use pxp_parser::ast::traits::TraitStatement;
use pxp_parser::ast::traits::TraitUsage;
use pxp_parser::ast::traits::TraitUsageAdaptation;
use pxp_parser::ast::utils::CommaSeparated;
use pxp_parser::ast::variables::SimpleVariable;
use pxp_parser::bytestring::ByteString;
use pxp_parser::parser::error::Expectation;
use pxp_parser::parser::error::ParseError;
use pxp_parser::parser::functions::is_constructor_name;
use pxp_parser::parser::modifiers::collect;
use pxp_parser::parser::modifiers::constant_group;
use pxp_parser::parser::modifiers::method_group;
use pxp_parser::parser::modifiers::property_group;
use pxp_parser::parser::state::State;
use pxp_parser::parser::traits::member;
use pxp_parser::parser::traits::parse;
use pxp_parser::parser::traits::usage;
use pxp_parser::span::Position;
use pxp_parser::span::Span;
use pxp_parser::token::Token;
use pxp_parser::token::TokenKind;

fn sp(offset: usize, len: usize) -> Span {
    Span::new(Position::new(1, offset + 1, offset), Position::new(1, offset + len + 1, offset + len))
}

fn bs(value: &str) -> ByteString {
    ByteString::new(value.as_bytes().to_vec())
}

/// Lays the lexemes out on one line, one space apart, and closes the
/// stream with the sentinel.
fn cursor(lexemes: &[(TokenKind, &str)]) -> State {
    let mut tokens = Vec::new();
    let mut offset = 0;
    for (kind, lexeme) in lexemes {
        tokens.push(Token::new(*kind, sp(offset, lexeme.len()), bs(lexeme)));
        offset += lexeme.len() + 1;
    }
    tokens.push(Token::new(TokenKind::Eof, sp(offset, 0), bs("")));
    State::new(tokens)
}

fn id(value: &str, offset: usize) -> SimpleIdentifier {
    SimpleIdentifier { span: sp(offset, value.len()), form: IdentifierForm::Unqualified, value: bs(value) }
}

fn variable(name: &str, offset: usize) -> SimpleVariable {
    SimpleVariable { span: sp(offset, name.len()), name: bs(name) }
}

fn bad(expected: Expectation, found: TokenKind, offset: usize, len: usize) -> ParseError {
    ParseError::UnexpectedToken { expected, found, span: sp(offset, len) }
}

fn modifier(kind: ModifierKind, offset: usize, len: usize) -> Modifier {
    Modifier { kind, span: sp(offset, len) }
}

fn no_modifiers() -> ModifierGroup {
    ModifierGroup { modifiers: vec![] }
}

const USE: (TokenKind, &str) = (TokenKind::Use, "use");
const NAME_A: (TokenKind, &str) = (TokenKind::Identifier, "A");
const NAME_B: (TokenKind, &str) = (TokenKind::Identifier, "B");
const NAME_M: (TokenKind, &str) = (TokenKind::Identifier, "m");
const COMMA: (TokenKind, &str) = (TokenKind::Comma, ",");
const SEMI: (TokenKind, &str) = (TokenKind::SemiColon, ";");
const LBRACE: (TokenKind, &str) = (TokenKind::LeftBrace, "{");
const RBRACE: (TokenKind, &str) = (TokenKind::RightBrace, "}");
const LPAREN: (TokenKind, &str) = (TokenKind::LeftParen, "(");
const RPAREN: (TokenKind, &str) = (TokenKind::RightParen, ")");
const AS: (TokenKind, &str) = (TokenKind::As, "as");
const COLONS: (TokenKind, &str) = (TokenKind::DoubleColon, "::");
const INSTEADOF: (TokenKind, &str) = (TokenKind::Insteadof, "insteadof");
const FUNCTION: (TokenKind, &str) = (TokenKind::Function, "function");
const PUBLIC: (TokenKind, &str) = (TokenKind::Public, "public");
const PRIVATE: (TokenKind, &str) = (TokenKind::Private, "private");
const STATIC: (TokenKind, &str) = (TokenKind::Static, "static");
const ABSTRACT: (TokenKind, &str) = (TokenKind::Abstract, "abstract");
const FINAL: (TokenKind, &str) = (TokenKind::Final, "final");
const READONLY: (TokenKind, &str) = (TokenKind::Readonly, "readonly");
const CONST: (TokenKind, &str) = (TokenKind::Const, "const");
const X: (TokenKind, &str) = (TokenKind::Variable, "$x");

#[test]
fn use_of_one_trait() {
    let mut state = cursor(&[USE, NAME_A, SEMI]);
    assert_eq!(
        usage(&mut state),
        Ok(TraitUsage { use_keyword: sp(0, 3), traits: vec![id("A", 4)], adaptations: vec![] })
    );
    assert!(state.is_eof());
}

#[test]
fn use_of_traits_by_names_of_any_form() {
    let mut state = cursor(&[
        USE,
        (TokenKind::QualifiedIdentifier, "A\\B"),
        COMMA,
        (TokenKind::FullyQualifiedIdentifier, "\\C"),
        SEMI,
    ]);
    let node = usage(&mut state).unwrap();
    assert_eq!(
        node.traits,
        vec![
            SimpleIdentifier { span: sp(4, 3), form: IdentifierForm::Qualified, value: bs("A\\B") },
            SimpleIdentifier {
                span: sp(10, 2),
                form: IdentifierForm::FullyQualified,
                value: bs("\\C"),
            },
        ]
    );
}

#[test]
fn use_needs_a_name() {
    let mut state = cursor(&[USE, SEMI]);
    assert_eq!(usage(&mut state), Err(bad(Expectation::FullName, TokenKind::SemiColon, 4, 1)));
    assert_eq!(state.cursor, 1);
    let mut state = cursor(&[USE, LBRACE, RBRACE]);
    assert_eq!(usage(&mut state), Err(bad(Expectation::FullName, TokenKind::LeftBrace, 4, 1)));
    assert_eq!(state.cursor, 1);
}

#[test]
fn use_with_empty_braces() {
    let mut state = cursor(&[USE, NAME_A, LBRACE, RBRACE]);
    assert_eq!(
        usage(&mut state),
        Ok(TraitUsage { use_keyword: sp(0, 3), traits: vec![id("A", 4)], adaptations: vec![] })
    );
    assert!(state.is_eof());
}

#[test]
fn use_rejects_a_comma_before_the_semicolon() {
    let mut state = cursor(&[USE, NAME_A, COMMA, SEMI]);
    assert_eq!(
        usage(&mut state),
        Err(bad(Expectation::Token(TokenKind::SemiColon), TokenKind::Comma, 6, 1))
    );
}

#[test]
fn use_rejects_a_comma_before_the_brace() {
    let mut state = cursor(&[USE, NAME_A, COMMA, LBRACE, RBRACE]);
    assert_eq!(
        usage(&mut state),
        Err(bad(Expectation::Token(TokenKind::LeftBrace), TokenKind::Comma, 6, 1))
    );
}

#[test]
fn use_needs_a_semicolon_or_braces() {
    let mut state = cursor(&[USE, NAME_A, NAME_B]);
    assert_eq!(
        usage(&mut state),
        Err(bad(Expectation::Token(TokenKind::SemiColon), TokenKind::Identifier, 6, 1))
    );
    let mut state = cursor(&[USE, COMMA]);
    assert_eq!(usage(&mut state), Err(bad(Expectation::FullName, TokenKind::Comma, 4, 1)));
}

#[test]
fn adaptation_that_changes_the_visibility_only() {
    // use A { m as protected ; }
    let mut state =
        cursor(&[USE, NAME_A, LBRACE, NAME_M, AS, (TokenKind::Protected, "protected"), SEMI, RBRACE]);
    let node = usage(&mut state).unwrap();
    assert_eq!(
        node.adaptations,
        vec![TraitUsageAdaptation::Visibility {
            trait_name: None,
            method: id("m", 8),
            visibility: VisibilityModifier::Protected(sp(13, 9)),
        }]
    );
}

#[test]
fn adaptation_that_renames_without_a_visibility() {
    // use A { A :: m as n ; }
    let mut state = cursor(&[
        USE,
        NAME_A,
        LBRACE,
        NAME_A,
        COLONS,
        NAME_M,
        AS,
        (TokenKind::Identifier, "n"),
        SEMI,
        RBRACE,
    ]);
    let node = usage(&mut state).unwrap();
    assert_eq!(
        node.adaptations,
        vec![TraitUsageAdaptation::Alias {
            trait_name: Some(id("A", 8)),
            method: id("m", 13),
            alias: id("n", 18),
            visibility: None,
        }]
    );
}

#[test]
fn adaptation_that_renames_with_a_visibility() {
    // use A { m as public n ; }
    let mut state =
        cursor(&[USE, NAME_A, LBRACE, NAME_M, AS, PUBLIC, (TokenKind::Identifier, "n"), SEMI, RBRACE]);
    let node = usage(&mut state).unwrap();
    assert_eq!(
        node.adaptations,
        vec![TraitUsageAdaptation::Alias {
            trait_name: None,
            method: id("m", 8),
            alias: id("n", 20),
            visibility: Some(VisibilityModifier::Public(sp(13, 6))),
        }]
    );
}

#[test]
fn precedence_over_several_traits() {
    // use A { A :: m insteadof B , C , D ; }
    let mut state = cursor(&[
        USE,
        NAME_A,
        LBRACE,
        NAME_A,
        COLONS,
        NAME_M,
        INSTEADOF,
        NAME_B,
        COMMA,
        (TokenKind::Identifier, "C"),
        COMMA,
        (TokenKind::Identifier, "D"),
        SEMI,
        RBRACE,
    ]);
    let node = usage(&mut state).unwrap();
    assert_eq!(
        node.adaptations,
        vec![TraitUsageAdaptation::Precedence {
            trait_name: Some(id("A", 8)),
            method: id("m", 13),
            insteadof: vec![id("B", 25), id("C", 29), id("D", 33)],
        }]
    );
    assert!(state.is_eof());
}

#[test]
fn precedence_rejects_a_comma_before_the_semicolon() {
    // use A { A :: m insteadof B , ; }
    let mut state = cursor(&[
        USE, NAME_A, LBRACE, NAME_A, COLONS, NAME_M, INSTEADOF, NAME_B, COMMA, SEMI, RBRACE,
    ]);
    assert_eq!(
        usage(&mut state),
        Err(bad(Expectation::Token(TokenKind::SemiColon), TokenKind::Comma, 27, 1))
    );
    assert_eq!(state.cursor, 8);
    // use A { A :: m insteadof B , A , ; }
    let mut state = cursor(&[
        USE, NAME_A, LBRACE, NAME_A, COLONS, NAME_M, INSTEADOF, NAME_B, COMMA, NAME_A, COMMA,
        SEMI, RBRACE,
    ]);
    assert_eq!(
        usage(&mut state),
        Err(bad(Expectation::Token(TokenKind::SemiColon), TokenKind::Comma, 31, 1))
    );
    assert_eq!(state.cursor, 10);
}

#[test]
fn precedence_needs_the_trait_of_the_method() {
    // use A { m insteadof B ; }
    let mut state = cursor(&[USE, NAME_A, LBRACE, NAME_M, INSTEADOF, NAME_B, SEMI, RBRACE]);
    assert_eq!(
        usage(&mut state),
        Err(bad(Expectation::Token(TokenKind::DoubleColon), TokenKind::Insteadof, 10, 9))
    );
    assert_eq!(state.cursor, 4);
}

#[test]
fn errors_leave_the_cursor_where_they_were_found() {
    // a modifier that stands twice: on the second
    let mut state = cursor(&[STATIC, PUBLIC, STATIC, X, SEMI]);
    assert!(member(&mut state).is_err());
    assert_eq!(state.cursor, 2);
    // modifiers that do not fit: behind them all
    let mut state = cursor(&[FINAL, ABSTRACT, FUNCTION, NAME_M, LPAREN, RPAREN, SEMI]);
    assert!(member(&mut state).is_err());
    assert_eq!(state.cursor, 2);
    // a comma before `;` in a trait use: on the comma
    let mut state = cursor(&[USE, NAME_A, COMMA, SEMI]);
    assert!(usage(&mut state).is_err());
    assert_eq!(state.cursor, 2);
    // two runs end at the same place
    let mut again = cursor(&[USE, NAME_A, COMMA, SEMI]);
    assert_eq!(usage(&mut again), usage(&mut cursor(&[USE, NAME_A, COMMA, SEMI])));
    assert_eq!(again.cursor, state.cursor);
}

#[test]
fn adaptation_needs_as_or_insteadof() {
    let mut state = cursor(&[USE, NAME_A, LBRACE, NAME_M, SEMI, RBRACE]);
    assert_eq!(
        usage(&mut state),
        Err(bad(Expectation::AsOrInsteadof, TokenKind::SemiColon, 10, 1))
    );
}

#[test]
fn adaptation_needs_its_semicolon_and_the_braces_their_end() {
    let mut state = cursor(&[USE, NAME_A, LBRACE, NAME_M, AS, PUBLIC, NAME_B, RBRACE]);
    assert_eq!(
        usage(&mut state),
        Err(bad(Expectation::Token(TokenKind::SemiColon), TokenKind::RightBrace, 22, 1))
    );
    let mut state = cursor(&[USE, NAME_A, LBRACE, NAME_M, AS, PUBLIC, SEMI]);
    assert_eq!(usage(&mut state), Err(bad(Expectation::Identifier, TokenKind::Eof, 22, 0)));
    let mut state = cursor(&[USE, NAME_A, LBRACE, NAME_M, AS, SEMI]);
    assert_eq!(usage(&mut state), Err(bad(Expectation::Name, TokenKind::SemiColon, 13, 1)));
}

#[test]
fn empty_trait() {
    let mut state = cursor(&[(TokenKind::Trait, "trait"), (TokenKind::Identifier, "T"), LBRACE, RBRACE]);
    assert_eq!(
        parse(&mut state),
        Ok(Statement::Trait(TraitStatement {
            trait_keyword: sp(0, 5),
            name: id("T", 6),
            attributes: vec![],
            body: TraitBody { left_brace: sp(8, 1), members: vec![], right_brace: sp(10, 1) },
        }))
    );
    assert!(state.is_eof());
}

#[test]
fn trait_takes_the_attribute_groups_that_wait() {
    let mut state = cursor(&[(TokenKind::Trait, "trait"), (TokenKind::Identifier, "T"), LBRACE, RBRACE]);
    let group = || AttributeGroup {
        start: sp(90, 2),
        members: CommaSeparated { inner: vec![id("A", 92)], commas: vec![] },
        end: sp(93, 1),
    };
    state.attribute(group());
    let Statement::Trait(node) = parse(&mut state).unwrap() else { panic!("not a trait") };
    assert_eq!(node.attributes, vec![group()]);
    assert!(state.attributes.is_empty());
}

#[test]
fn trait_needs_a_name_and_both_braces() {
    let mut state = cursor(&[(TokenKind::Trait, "trait"), LBRACE, RBRACE]);
    assert_eq!(parse(&mut state), Err(bad(Expectation::Identifier, TokenKind::LeftBrace, 6, 1)));
    let mut state = cursor(&[(TokenKind::Trait, "trait"), NAME_A, SEMI]);
    assert_eq!(
        parse(&mut state),
        Err(bad(Expectation::Token(TokenKind::LeftBrace), TokenKind::SemiColon, 8, 1))
    );
    let mut state = cursor(&[(TokenKind::Trait, "trait"), NAME_A, LBRACE]);
    assert_eq!(
        parse(&mut state),
        Err(bad(Expectation::Token(TokenKind::RightBrace), TokenKind::Eof, 10, 0))
    );
    let mut state = cursor(&[NAME_A]);
    assert_eq!(
        parse(&mut state),
        Err(bad(Expectation::Token(TokenKind::Trait), TokenKind::Identifier, 0, 1))
    );
}

#[test]
fn member_in_the_old_property_form() {
    let mut state = cursor(&[(TokenKind::Var, "var"), X, SEMI]);
    assert_eq!(
        member(&mut state),
        Ok(TraitMember::VariableProperty(VariableProperty {
            attributes: vec![],
            var: sp(0, 3),
            variable: variable("$x", 4),
            end: sp(7, 1),
        }))
    );
}

#[test]
fn member_that_is_a_property_behind_modifiers() {
    let mut state = cursor(&[PRIVATE, STATIC, X, SEMI]);
    assert_eq!(
        member(&mut state),
        Ok(TraitMember::Property(Property {
            attributes: vec![],
            modifiers: ModifierGroup {
                modifiers: vec![
                    modifier(ModifierKind::Private, 0, 7),
                    modifier(ModifierKind::Static, 8, 6),
                ],
            },
            variable: variable("$x", 15),
            end: sp(18, 1),
        }))
    );
}

#[test]
fn member_that_is_a_constant() {
    // final const N = 1 ;
    let mut state = cursor(&[
        FINAL,
        CONST,
        (TokenKind::Identifier, "N"),
        (TokenKind::Equals, "="),
        (TokenKind::LiteralInteger, "1"),
        SEMI,
    ]);
    assert_eq!(
        member(&mut state),
        Ok(TraitMember::Constant(ClassishConstant {
            attributes: vec![],
            modifiers: ModifierGroup { modifiers: vec![modifier(ModifierKind::Final, 0, 5)] },
            const_keyword: sp(6, 5),
            name: id("N", 12),
            equals: sp(14, 1),
            value: Expression::Literal(Literal::Integer(LiteralInteger {
                value: bs("1"),
                span: sp(16, 1),
            })),
            semicolon: sp(18, 1),
        }))
    );
}

#[test]
fn member_that_is_a_method_without_a_body() {
    // abstract function m ( $x ) ;
    let mut state = cursor(&[ABSTRACT, FUNCTION, NAME_M, LPAREN, X, RPAREN, SEMI]);
    assert_eq!(
        member(&mut state),
        Ok(TraitMember::AbstractMethod(AbstractMethod {
            attributes: vec![],
            modifiers: ModifierGroup { modifiers: vec![modifier(ModifierKind::Abstract, 0, 8)] },
            function: sp(9, 8),
            name: id("m", 18),
            parameters: FunctionParameterList {
                left_parenthesis: sp(20, 1),
                parameters: CommaSeparated { inner: vec![variable("$x", 22)], commas: vec![] },
                right_parenthesis: sp(25, 1),
            },
            semicolon: sp(27, 1),
        }))
    );
}

#[test]
fn member_that_is_a_method_with_a_body() {
    // function m ( $x , $y ) { ; }
    let mut state = cursor(&[
        FUNCTION,
        NAME_M,
        LPAREN,
        X,
        COMMA,
        (TokenKind::Variable, "$y"),
        RPAREN,
        LBRACE,
        SEMI,
        RBRACE,
    ]);
    assert_eq!(
        member(&mut state),
        Ok(TraitMember::ConcreteMethod(ConcreteMethod {
            attributes: vec![],
            modifiers: no_modifiers(),
            function: sp(0, 8),
            name: id("m", 9),
            parameters: FunctionParameterList {
                left_parenthesis: sp(11, 1),
                parameters: CommaSeparated {
                    inner: vec![variable("$x", 13), variable("$y", 18)],
                    commas: vec![sp(16, 1)],
                },
                right_parenthesis: sp(21, 1),
            },
            body: MethodBody {
                left_brace: sp(23, 1),
                statements: vec![Statement::Noop(sp(25, 1))],
                right_brace: sp(27, 1),
            },
        }))
    );
    assert!(state.is_eof());
}

#[test]
fn member_that_is_a_constructor_by_its_name() {
    let construct = (TokenKind::Identifier, "__construct");
    let mut state = cursor(&[FUNCTION, construct, LPAREN, RPAREN, SEMI]);
    let empty = |left: usize, right: usize| FunctionParameterList {
        left_parenthesis: sp(left, 1),
        parameters: CommaSeparated { inner: vec![], commas: vec![] },
        right_parenthesis: sp(right, 1),
    };
    assert_eq!(
        member(&mut state),
        Ok(TraitMember::AbstractConstructor(AbstractConstructor {
            attributes: vec![],
            modifiers: no_modifiers(),
            function: sp(0, 8),
            name: id("__construct", 9),
            parameters: empty(21, 23),
            semicolon: sp(25, 1),
        }))
    );
    let named = (TokenKind::Identifier, "__construct");
    let mut state = cursor(&[PUBLIC, FUNCTION, named, LPAREN, RPAREN, LBRACE, RBRACE]);
    assert_eq!(
        member(&mut state),
        Ok(TraitMember::ConcreteConstructor(ConcreteConstructor {
            attributes: vec![],
            modifiers: ModifierGroup { modifiers: vec![modifier(ModifierKind::Public, 0, 6)] },
            function: sp(7, 8),
            name: id("__construct", 16),
            parameters: empty(28, 30),
            body: MethodBody { left_brace: sp(32, 1), statements: vec![], right_brace: sp(34, 1) },
        }))
    );
    let other = (TokenKind::Identifier, "__CONSTRUCT");
    let mut state = cursor(&[FUNCTION, other, LPAREN, RPAREN, SEMI]);
    assert!(matches!(member(&mut state), Ok(TraitMember::AbstractMethod(_))));
}

#[test]
fn constructor_name_is_told_by_its_bytes() {
    assert!(is_constructor_name(&bs("__construct")));
    assert!(!is_constructor_name(&bs("__Construct")));
    assert!(!is_constructor_name(&bs("__CONSTRUCT")));
    assert!(!is_constructor_name(&bs("__construc")));
    assert!(!is_constructor_name(&bs("__constructs")));
    assert!(!is_constructor_name(&bs("_construct_")));
    assert!(!is_constructor_name(&bs("")));
}

#[test]
fn member_takes_the_attribute_groups_before_it() {
    // #[ A ] var $x ;
    let mut state = cursor(&[
        (TokenKind::Attribute, "#["),
        NAME_A,
        (TokenKind::RightBracket, "]"),
        (TokenKind::Var, "var"),
        X,
        SEMI,
    ]);
    assert_eq!(
        member(&mut state),
        Ok(TraitMember::VariableProperty(VariableProperty {
            attributes: vec![AttributeGroup {
                start: sp(0, 2),
                members: CommaSeparated { inner: vec![id("A", 3)], commas: vec![] },
                end: sp(5, 1),
            }],
            var: sp(7, 3),
            variable: variable("$x", 11),
            end: sp(14, 1),
        }))
    );
    assert!(state.attributes.is_empty());
}

#[test]
fn attribute_groups_cannot_stand_before_a_trait_use() {
    // #[ A ] use B ;
    let mut state = cursor(&[
        (TokenKind::Attribute, "#["),
        NAME_A,
        (TokenKind::RightBracket, "]"),
        USE,
        NAME_B,
        SEMI,
    ]);
    assert_eq!(member(&mut state), Err(bad(Expectation::Variable, TokenKind::Use, 7, 3)));
}

#[test]
fn member_that_is_a_trait_use() {
    let mut state = cursor(&[USE, NAME_A, SEMI]);
    assert_eq!(
        member(&mut state),
        Ok(TraitMember::TraitUsage(TraitUsage {
            use_keyword: sp(0, 3),
            traits: vec![id("A", 4)],
            adaptations: vec![],
        }))
    );
}

#[test]
fn modifiers_are_collected_in_their_order() {
    let mut state = cursor(&[FINAL, PUBLIC, STATIC, FUNCTION]);
    assert_eq!(
        collect(&mut state),
        Ok(vec![
            modifier(ModifierKind::Final, 0, 5),
            modifier(ModifierKind::Public, 6, 6),
            modifier(ModifierKind::Static, 13, 6),
        ])
    );
    assert_eq!(state.current().kind, TokenKind::Function);
    let mut state = cursor(&[FUNCTION]);
    assert_eq!(collect(&mut state), Ok(vec![]));
}

#[test]
fn modifier_may_not_stand_twice() {
    let mut state = cursor(&[STATIC, PUBLIC, STATIC, X, SEMI]);
    assert_eq!(
        member(&mut state),
        Err(ParseError::DuplicateModifier { modifier: TokenKind::Static, span: sp(14, 6) })
    );
    let mut state = cursor(&[PUBLIC, PUBLIC]);
    assert_eq!(
        collect(&mut state),
        Err(ParseError::DuplicateModifier { modifier: TokenKind::Public, span: sp(7, 6) })
    );
}

#[test]
fn visibility_may_not_stand_twice() {
    let mut state = cursor(&[PUBLIC, STATIC, PRIVATE, X, SEMI]);
    assert_eq!(
        member(&mut state),
        Err(ParseError::MultipleVisibilityModifiers { span: sp(14, 7) })
    );
}

#[test]
fn method_takes_no_readonly() {
    let mut state = cursor(&[PUBLIC, READONLY, FUNCTION, NAME_M, LPAREN, RPAREN, SEMI]);
    assert_eq!(
        member(&mut state),
        Err(ParseError::ModifierNotAllowed { modifier: TokenKind::Readonly, span: sp(7, 8) })
    );
    assert_eq!(
        method_group(vec![modifier(ModifierKind::Readonly, 0, 8)]),
        Err(ParseError::ModifierNotAllowed { modifier: TokenKind::Readonly, span: sp(0, 8) })
    );
}

#[test]
fn method_is_not_both_abstract_and_final() {
    let mut state = cursor(&[FINAL, ABSTRACT, FUNCTION, NAME_M, LPAREN, RPAREN, SEMI]);
    assert_eq!(
        member(&mut state),
        Err(ParseError::ConflictingModifiers {
            modifier: TokenKind::Abstract,
            other: TokenKind::Final,
            span: sp(6, 8),
        })
    );
}

#[test]
fn property_takes_neither_abstract_nor_final() {
    let mut state = cursor(&[ABSTRACT, X, SEMI]);
    assert_eq!(
        member(&mut state),
        Err(ParseError::ModifierNotAllowed { modifier: TokenKind::Abstract, span: sp(0, 8) })
    );
    assert_eq!(
        property_group(vec![
            modifier(ModifierKind::Public, 0, 6),
            modifier(ModifierKind::Final, 7, 5),
            modifier(ModifierKind::Abstract, 13, 8),
        ]),
        Err(ParseError::ModifierNotAllowed { modifier: TokenKind::Final, span: sp(7, 5) })
    );
}

#[test]
fn property_is_not_both_static_and_readonly() {
    let mut state = cursor(&[READONLY, STATIC, X, SEMI]);
    assert_eq!(
        member(&mut state),
        Err(ParseError::ConflictingModifiers {
            modifier: TokenKind::Static,
            other: TokenKind::Readonly,
            span: sp(9, 6),
        })
    );
}

#[test]
fn constant_takes_a_visibility_or_final_only() {
    let mut state = cursor(&[STATIC, CONST, NAME_A, (TokenKind::Equals, "="), X, SEMI]);
    assert_eq!(
        member(&mut state),
        Err(ParseError::ModifierNotAllowed { modifier: TokenKind::Static, span: sp(0, 6) })
    );
}

#[test]
fn constant_is_not_both_private_and_final() {
    assert_eq!(
        constant_group(vec![
            modifier(ModifierKind::Final, 0, 5),
            modifier(ModifierKind::Private, 6, 7),
        ]),
        Err(ParseError::ConflictingModifiers {
            modifier: TokenKind::Private,
            other: TokenKind::Final,
            span: sp(6, 7),
        })
    );
}

#[test]
fn modifiers_that_fit_are_handed_back_as_a_group() {
    let all = vec![modifier(ModifierKind::Protected, 0, 9), modifier(ModifierKind::Final, 10, 5)];
    assert_eq!(constant_group(all.clone()), Ok(ModifierGroup { modifiers: all.clone() }));
    assert_eq!(method_group(all.clone()), Ok(ModifierGroup { modifiers: all }));
    let plain = vec![modifier(ModifierKind::Readonly, 0, 8), modifier(ModifierKind::Public, 9, 6)];
    assert_eq!(property_group(plain.clone()), Ok(ModifierGroup { modifiers: plain }));
    assert_eq!(property_group(vec![]), Ok(no_modifiers()));
}

#[test]
fn method_rejects_a_comma_before_the_closing_parenthesis() {
    let mut state = cursor(&[FUNCTION, NAME_M, LPAREN, X, COMMA, RPAREN, SEMI]);
    assert_eq!(
        member(&mut state),
        Err(bad(Expectation::Token(TokenKind::RightParen), TokenKind::Comma, 16, 1))
    );
}

#[test]
fn method_needs_a_body_where_no_semicolon_stands() {
    let mut state = cursor(&[FUNCTION, NAME_M, LPAREN, RPAREN, RBRACE]);
    assert_eq!(
        member(&mut state),
        Err(bad(Expectation::Token(TokenKind::LeftBrace), TokenKind::RightBrace, 15, 1))
    );
}

#[test]
fn property_needs_a_variable_and_a_semicolon() {
    let mut state = cursor(&[PUBLIC, SEMI]);
    assert_eq!(member(&mut state), Err(bad(Expectation::Variable, TokenKind::SemiColon, 7, 1)));
    let mut state = cursor(&[PUBLIC, X, RBRACE]);
    assert_eq!(
        member(&mut state),
        Err(bad(Expectation::Token(TokenKind::SemiColon), TokenKind::RightBrace, 10, 1))
    );
}

#[test]
fn constant_needs_a_name_an_equals_sign_and_a_value() {
    let mut state = cursor(&[CONST, (TokenKind::Equals, "=")]);
    assert_eq!(member(&mut state), Err(bad(Expectation::Identifier, TokenKind::Equals, 6, 1)));
    let mut state = cursor(&[CONST, NAME_A, SEMI]);
    assert_eq!(
        member(&mut state),
        Err(bad(Expectation::Token(TokenKind::Equals), TokenKind::SemiColon, 8, 1))
    );
    let mut state = cursor(&[CONST, NAME_A, (TokenKind::Equals, "="), SEMI]);
    assert_eq!(member(&mut state), Err(bad(Expectation::Expression, TokenKind::SemiColon, 10, 1)));
}

#[test]
fn trait_with_members_of_every_kind() {
    // trait T { use A ; var $x ; const N = 1 ; function m ( ) ; public $x ; }
    let mut state = cursor(&[
        (TokenKind::Trait, "trait"),
        (TokenKind::Identifier, "T"),
        LBRACE,
        USE,
        NAME_A,
        SEMI,
        (TokenKind::Var, "var"),
        X,
        SEMI,
        CONST,
        (TokenKind::Identifier, "N"),
        (TokenKind::Equals, "="),
        (TokenKind::LiteralInteger, "1"),
        SEMI,
        FUNCTION,
        NAME_M,
        LPAREN,
        RPAREN,
        SEMI,
        PUBLIC,
        X,
        SEMI,
        RBRACE,
    ]);
    let Statement::Trait(node) = parse(&mut state).unwrap() else { panic!("not a trait") };
    assert_eq!(node.body.members.len(), 5);
    assert!(matches!(node.body.members[0], TraitMember::TraitUsage(_)));
    assert!(matches!(node.body.members[1], TraitMember::VariableProperty(_)));
    assert!(matches!(node.body.members[2], TraitMember::Constant(_)));
    assert!(matches!(node.body.members[3], TraitMember::AbstractMethod(_)));
    assert!(matches!(node.body.members[4], TraitMember::Property(_)));
    assert_eq!(node.body.right_brace, sp(70, 1));
    assert!(state.is_eof());
}
