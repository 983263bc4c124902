use interpreter::lexer::Lexer;
use interpreter::parser::{Expected, ParseError, Parser, Program};
use interpreter::statement::{ExpressionStatement, Statement};
use interpreter::token::Token;

fn parsed(input: &str) -> Program {
    let lexer = Lexer::new(input);
    let mut parser = Parser::new(lexer);
    parser.parse_program()
}

fn statements(input: &str) -> Vec<Statement> {
    let program = parsed(input);
    assert_eq!(program.errors, vec![], "input {:?}", input);
    program.statements
}

fn literal(text: &str) -> ExpressionStatement {
    ExpressionStatement::Num(text.to_string())
}

fn variable(name: &str) -> ExpressionStatement {
    ExpressionStatement::Identifier(name.to_string())
}

fn infix(left: ExpressionStatement, operator: Token, right: ExpressionStatement) -> ExpressionStatement {
    ExpressionStatement::Infix {
        left: Box::new(left),
        operator,
        right: Box::new(right),
    }
}

fn prefix(operator: Token, right: ExpressionStatement) -> ExpressionStatement {
    ExpressionStatement::Prefix {
        operator,
        right: Box::new(right),
    }
}

fn call(caller: ExpressionStatement, args: Vec<ExpressionStatement>) -> ExpressionStatement {
    ExpressionStatement::Call {
        caller: Box::new(caller),
        args,
    }
}

fn expression(e: ExpressionStatement) -> Statement {
    Statement::Expression(e)
}

fn error(expected: Expected, found: Token) -> ParseError {
    ParseError { expected, found }
}

#[test]
fn test_parser() {
    struct Testcase<'a> {
        name: &'a str,
        input: String,
        expected: Vec<Statement>,
    }
    let testcases: Vec<Testcase> = vec![
        Testcase {
            name: "simple let",
            input: String::from("let a"),
            expected: vec![Statement::Let("a".to_string(), None)],
        },
        Testcase {
            name: "let and return",
            input: String::from(
                "let a = 6;
                    return 5",
            ),
            expected: vec![
                Statement::Let("a".to_string(), Some(literal("6"))),
                Statement::Return(Some(literal("5"))),
            ],
        },
        Testcase {
            name: "let and expression parsing",
            input: String::from("let a = 5+6+7"),
            expected: vec![Statement::Let(
                "a".to_string(),
                Some(ExpressionStatement::Infix {
                    left: Box::new(ExpressionStatement::Infix {
                        left: Box::new(literal("5")),
                        operator: Token::Plus,
                        right: Box::new(literal("6")),
                    }),
                    operator: Token::Plus,
                    right: Box::new(literal("7")),
                }),
            )],
        },
        Testcase {
            name: "let and expression with different precedence check",
            input: String::from("let a = 5 + 6 / 7"),
            expected: vec![Statement::Let(
                "a".to_string(),
                Some(ExpressionStatement::Infix {
                    left: Box::new(literal("5")),
                    operator: Token::Plus,
                    right: Box::new(ExpressionStatement::Infix {
                        left: Box::new(literal("6")),
                        operator: Token::Slash,
                        right: Box::new(literal("7")),
                    }),
                }),
            )],
        },
        Testcase {
            name: "if expression",
            input: String::from(
                "if a == 5 {
                        let b = 10;
                    } else if c >= 2 {
                        !3
                    } else {
                        gg
                    }
                    ",
            ),
            expected: vec![Statement::Expression(ExpressionStatement::If {
                condition: Box::new(ExpressionStatement::Infix {
                    left: Box::new(ExpressionStatement::Identifier("a".to_string())),
                    operator: Token::Equal,
                    right: Box::new(literal("5")),
                }),
                outcome: vec![Statement::Let("b".to_string(), Some(literal("10")))],
                alternate: vec![Statement::Expression(ExpressionStatement::If {
                    condition: Box::new(ExpressionStatement::Infix {
                        left: Box::new(ExpressionStatement::Identifier("c".to_string())),
                        operator: Token::Gte,
                        right: Box::new(literal("2")),
                    }),
                    outcome: vec![Statement::Expression(ExpressionStatement::Prefix {
                        operator: Token::Bang,
                        right: Box::new(literal("3")),
                    })],
                    alternate: vec![Statement::Expression(ExpressionStatement::Identifier(
                        "gg".to_string(),
                    ))],
                })],
            })],
        },
        Testcase {
            name: "fn expression",
            input: String::from(
                "let a = fn(b, c) {
                    let d = b + c
                    return d
                }",
            ),
            expected: vec![Statement::Let(
                "a".to_string(),
                Some(ExpressionStatement::Fn {
                    args: vec!["b".to_string(), "c".to_string()],
                    body: vec![
                        Statement::Let(
                            "d".to_string(),
                            Some(ExpressionStatement::Infix {
                                left: Box::new(ExpressionStatement::Identifier("b".to_string())),
                                operator: Token::Plus,
                                right: Box::new(ExpressionStatement::Identifier("c".to_string())),
                            }),
                        ),
                        Statement::Return(Some(ExpressionStatement::Identifier(
                            "d".to_string(),
                        ))),
                    ],
                }),
            )],
        },
        Testcase {
            name: "call expression",
            input: String::from("abc(def)"),
            expected: vec![Statement::Expression(ExpressionStatement::Call {
                caller: Box::new(ExpressionStatement::Identifier("abc".to_string())),
                args: vec![ExpressionStatement::Identifier("def".to_string())],
            })],
        },
    ];
    for testcase in testcases.into_iter() {
        let lexer = Lexer::new(&testcase.input);
        let mut parser = Parser::new(lexer);
        let program = parser.parse_program();
        assert_eq!(
            program.statements.len(),
            testcase.expected.len(),
            "{}",
            testcase.name
        );
        for (i, statement) in program.statements.into_iter().enumerate() {
            assert_eq!(statement, testcase.expected[i], "{}", testcase.name);
        }
    }
}

#[test]
fn empty_input_is_an_empty_program() {
    let program = parsed("");
    assert_eq!(program.statements, vec![]);
    assert_eq!(program.errors, vec![]);
}

#[test]
fn equal_precedence_associates_to_the_left() {
    assert_eq!(
        statements("let a = 5+6+7"),
        vec![Statement::Let(
            "a".to_string(),
            Some(infix(
                infix(literal("5"), Token::Plus, literal("6")),
                Token::Plus,
                literal("7")
            ))
        )]
    );
    assert_eq!(
        statements("8 - 3 - 2"),
        vec![expression(infix(
            infix(literal("8"), Token::Minus, literal("3")),
            Token::Minus,
            literal("2")
        ))]
    );
    assert_eq!(
        statements("8 / 4 * 2"),
        vec![expression(infix(
            infix(literal("8"), Token::Slash, literal("4")),
            Token::Asterisk,
            literal("2")
        ))]
    );
}

#[test]
fn product_binds_tighter_than_sum() {
    assert_eq!(
        statements("let a = 5 + 6 / 7"),
        vec![Statement::Let(
            "a".to_string(),
            Some(infix(
                literal("5"),
                Token::Plus,
                infix(literal("6"), Token::Slash, literal("7"))
            ))
        )]
    );
    assert_eq!(
        statements("5 * 6 + 7"),
        vec![expression(infix(
            infix(literal("5"), Token::Asterisk, literal("6")),
            Token::Plus,
            literal("7")
        ))]
    );
}

#[test]
fn the_whole_precedence_table() {
    // equality < relational < sum < product < prefix < call
    assert_eq!(
        statements("a == b < c + d * -f(x)"),
        vec![expression(infix(
            variable("a"),
            Token::Equal,
            infix(
                variable("b"),
                Token::Lt,
                infix(
                    variable("c"),
                    Token::Plus,
                    infix(
                        variable("d"),
                        Token::Asterisk,
                        prefix(Token::Minus, call(variable("f"), vec![variable("x")]))
                    )
                )
            )
        ))]
    );
    assert_eq!(
        statements("a * b + c > d != e"),
        vec![expression(infix(
            infix(
                infix(
                    infix(variable("a"), Token::Asterisk, variable("b")),
                    Token::Plus,
                    variable("c")
                ),
                Token::Gt,
                variable("d")
            ),
            Token::NotEqual,
            variable("e")
        ))]
    );
}

#[test]
fn prefix_binds_tighter_than_infix() {
    assert_eq!(
        statements("-a + b"),
        vec![expression(infix(
            prefix(Token::Minus, variable("a")),
            Token::Plus,
            variable("b")
        ))]
    );
    assert_eq!(
        statements("!a == b"),
        vec![expression(infix(
            prefix(Token::Bang, variable("a")),
            Token::Equal,
            variable("b")
        ))]
    );
    assert_eq!(
        statements("!-a"),
        vec![expression(prefix(
            Token::Bang,
            prefix(Token::Minus, variable("a"))
        ))]
    );
}

#[test]
fn parentheses_group() {
    assert_eq!(
        statements("(5 + 6) * 7"),
        vec![expression(infix(
            ExpressionStatement::Group(Box::new(infix(literal("5"), Token::Plus, literal("6")))),
            Token::Asterisk,
            literal("7")
        ))]
    );
    assert_eq!(
        parsed("(5 + 6").errors,
        vec![error(Expected::RParen, Token::Eof)]
    );
    assert_eq!(
        parsed("(5 + 6 7").errors,
        vec![error(Expected::RParen, Token::Num("7".to_string()))]
    );
}

#[test]
fn literals_and_identifiers() {
    assert_eq!(
        statements("true; false; x; 1.5"),
        vec![
            expression(ExpressionStatement::Bool(true)),
            expression(ExpressionStatement::Bool(false)),
            expression(variable("x")),
            expression(literal("1.5")),
        ]
    );
}

#[test]
fn let_forms() {
    assert_eq!(
        statements("let a; let b = 1; let c"),
        vec![
            Statement::Let("a".to_string(), None),
            Statement::Let("b".to_string(), Some(literal("1"))),
            Statement::Let("c".to_string(), None),
        ]
    );
    let program = parsed("let = 5");
    assert_eq!(program.statements, vec![]);
    assert_eq!(program.errors, vec![error(Expected::Identifier, Token::Assign)]);
    let program = parsed("let 5");
    assert_eq!(
        program.errors,
        vec![error(Expected::Identifier, Token::Num("5".to_string()))]
    );
    let program = parsed("let");
    assert_eq!(program.errors, vec![error(Expected::Identifier, Token::Eof)]);
}

#[test]
fn return_forms() {
    assert_eq!(
        statements("return 5"),
        vec![Statement::Return(Some(literal("5")))]
    );
    assert_eq!(statements("return"), vec![Statement::Return(None)]);
    assert_eq!(
        statements("return; 5"),
        vec![Statement::Return(None), expression(literal("5"))]
    );
    assert_eq!(
        statements("fn() { return }"),
        vec![expression(ExpressionStatement::Fn {
            args: vec![],
            body: vec![Statement::Return(None)],
        })]
    );
}

#[test]
fn if_else_if_else_chain() {
    let parsed = statements("if a { 1 } else if b { 2 } else { 3 }");
    assert_eq!(
        parsed,
        vec![expression(ExpressionStatement::If {
            condition: Box::new(variable("a")),
            outcome: vec![expression(literal("1"))],
            alternate: vec![expression(ExpressionStatement::If {
                condition: Box::new(variable("b")),
                outcome: vec![expression(literal("2"))],
                alternate: vec![expression(literal("3"))],
            })],
        })]
    );
}

#[test]
fn if_without_else_has_an_empty_alternate() {
    assert_eq!(
        statements("if (a - 2) { 6 }"),
        vec![expression(ExpressionStatement::If {
            condition: Box::new(infix(variable("a"), Token::Minus, literal("2"))),
            outcome: vec![expression(literal("6"))],
            alternate: vec![],
        })]
    );
    assert_eq!(
        statements("if a { }"),
        vec![expression(ExpressionStatement::If {
            condition: Box::new(variable("a")),
            outcome: vec![],
            alternate: vec![],
        })]
    );
}

#[test]
fn if_errors() {
    assert_eq!(
        parsed("if (a { 1 }").errors,
        vec![error(Expected::RParen, Token::LCurlyBracket)]
    );
    assert_eq!(
        parsed("if a 1").errors,
        vec![error(Expected::LCurlyBracket, Token::Num("1".to_string()))]
    );
    assert_eq!(
        parsed("if a { 1").errors,
        vec![error(Expected::Expression, Token::Eof)]
    );
    assert_eq!(
        parsed("if a { 1 } else 2").errors,
        vec![error(Expected::BlockOrIf, Token::Num("2".to_string()))]
    );
    assert_eq!(
        parsed("if").errors,
        vec![error(Expected::Expression, Token::Eof)]
    );
}

#[test]
fn fn_forms() {
    assert_eq!(
        statements("fn() { }"),
        vec![expression(ExpressionStatement::Fn {
            args: vec![],
            body: vec![],
        })]
    );
    assert_eq!(
        statements("fn(a) { a }"),
        vec![expression(ExpressionStatement::Fn {
            args: vec!["a".to_string()],
            body: vec![expression(variable("a"))],
        })]
    );
}

#[test]
fn a_semicolon_inside_a_block_begins_no_statement() {
    let program = parsed("fn(a, b, c) { a; }");
    assert_eq!(program.statements, vec![]);
    assert_eq!(program.errors[0], error(Expected::Expression, Token::Semicolon));
    assert_eq!(
        statements("fn() { let a = 1; a }"),
        vec![expression(ExpressionStatement::Fn {
            args: vec![],
            body: vec![
                Statement::Let("a".to_string(), Some(literal("1"))),
                expression(variable("a")),
            ],
        })]
    );
}

#[test]
fn fn_errors() {
    assert_eq!(
        parsed("fn a").errors,
        vec![error(Expected::LParen, Token::Ident("a".to_string()))]
    );
    assert_eq!(
        parsed("fn(1) { }").errors[0],
        error(Expected::Identifier, Token::Num("1".to_string()))
    );
    assert_eq!(
        parsed("fn(a b) { }").errors[0],
        error(Expected::Comma, Token::Ident("b".to_string()))
    );
    assert_eq!(
        parsed("fn(a,) { }").errors[0],
        error(Expected::Identifier, Token::RParen)
    );
    assert_eq!(
        parsed("fn(a) 1").errors[0],
        error(Expected::LCurlyBracket, Token::Num("1".to_string()))
    );
    assert_eq!(
        parsed("fn(a").errors,
        vec![error(Expected::Comma, Token::Eof)]
    );
}

#[test]
fn call_forms() {
    assert_eq!(
        statements("f()"),
        vec![expression(call(variable("f"), vec![]))]
    );
    assert_eq!(
        statements("f(a, 1 + 2, g(b))"),
        vec![expression(call(
            variable("f"),
            vec![
                variable("a"),
                infix(literal("1"), Token::Plus, literal("2")),
                call(variable("g"), vec![variable("b")]),
            ]
        ))]
    );
    assert_eq!(
        statements("f(a)(b)"),
        vec![expression(call(
            call(variable("f"), vec![variable("a")]),
            vec![variable("b")]
        ))]
    );
    assert_eq!(
        statements("f(a) + 1"),
        vec![expression(infix(
            call(variable("f"), vec![variable("a")]),
            Token::Plus,
            literal("1")
        ))]
    );
    assert_eq!(
        statements("fn(x) { x }(5)"),
        vec![expression(call(
            ExpressionStatement::Fn {
                args: vec!["x".to_string()],
                body: vec![expression(variable("x"))],
            },
            vec![literal("5")]
        ))]
    );
}

#[test]
fn call_errors() {
    assert_eq!(
        parsed("f(a,)").errors,
        vec![error(Expected::Expression, Token::RParen)]
    );
    assert_eq!(
        parsed("f(a b)").errors[0],
        error(Expected::CommaOrRParen, Token::Ident("b".to_string()))
    );
    assert_eq!(
        parsed("f(a").errors,
        vec![error(Expected::CommaOrRParen, Token::Eof)]
    );
    assert_eq!(
        parsed("f(").errors,
        vec![error(Expected::Expression, Token::Eof)]
    );
}

#[test]
fn illegal_token_is_a_parse_error() {
    let program = parsed("@");
    assert_eq!(program.statements, vec![]);
    assert_eq!(
        program.errors,
        vec![error(Expected::Expression, Token::Illegal)]
    );
    let program = parsed("let a = 12a");
    assert_eq!(
        program.errors,
        vec![error(Expected::Expression, Token::Illegal)]
    );
}

#[test]
fn parsing_goes_on_behind_the_next_semicolon() {
    let program = parsed("let 1 = 2; let a = 5; ) ; a + 1");
    assert_eq!(
        program.statements,
        vec![
            Statement::Let("a".to_string(), Some(literal("5"))),
            expression(infix(variable("a"), Token::Plus, literal("1"))),
        ]
    );
    assert_eq!(
        program.errors,
        vec![
            error(Expected::Identifier, Token::Num("1".to_string())),
            error(Expected::Expression, Token::RParen),
        ]
    );
}

#[test]
fn an_error_without_a_semicolon_behind_it_ends_the_program() {
    let program = parsed("let a = 1; let 2 let b = 3");
    assert_eq!(
        program.statements,
        vec![Statement::Let("a".to_string(), Some(literal("1")))]
    );
    assert_eq!(
        program.errors,
        vec![error(Expected::Identifier, Token::Num("2".to_string()))]
    );
}

#[test]
fn statements_need_no_semicolon() {
    assert_eq!(
        statements("1 2 let a = 3 a"),
        vec![
            expression(literal("1")),
            expression(literal("2")),
            Statement::Let("a".to_string(), Some(literal("3"))),
            expression(variable("a")),
        ]
    );
}

#[test]
fn index_bracket_ends_an_expression() {
    let program = parsed("a[1]");
    assert_eq!(program.statements, vec![expression(variable("a"))]);
    assert_eq!(
        program.errors,
        vec![error(Expected::Expression, Token::LSquareBracket)]
    );
}

#[test]
fn a_source_text_is_parsed_as_its_tokens_are() {
    for input in ["", "let a = 5+6+7", "if a { 1 } else { 2 } f(x, y)", "let 1; let b = 2", " \n 5 "] {
        assert_eq!(interpreter::parser::parse_program(input), parsed(input), "{:?}", input);
    }
}

#[test]
fn next_token_moves_the_parser_on() {
    let mut parser = Parser::new(Lexer::new("1 2"));
    parser.next_token();
    let program = parser.parse_program();
    assert_eq!(program.statements, vec![expression(literal("2"))]);
    parser.next_token();
    assert_eq!(parser.parse_program().statements, vec![]);
}
