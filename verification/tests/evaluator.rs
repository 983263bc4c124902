use interpreter::evaluator::{is_false, prefix, Evaluator, DEFAULT_DEPTH_LIMIT};
use interpreter::lexer::Lexer;
use interpreter::number::{Number, Operator};
use interpreter::object::{same_text, Environment, EvalError, Kind, Object};
use interpreter::parser::{Parser, Program};
use interpreter::statement::{ExpressionStatement, Statement};
use interpreter::token::Token;

fn read(text: String) -> Option<Number> {
    match text.parse::<f64>() {
        Ok(value) => Some(Number::from_bits(value.to_bits())),
        Err(_) => None,
    }
}

fn compute(operator: Operator, a: Number, b: Number) -> Number {
    let (a, b) = (f64::from_bits(a.bits), f64::from_bits(b.bits));
    let value = match operator {
        Operator::Add => a + b,
        Operator::Subtract => a - b,
        Operator::Multiply => a * b,
        Operator::Divide => a / b,
    };
    Number::from_bits(value.to_bits())
}

fn write(n: Number) -> String {
    format!("{}", f64::from_bits(n.bits))
}

type Arithmetic = Evaluator<
    fn(String) -> Option<Number>,
    fn(Operator, Number, Number) -> Number,
    fn(Number) -> String,
>;

fn evaluator() -> Arithmetic {
    Evaluator::new(
        read as fn(String) -> Option<Number>,
        compute as fn(Operator, Number, Number) -> Number,
        write as fn(Number) -> String,
    )
}

fn program(input: &str) -> Program {
    let lexer = Lexer::new(input);
    let mut parser = Parser::new(lexer);
    let program = parser.parse_program();
    assert_eq!(program.errors, vec![], "input {:?}", input);
    program
}

fn run(input: &str, env: &mut Environment) -> Result<Object, EvalError> {
    evaluator().eval(program(input), env)
}

fn eval(input: &str) -> Result<Object, EvalError> {
    let mut env = Environment::new(None);
    run(input, &mut env)
}

fn double(value: f64) -> Object {
    Object::Number(Number::from_bits(value.to_bits()))
}

fn text(value: &str) -> Object {
    Object::String(value.to_string())
}

fn undefined(name: &str) -> EvalError {
    EvalError::UndefinedVariable(name.to_string())
}

#[test]
fn test_evaluator() {
    struct Testcase<'a> {
        name: &'a str,
        input: String,
        expected: Object,
    }
    let testcases: Vec<Testcase> = vec![
        Testcase {
            name: "evaluate some add operations",
            input: String::from("let a = 5"),
            expected: double(5.0),
        },
        Testcase {
            name: "evaluate if",
            input: String::from(
                "let a = 5;
                if(a - 2) {
                    6
                }",
            ),
            expected: double(6.0),
        },
    ];

    for testcase in testcases.into_iter() {
        let evaluator = evaluator();
        let mut env = Environment::new(None);
        let lexer = Lexer::new(&testcase.input);
        let mut parser = Parser::new(lexer);
        let program = parser.parse_program();
        assert_eq!(program.errors, vec![], "{}", testcase.name);
        let v = evaluator.eval(program, &mut env);
        assert_eq!(v.is_ok(), true, "expected v to be ok, v={:?}", v);
        assert_eq!(v.unwrap(), testcase.expected, "{}", testcase.name);
    }
}

#[test]
fn empty_program_is_null() {
    assert_eq!(eval(""), Ok(Object::Null));
}

#[test]
fn numeric_literals_have_the_value_of_their_double() {
    assert_eq!(eval("12345"), Ok(double(12345.0)));
    assert_eq!(eval("12345.456"), Ok(double(12345.456)));
    assert_eq!(eval("1e3"), Ok(double(1000.0)));
    assert_eq!(eval("7."), Ok(double(7.0)));
}

#[test]
fn a_literal_that_the_arithmetic_rejects_is_an_error() {
    let program = Program {
        statements: vec![Statement::Expression(ExpressionStatement::Num(
            "twelve".to_string(),
        ))],
        errors: vec![],
    };
    let mut env = Environment::new(None);
    assert_eq!(
        evaluator().eval(program, &mut env),
        Err(EvalError::InvalidNumber("twelve".to_string()))
    );
}

#[test]
fn booleans_are_numbers() {
    assert_eq!(eval("true"), Ok(double(1.0)));
    assert_eq!(eval("false"), Ok(double(0.0)));
}

#[test]
fn arithmetic() {
    assert_eq!(eval("1 + 2"), Ok(double(3.0)));
    assert_eq!(eval("7 - 2"), Ok(double(5.0)));
    assert_eq!(eval("3 * 4"), Ok(double(12.0)));
    assert_eq!(eval("9 / 2"), Ok(double(4.5)));
    assert_eq!(eval("0.1 + 0.2"), Ok(double(0.1 + 0.2)));
    assert_eq!(eval("5 + 6 / 3"), Ok(double(7.0)));
    assert_eq!(eval("(5 + 7) / 3"), Ok(double(4.0)));
    assert_eq!(eval("8 - 3 - 2"), Ok(double(3.0)));
    assert_eq!(eval("2 - 5"), Ok(double(-3.0)));
}

#[test]
fn division_by_zero_is_an_error() {
    assert_eq!(eval("1 / 0"), Err(EvalError::DivisionByZero));
    assert_eq!(eval("1 / -0"), Err(EvalError::DivisionByZero));
    assert_eq!(eval("0 / 0"), Err(EvalError::DivisionByZero));
    assert_eq!(eval("0 / 1"), Ok(double(0.0)));
}

#[test]
fn comparisons_give_one_or_zero() {
    assert_eq!(eval("1 < 2"), Ok(double(1.0)));
    assert_eq!(eval("2 < 1"), Ok(double(0.0)));
    assert_eq!(eval("2 < 2"), Ok(double(0.0)));
    assert_eq!(eval("2 <= 2"), Ok(double(1.0)));
    assert_eq!(eval("3 <= 2"), Ok(double(0.0)));
    assert_eq!(eval("2 > 1"), Ok(double(1.0)));
    assert_eq!(eval("1 > 2"), Ok(double(0.0)));
    assert_eq!(eval("2 >= 2"), Ok(double(1.0)));
    assert_eq!(eval("1 >= 2"), Ok(double(0.0)));
    assert_eq!(eval("2 == 2"), Ok(double(1.0)));
    assert_eq!(eval("2 == 3"), Ok(double(0.0)));
    assert_eq!(eval("2 != 3"), Ok(double(1.0)));
    assert_eq!(eval("2 != 2"), Ok(double(0.0)));
    assert_eq!(eval("0 == -0"), Ok(double(1.0)));
    assert_eq!(eval("-1 < 1"), Ok(double(1.0)));
    assert_eq!(eval("-2 < -1"), Ok(double(1.0)));
    assert_eq!(eval("1 + 1 == 2"), Ok(double(1.0)));
    assert_eq!(eval("if (1 < 2) { 10 } else { 20 }"), Ok(double(10.0)));
    assert_eq!(eval("if (1 > 2) { 10 } else { 20 }"), Ok(double(20.0)));
}

#[test]
fn prefix_operators() {
    assert_eq!(eval("!0"), Ok(double(1.0)));
    assert_eq!(eval("!5"), Ok(double(0.0)));
    assert_eq!(eval("!true"), Ok(double(0.0)));
    assert_eq!(eval("!false"), Ok(double(1.0)));
    assert_eq!(eval("!!3"), Ok(double(1.0)));
    assert_eq!(eval("-3"), Ok(double(-3.0)));
    assert_eq!(eval("-0"), Ok(double(-0.0)));
    assert_eq!(eval("--3"), Ok(double(3.0)));
    assert_eq!(eval("-3 + 5"), Ok(double(2.0)));
    assert_eq!(
        prefix(&Token::Minus, double(2.5)),
        Ok(double(-2.5))
    );
    assert_eq!(
        prefix(&Token::Bang, Object::Null),
        Err(EvalError::InvalidOperand {
            operator: Token::Bang,
            kind: Kind::Null
        })
    );
    assert_eq!(
        prefix(&Token::Minus, text("a")),
        Err(EvalError::InvalidOperand {
            operator: Token::Minus,
            kind: Kind::String
        })
    );
    assert_eq!(
        prefix(&Token::Plus, double(1.0)),
        Err(EvalError::InvalidOperator(Token::Plus))
    );
}

#[test]
fn plus_joins_texts_and_numbers() {
    let mut env = Environment::new(None);
    env.insert("s".to_string(), text("ab"));
    env.insert("t".to_string(), text("cd"));
    assert_eq!(run("s + t", &mut env), Ok(text("abcd")));
    assert_eq!(run("s + 1", &mut env), Ok(text("ab1")));
    assert_eq!(run("1 + s", &mut env), Ok(text("1ab")));
    assert_eq!(run("1.5 + s", &mut env), Ok(text("1.5ab")));
    assert_eq!(run("s + 2 + 3", &mut env), Ok(text("ab23")));
    assert_eq!(run("2 + 3 + s", &mut env), Ok(text("5ab")));
}

#[test]
fn operands_of_the_wrong_kind_are_errors() {
    let mut env = Environment::new(None);
    env.insert("s".to_string(), text("ab"));
    env.insert("n".to_string(), Object::Null);
    let invalid = |operator: Token, kind: Kind| Err(EvalError::InvalidOperand { operator, kind });
    assert_eq!(run("s - 1", &mut env), invalid(Token::Minus, Kind::String));
    assert_eq!(run("1 - s", &mut env), invalid(Token::Minus, Kind::String));
    assert_eq!(run("n + 1", &mut env), invalid(Token::Plus, Kind::Null));
    assert_eq!(run("1 + n", &mut env), invalid(Token::Plus, Kind::Null));
    assert_eq!(run("s + n", &mut env), invalid(Token::Plus, Kind::Null));
    assert_eq!(run("n + s", &mut env), invalid(Token::Plus, Kind::Null));
    assert_eq!(run("s * 2", &mut env), invalid(Token::Asterisk, Kind::String));
    assert_eq!(run("2 / s", &mut env), invalid(Token::Slash, Kind::String));
    assert_eq!(run("s < 2", &mut env), invalid(Token::Lt, Kind::String));
    assert_eq!(run("2 == n", &mut env), invalid(Token::Equal, Kind::Null));
    assert_eq!(run("!s", &mut env), invalid(Token::Bang, Kind::String));
    assert_eq!(run("-n", &mut env), invalid(Token::Minus, Kind::Null));
    assert_eq!(
        run("fn() { 1 } + 1", &mut env),
        invalid(Token::Plus, Kind::Function)
    );
    assert_eq!(
        run("1 - fn() { 1 }", &mut env),
        invalid(Token::Minus, Kind::Function)
    );
}

#[test]
fn a_value_on_its_way_out_is_no_operand() {
    let invalid = |operator: Token, kind: Kind| Err(EvalError::InvalidOperand { operator, kind });
    assert_eq!(
        eval("(if (1) { return 1 }) + 1"),
        invalid(Token::Plus, Kind::Return)
    );
    assert_eq!(
        eval("1 + (if (1) { return 1 })"),
        invalid(Token::Plus, Kind::Return)
    );
    assert_eq!(
        eval("!(if (1) { return 1 })"),
        invalid(Token::Bang, Kind::Return)
    );
}

#[test]
fn a_token_that_is_no_operator_is_an_error() {
    let program = Program {
        statements: vec![Statement::Expression(ExpressionStatement::Infix {
            left: Box::new(ExpressionStatement::Bool(true)),
            operator: Token::Comma,
            right: Box::new(ExpressionStatement::Bool(true)),
        })],
        errors: vec![],
    };
    let mut env = Environment::new(None);
    assert_eq!(
        evaluator().eval(program, &mut env),
        Err(EvalError::InvalidOperator(Token::Comma))
    );
    let program = Program {
        statements: vec![Statement::Expression(ExpressionStatement::Prefix {
            operator: Token::Slash,
            right: Box::new(ExpressionStatement::Bool(true)),
        })],
        errors: vec![],
    };
    assert_eq!(
        evaluator().eval(program, &mut env),
        Err(EvalError::InvalidOperator(Token::Slash))
    );
}

#[test]
fn truthiness_is_a_number_that_is_not_zero() {
    assert_eq!(eval("if (0) { 1 } else { 2 }"), Ok(double(2.0)));
    assert_eq!(eval("if (-0) { 1 } else { 2 }"), Ok(double(2.0)));
    assert_eq!(eval("if (false) { 1 } else { 2 }"), Ok(double(2.0)));
    assert_eq!(eval("if (3) { 1 } else { 2 }"), Ok(double(1.0)));
    assert_eq!(eval("if (true) { 1 } else { 2 }"), Ok(double(1.0)));
    assert_eq!(eval("if (fn() { 0 }) { 1 } else { 2 }"), Ok(double(1.0)));
    assert_eq!(eval("if (0) { 1 }"), Ok(Object::Null));
    assert_eq!(eval("if (1) { }"), Ok(Object::Null));
    assert_eq!(
        eval("if (0) { 1 } else if (0) { 2 } else { 3 }"),
        Ok(double(3.0))
    );
    assert_eq!(
        eval("if (0) { 1 } else if (1) { 2 } else { 3 }"),
        Ok(double(2.0))
    );
    assert!(is_false(&double(0.0)));
    assert!(is_false(&double(-0.0)));
    assert!(!is_false(&double(f64::NAN)));
    assert!(!is_false(&Object::Null));
    assert!(!is_false(&text("")));
}

#[test]
fn let_binds_and_is_the_value_of_the_statement() {
    let mut env = Environment::new(None);
    assert_eq!(run("let a = 2 + 3", &mut env), Ok(double(5.0)));
    assert_eq!(env.get("a"), Ok(double(5.0)));
    assert_eq!(run("let b", &mut env), Ok(Object::Null));
    assert_eq!(env.get("b"), Ok(Object::Null));
    assert_eq!(run("a", &mut env), Ok(double(5.0)));
    assert_eq!(run("let c = a * 2; c + 1", &mut env), Ok(double(11.0)));
}

#[test]
fn undefined_variable_is_an_error() {
    assert_eq!(eval("a"), Err(undefined("a")));
    assert_eq!(eval("let a = 1; b"), Err(undefined("b")));
    assert_eq!(eval("let a = a"), Err(undefined("a")));
}

#[test]
fn redeclaration_fails_and_keeps_the_first_value() {
    let mut env = Environment::new(None);
    assert_eq!(
        run("let a = 1; let a = 2", &mut env),
        Err(EvalError::AlreadyInitialized("a".to_string()))
    );
    assert_eq!(env.get("a"), Ok(double(1.0)));
    assert_eq!(
        run("let a = b", &mut env),
        Err(EvalError::AlreadyInitialized("a".to_string()))
    );
    assert_eq!(
        run("let a", &mut env),
        Err(EvalError::AlreadyInitialized("a".to_string()))
    );
    assert_eq!(env.get("a"), Ok(double(1.0)));
}

#[test]
fn bindings_before_an_error_stay() {
    let mut env = Environment::new(None);
    assert_eq!(
        run("let a = 1; let b = c; let d = 2", &mut env),
        Err(undefined("c"))
    );
    assert_eq!(env.get("a"), Ok(double(1.0)));
    assert_eq!(env.get("b"), Err(undefined("b")));
    assert_eq!(env.get("d"), Err(undefined("d")));
    assert_eq!(run("a + 1", &mut env), Ok(double(2.0)));
}

#[test]
fn bindings_of_a_branch_end_with_the_branch() {
    let mut env = Environment::new(None);
    assert_eq!(
        run("let a = 1; if (a) { let b = 2; a + b }", &mut env),
        Ok(double(3.0))
    );
    assert_eq!(env.get("a"), Ok(double(1.0)));
    assert_eq!(env.get("b"), Err(undefined("b")));
    assert_eq!(run("b", &mut env), Err(undefined("b")));
    assert_eq!(env.current(), 0);
}

#[test]
fn a_branch_may_bind_a_name_of_an_outer_scope_anew() {
    let mut env = Environment::new(None);
    assert_eq!(
        run("let a = 1; if (a) { let a = 2; a }", &mut env),
        Ok(double(2.0))
    );
    assert_eq!(env.get("a"), Ok(double(1.0)));
    assert_eq!(
        run("if (1) { let c = 1; let c = 2 }", &mut env),
        Err(EvalError::AlreadyInitialized("c".to_string()))
    );
    assert_eq!(env.current(), 0);
    assert_eq!(env.get("a"), Ok(double(1.0)));
}

#[test]
fn nested_scopes_see_outward() {
    let top = Environment::new(None);
    let mut top = top;
    top.insert("a".to_string(), double(1.0));
    let mut inner = Environment::new(Some(top));
    assert_eq!(inner.current(), 1);
    assert_eq!(inner.len(), 2);
    assert!(!inner.in_function());
    assert_eq!(inner.get("a"), Ok(double(1.0)));
    assert!(!inner.contains("a"));
    inner.insert("a".to_string(), double(2.0));
    inner.insert("b".to_string(), double(3.0));
    assert!(inner.contains("a"));
    assert_eq!(inner.get("a"), Ok(double(2.0)));
    assert_eq!(inner.get("b"), Ok(double(3.0)));
    inner.set_current(0);
    assert_eq!(inner.get("a"), Ok(double(1.0)));
    assert_eq!(inner.get("b"), Err(undefined("b")));
    inner.enter(1, true);
    assert!(inner.in_function());
    assert_eq!(inner.current(), 2);
    assert_eq!(inner.get("b"), Ok(double(3.0)));
    assert_eq!(inner.get("zzz"), Err(undefined("zzz")));
}

#[test]
fn functions_are_called_with_their_arguments() {
    assert_eq!(eval("let f = fn(x) { x + 1 }; f(2)"), Ok(double(3.0)));
    assert_eq!(eval("let f = fn(x, y) { x - y }; f(5, 2)"), Ok(double(3.0)));
    assert_eq!(eval("let f = fn() { 7 }; f()"), Ok(double(7.0)));
    assert_eq!(eval("let f = fn() { }; f()"), Ok(Object::Null));
    assert_eq!(eval("fn(x) { x * x }(4)"), Ok(double(16.0)));
    assert_eq!(
        eval("let f = fn(x) { x + 1 }; let g = fn(x) { f(x) * 2 }; g(3)"),
        Ok(double(8.0))
    );
    assert_eq!(
        eval("let a = 10; let f = fn(x) { a + x }; f(1)"),
        Ok(double(11.0))
    );
}

#[test]
fn a_function_literal_is_a_function_of_the_current_scope() {
    let result = eval("fn(a, b) { a }");
    assert_eq!(
        result,
        Ok(Object::Function {
            params: vec!["a".to_string(), "b".to_string()],
            body: vec![Statement::Expression(ExpressionStatement::Identifier(
                "a".to_string()
            ))],
            env: 0,
        })
    );
    assert_eq!(result.unwrap().kind(), Kind::Function);
}

#[test]
fn arguments_are_evaluated_in_the_scope_of_the_caller() {
    assert_eq!(
        eval("let x = 1; let f = fn(x) { x }; let g = fn(y) { f(y + 1) }; g(x)"),
        Ok(double(2.0))
    );
    assert_eq!(
        eval("let f = fn(a) { a }; if (1) { let b = 5; f(b) }"),
        Ok(double(5.0))
    );
    assert_eq!(
        eval("let f = fn(a) { b }; if (1) { let b = 5; f(b) }"),
        Err(undefined("b"))
    );
}

#[test]
fn closures_keep_the_scope_they_were_defined_in() {
    assert_eq!(
        eval("let make = fn(x) { fn(y) { x + y } }; let add2 = make(2); add2(3)"),
        Ok(double(5.0))
    );
    assert_eq!(
        eval(
            "let make = fn(x) { fn(y) { x + y } }; let a = make(1); let b = make(10); a(1) + b(1)"
        ),
        Ok(double(13.0))
    );
    assert_eq!(eval("let f = fn() { g }; let g = 5; f()"), Ok(double(5.0)));
}

#[test]
fn scopes_end_with_the_expression_that_opened_them() {
    let mut env = Environment::new(None);
    assert_eq!(env.len(), 1);
    assert_eq!(run("if (1) { let b = 2; b }", &mut env), Ok(double(2.0)));
    assert_eq!(env.len(), 1);
    assert_eq!(
        run("let f = fn(x) { if (x) { f(x - 1) } else { 0 } }; f(5)", &mut env),
        Ok(double(0.0))
    );
    assert_eq!(env.len(), 1);
    assert_eq!(run("if (1) { zzz }", &mut env), Err(undefined("zzz")));
    assert_eq!(env.len(), 1);
    assert_eq!(
        run("let make = fn(x) { fn(y) { x + y } }; make(2)(3)", &mut env),
        Ok(double(5.0))
    );
    assert_eq!(env.len(), 1);
}

#[test]
fn scopes_live_on_with_the_functions_defined_in_them() {
    let mut env = Environment::new(None);
    assert_eq!(
        run("let make = fn(x) { fn(y) { x + y } }; let add2 = make(2)", &mut env)
            .map(|f| f.kind()),
        Ok(Kind::Function)
    );
    assert_eq!(env.len(), 2);
    assert_eq!(run("add2(3)", &mut env), Ok(double(5.0)));
    assert_eq!(env.len(), 2);
    assert_eq!(run("let add7 = make(7); add7(1) + add2(1)", &mut env), Ok(double(11.0)));
    assert_eq!(env.len(), 3);
    assert!(run("add2", &mut env).unwrap().refers_from(1));
    assert!(!run("add2", &mut env).unwrap().refers_from(2));
    assert!(run("add7", &mut env).unwrap().refers_from(2));
    assert!(!run("make", &mut env).unwrap().refers_from(1));
    assert!(Object::Return(Box::new(run("add7", &mut env).unwrap())).refers_from(2));
    assert!(!double(1.0).refers_from(0));
}

#[test]
fn releasing_discards_scopes_from_the_end() {
    let mut env = Environment::new(None);
    env.enter(0, false);
    env.enter(1, true);
    env.insert("a".to_string(), double(1.0));
    env.set_current(0);
    assert_eq!(env.len(), 3);
    env.release(1, true);
    assert_eq!(env.len(), 3);
    env.release(3, false);
    assert_eq!(env.len(), 3);
    env.release(2, false);
    assert_eq!(env.len(), 2);
    env.release(1, false);
    assert_eq!(env.len(), 1);
    assert_eq!(env.get("a"), Err(undefined("a")));
}

#[test]
fn recursion() {
    assert_eq!(
        eval("let fact = fn(n) { if (n) { n * fact(n - 1) } else { 1 } }; fact(5)"),
        Ok(double(120.0))
    );
    assert_eq!(
        eval(
            "let fib = fn(n) { if (n < 2) { return n } fib(n - 1) + fib(n - 2) }; fib(10)"
        ),
        Ok(double(55.0))
    );
}

#[test]
fn return_ends_the_function_from_nested_blocks() {
    let program = "let f = fn(x) { if (x) { if (x) { return 7 } } 9 }; ";
    assert_eq!(eval(&format!("{} f(1)", program)), Ok(double(7.0)));
    assert_eq!(eval(&format!("{} f(0)", program)), Ok(double(9.0)));
    assert_eq!(
        eval("let f = fn(x) { if (x) { if (x) { return x + 1 } 5 } 9 }; f(1) + f(0)"),
        Ok(double(11.0))
    );
    assert_eq!(eval("let f = fn() { return 1 2 }; f()"), Ok(double(1.0)));
    assert_eq!(eval("let f = fn() { return }; f()"), Ok(Object::Null));
    assert_eq!(
        eval("let f = fn() { if (1) { return } 2 }; f()"),
        Ok(Object::Null)
    );
}

#[test]
fn return_outside_a_function_is_an_error() {
    assert_eq!(eval("return 5"), Err(EvalError::ReturnOutsideFunction));
    assert_eq!(eval("return"), Err(EvalError::ReturnOutsideFunction));
    assert_eq!(
        eval("if (1) { if (1) { return 7 } }"),
        Err(EvalError::ReturnOutsideFunction)
    );
    assert_eq!(
        eval("let a = 1; return a; let b = 2"),
        Err(EvalError::ReturnOutsideFunction)
    );
}

#[test]
fn a_block_outside_a_function_passes_a_return_on() {
    let block = program("1 return 2 3").statements;
    let mut env = Environment::new(None);
    assert_eq!(
        evaluator().eval_block(&block, &mut env),
        Ok(Object::Return(Box::new(double(2.0))))
    );
    env.enter(0, true);
    assert_eq!(evaluator().eval_block(&block, &mut env), Ok(double(2.0)));
    let block = program("let a = 1; a + 1").statements;
    assert_eq!(evaluator().eval_block(&block, &mut env), Ok(double(2.0)));
    assert_eq!(env.get("a"), Ok(double(1.0)));
    assert_eq!(
        evaluator().eval_block(&Vec::new(), &mut env),
        Ok(Object::Null)
    );
}

#[test]
fn calling_what_is_no_function_is_an_error() {
    assert_eq!(
        eval("let a = 1; a(2)"),
        Err(EvalError::NotAFunction(Kind::Number))
    );
    assert_eq!(eval("let a; a()"), Err(EvalError::NotAFunction(Kind::Null)));
    assert_eq!(eval("a()"), Err(undefined("a")));
}

#[test]
fn wrong_argument_count_is_an_error() {
    assert_eq!(
        eval("let f = fn(x) { x }; f()"),
        Err(EvalError::WrongArgumentCount {
            expected: 1,
            found: 0
        })
    );
    assert_eq!(
        eval("let f = fn() { 1 }; f(1, 2)"),
        Err(EvalError::WrongArgumentCount {
            expected: 0,
            found: 2
        })
    );
    assert_eq!(eval("let f = fn(x) { x }; f(y)"), Err(undefined("y")));
}

#[test]
fn a_parameter_that_occurs_twice_is_an_error() {
    let mut env = Environment::new(None);
    assert_eq!(
        run("fn(a, a) { a }(1, 2)", &mut env),
        Err(EvalError::AlreadyInitialized("a".to_string()))
    );
    assert_eq!(env.current(), 0);
}

#[test]
fn a_function_of_an_unknown_scope_is_an_error() {
    let mut env = Environment::new(None);
    env.insert(
        "f".to_string(),
        Object::Function {
            params: vec![],
            body: vec![],
            env: 99,
        },
    );
    assert_eq!(run("f()", &mut env), Err(EvalError::UnknownScope(99)));
}

#[test]
fn nesting_beyond_the_limit_is_an_error() {
    let evaluator = evaluator().with_depth_limit(40);
    let mut env = Environment::new(None);
    assert_eq!(
        evaluator.eval(program("let f = fn(x) { f(x) }; f(1)"), &mut env),
        Err(EvalError::DepthExceeded)
    );
    assert_eq!(env.current(), 0);
    assert_eq!(
        evaluator.eval(program("let g = fn(x) { x }; g(1)"), &mut env),
        Ok(double(1.0))
    );
    let shallow = self::evaluator().with_depth_limit(2);
    assert_eq!(shallow.eval(program("1 + 2"), &mut env), Ok(double(3.0)));
    assert_eq!(
        shallow.eval(program("1 + 2 + 3"), &mut env),
        Err(EvalError::DepthExceeded)
    );
    let none = self::evaluator().with_depth_limit(0);
    assert_eq!(none.eval(program("1"), &mut env), Err(EvalError::DepthExceeded));
    assert_eq!(none.eval(program("let z"), &mut env), Ok(Object::Null));
    assert_eq!(DEFAULT_DEPTH_LIMIT, 256);
}

#[test]
fn a_long_sum_nests_as_deeply_as_it_has_terms() {
    let sum = |terms: usize| vec!["1"; terms].join(" + ");
    assert_eq!(eval(&sum(200)), Ok(double(200.0)));
    assert_eq!(eval(&sum(256)), Ok(double(256.0)));
    assert_eq!(eval(&sum(257)), Err(EvalError::DepthExceeded));
}

#[test]
fn the_default_limit_allows_ordinary_recursion() {
    assert_eq!(
        eval("let count = fn(n) { if (n) { count(n - 1) } else { 0 } }; count(25)"),
        Ok(double(0.0))
    );
}

#[test]
fn a_session_keeps_its_bindings() {
    let mut env = Environment::new(None);
    assert_eq!(run("let a = 1", &mut env), Ok(double(1.0)));
    assert_eq!(run("let inc = fn(x) { x + a }", &mut env).map(|f| f.kind()), Ok(Kind::Function));
    assert_eq!(run("inc(41)", &mut env), Ok(double(42.0)));
    assert_eq!(run("zzz", &mut env), Err(undefined("zzz")));
    assert_eq!(run("inc(a)", &mut env), Ok(double(2.0)));
}

#[test]
fn kinds_of_values() {
    assert_eq!(double(1.0).kind(), Kind::Number);
    assert_eq!(text("a").kind(), Kind::String);
    assert_eq!(Object::Null.kind(), Kind::Null);
    assert_eq!(Object::Return(Box::new(Object::Null)).kind(), Kind::Return);
    assert_eq!(double(1.0).clone(), double(1.0));
    assert_eq!(
        Object::Return(Box::new(text("a"))).clone(),
        Object::Return(Box::new(text("a")))
    );
}

#[test]
fn copies_are_equal_to_what_they_copy() {
    let program = program("let f = fn(a, b) { if (a) { return -b } else if (b) { f(a, 1) } (a + b) * 2 }");
    let copy = interpreter::statement::copy_statements(&program.statements);
    assert_eq!(copy, program.statements);
    assert_eq!(program.statements[0].clone(), program.statements[0]);
    let function = eval("fn(a) { a + 1 }").unwrap();
    assert_eq!(function.clone(), function);
    assert_eq!(interpreter::object::copy_object(&function), function);
    assert_eq!(Token::Ident("a".to_string()).clone(), Token::Ident("a".to_string()));
    assert_eq!(Token::Num("1".to_string()).clone(), Token::Num("1".to_string()));
    assert_eq!(Token::Lte.clone(), Token::Lte);
}

#[test]
fn texts_compare_by_their_characters() {
    assert!(same_text("", ""));
    assert!(same_text("abc", "abc"));
    assert!(!same_text("abc", "abd"));
    assert!(!same_text("abc", "ab"));
    assert!(same_text("caf\u{e9}", "caf\u{e9}"));
}
