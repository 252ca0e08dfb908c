use voltage::ast::{CmpOperators, Expression, FuncParam, Operator, Statement, Type};
use voltage::engine::{Engine, EvalError, MAX_CALL_DEPTH};
use voltage::lexer::{tokenize, LexError, Lexer};
use voltage::parser::{parse_int_text, parse_tokens, ParseError, Parser};
use voltage::tokens::Token;
use voltage::value::{Envoirment, FunctionType, Value};
use voltage::{parse_source, FrontError};

fn chars(s: &str) -> Vec<char> {
    s.chars().collect()
}

fn parse(src: &str) -> Vec<Statement> {
    parse_source(chars(src)).expect("program should parse")
}

fn run(src: &str) -> (Engine, Result<(), EvalError>) {
    let program = parse(src);
    let mut engine = Engine::new();
    let r = engine.exectute(&program);
    (engine, r)
}

fn lit(v: i64) -> Box<Expression> {
    Box::new(Expression::IntLiteral { val: v })
}

fn binary(op: Operator, lhs: Box<Expression>, rhs: Box<Expression>) -> Box<Expression> {
    Box::new(Expression::BinaryExpr { op, lhs, rhs })
}

fn global_int(engine: &Engine, name: &str) -> Option<i64> {
    match engine.env.get(&name.to_string()) {
        Some(Value::Int { value }) => Some(*value),
        _ => None,
    }
}

fn eval_top(engine: &mut Engine, src: &str) -> Result<Value, EvalError> {
    let program = parse(src);
    match &program[0] {
        Statement::ExprStatement { expr } => engine.expression_to_value(expr, None, MAX_CALL_DEPTH),
        other => panic!("expected an expression, found {:?}", other),
    }
}

#[test]
fn let_with_int_literal_round_trips() {
    let program = parse("let x : int = 42");
    assert_eq!(
        program,
        vec![Statement::VariableDeclaration {
            name: "x".to_string(),
            value: Expression::IntLiteral { val: 42 },
            ty: Type::Int,
        }]
    );
}

#[test]
fn multiplication_binds_tighter_than_addition() {
    let program = parse("1 + 2 * 3");
    assert_eq!(
        program,
        vec![Statement::ExprStatement {
            expr: *binary(Operator::Plus, lit(1), binary(Operator::Multiplication, lit(2), lit(3))),
        }]
    );
    let program = parse("1 * 2 + 3");
    assert_eq!(
        program,
        vec![Statement::ExprStatement {
            expr: *binary(Operator::Plus, binary(Operator::Multiplication, lit(1), lit(2)), lit(3)),
        }]
    );
}

#[test]
fn subtraction_is_left_associative() {
    let program = parse("8 - 3 - 2");
    assert_eq!(
        program,
        vec![Statement::ExprStatement {
            expr: *binary(Operator::Minus, binary(Operator::Minus, lit(8), lit(3)), lit(2)),
        }]
    );
    let (engine, r) = run("let r : int = 8 - 3 - 2");
    assert_eq!(r, Ok(()));
    assert_eq!(global_int(&engine, "r"), Some(3));
}

#[test]
fn extra_argument_is_an_arity_error() {
    let (_, r) = run("func f() : int return 1 end f(1)");
    assert_eq!(r, Err(EvalError::Arity));
    let (_, r) = run("func g(a : int, b : int) : int return a end g(1)");
    assert_eq!(r, Err(EvalError::Arity));
}

#[test]
fn call_locals_do_not_leak() {
    let (mut engine, r) = run("func f(a: int) -> int let y : int = a + 1 return y end let r : int = f(4)");
    assert_eq!(r, Ok(()));
    assert_eq!(global_int(&engine, "r"), Some(5));
    assert_eq!(eval_top(&mut engine, "y").err(), Some(EvalError::UnresolvedName));
    assert_eq!(eval_top(&mut engine, "a").err(), Some(EvalError::UnresolvedName));
}

#[test]
fn first_return_wins() {
    let (mut engine, r) =
        run("func f() : int return 1 func marker() end return 2 end let r : int = f()");
    assert_eq!(r, Ok(()));
    assert_eq!(global_int(&engine, "r"), Some(1));
    assert_eq!(eval_top(&mut engine, "marker()").err(), Some(EvalError::UnresolvedName));
}

#[test]
fn division_truncates_and_never_mixes() {
    let (engine, r) = run("let a : int = 7 / 2 let b : int = 0 - 7 / 2 let c : int = 0 - 7");
    assert_eq!(r, Ok(()));
    assert_eq!(global_int(&engine, "a"), Some(3));
    assert_eq!(global_int(&engine, "b"), Some(-3));
    let mut engine = Engine::new();
    let neg = Value::Int { value: -7 };
    let two = Value::Int { value: 2 };
    match engine.run_binary_op(&neg, Operator::Division, &two) {
        Ok(Value::Int { value }) => assert_eq!(value, -3),
        other => panic!("unexpected {:?}", other),
    }
    assert_eq!(eval_top(&mut engine, "7 / 2.0").err(), Some(EvalError::TypeMismatch));
    assert_eq!(eval_top(&mut engine, "7.0 / 2").err(), Some(EvalError::TypeMismatch));
    assert_eq!(eval_top(&mut engine, "7.0 / 2.0").err(), Some(EvalError::Unimplemented));
    assert_eq!(eval_top(&mut engine, "7 / 0").err(), Some(EvalError::Arithmetic));
}

#[test]
fn if_runs_its_body_only_when_the_comparison_holds() {
    let (mut engine, r) = run("if 3 == 3 { let z : int = 1 func ran() end }");
    assert_eq!(r, Ok(()));
    assert!(matches!(eval_top(&mut engine, "ran()"), Ok(Value::Null)));
    assert_eq!(eval_top(&mut engine, "z").err(), Some(EvalError::UnresolvedName));
    let (mut engine, r) = run("if 3 == 4 { let z : int = 1 func ran() end }");
    assert_eq!(r, Ok(()));
    assert_eq!(eval_top(&mut engine, "ran()").err(), Some(EvalError::UnresolvedName));
    assert_eq!(eval_top(&mut engine, "z").err(), Some(EvalError::UnresolvedName));
}

#[test]
fn ordering_comparisons() {
    let (engine, r) = run(
        "let a : int = 0 if 1 < 2 { func lt() end } if 2 <= 2 { func le() end } \
         if 3 > 2 { func gt() end } if 2 >= 3 { func ge() end } if 1 != 2 { func ne() end } \
         if \"ab\" < \"b\" { func text() end } if 'a' == 1 { func mixed() end }",
    );
    assert_eq!(r, Ok(()));
    let declared = |n: &str| engine.globals.get(&n.to_string()).is_some();
    assert!(declared("lt"));
    assert!(declared("le"));
    assert!(declared("gt"));
    assert!(!declared("ge"));
    assert!(declared("ne"));
    assert!(declared("text"));
    assert!(!declared("mixed"));
}

#[test]
fn redeclaration_overwrites() {
    let (engine, r) = run("let x : int = 1 let x : int = x + 41");
    assert_eq!(r, Ok(()));
    assert_eq!(global_int(&engine, "x"), Some(42));
    assert_eq!(engine.env.global_variables.len(), 1);
}

#[test]
fn environment_set_and_get() {
    let mut env = Envoirment::new();
    env.set("a".to_string(), Value::Int { value: 1 });
    env.set("b".to_string(), Value::Bool { value: true });
    env.set("a".to_string(), Value::Int { value: 2 });
    assert!(matches!(env.get(&"a".to_string()), Some(Value::Int { value: 2 })));
    assert!(matches!(env.get(&"b".to_string()), Some(Value::Bool { value: true })));
    assert!(env.get(&"c".to_string()).is_none());
    assert_eq!(env.global_variables.len(), 2);
}

#[test]
fn recursion_and_depth_limit() {
    let (engine, r) = run(
        "func fact(n : int) : int if n <= 1 { return 1 } return n * fact(n - 1) end \
         let r : int = fact(10)",
    );
    assert_eq!(r, Ok(()));
    assert_eq!(global_int(&engine, "r"), Some(3628800));
    let (_, r) = run("func loop(n : int) : int return loop(n) end loop(1)");
    assert_eq!(r, Err(EvalError::DepthExceeded));
}

#[test]
fn parameters_shadow_globals_and_globals_stay_visible() {
    let (engine, r) = run(
        "let a : int = 100 let k : int = 5 func f(a : int) : int return a + k end let r : int = f(1)",
    );
    assert_eq!(r, Ok(()));
    assert_eq!(global_int(&engine, "r"), Some(6));
    assert_eq!(global_int(&engine, "a"), Some(100));
}

#[test]
fn runtime_errors() {
    let (_, r) = run("let x : int = y");
    assert_eq!(r, Err(EvalError::UnresolvedName));
    let (_, r) = run("let x : int = nothing()");
    assert_eq!(r, Err(EvalError::UnresolvedName));
    let (_, r) = run("let x : int = 1 + \"s\"");
    assert_eq!(r, Err(EvalError::TypeMismatch));
    let (_, r) = run("let x : int = 9223372036854775807 + 1");
    assert_eq!(r, Err(EvalError::Arithmetic));
    let (_, r) = run("return 1");
    assert_eq!(r, Err(EvalError::Unimplemented));
    let (engine, r) = run("let a : int = 1 let b : int = 1 / 0 let c : int = 3");
    assert_eq!(r, Err(EvalError::Arithmetic));
    assert_eq!(global_int(&engine, "a"), Some(1));
    assert_eq!(global_int(&engine, "c"), None);
}

#[test]
fn unary_expression_is_unimplemented() {
    let mut engine = Engine::new();
    let e = Expression::UnaryExpr { op: Operator::Minus, child: lit(1) };
    assert_eq!(engine.expression_to_value(&e, None, MAX_CALL_DEPTH).err(), Some(EvalError::Unimplemented));
}

#[test]
fn lexer_operators_and_literals() {
    let toks = tokenize(chars("== != <= >= -> = ! < > - + * / ; : ( ) , { }")).unwrap();
    assert_eq!(
        toks,
        vec![
            Token::Eq { val: ['=', '='] },
            Token::NotEq { val: ['!', '='] },
            Token::LtOrEq { val: ['<', '='] },
            Token::GtOrEq { val: ['>', '='] },
            Token::Arrow { val: "->".to_string() },
            Token::Assign { val: '=' },
            Token::Bang { val: '!' },
            Token::Lt { val: '<' },
            Token::Gt { val: '>' },
            Token::Minus { val: '-' },
            Token::Plus { val: '+' },
            Token::Multiplication { val: '*' },
            Token::Division { val: '/' },
            Token::Semicolon { val: ';' },
            Token::Colon { val: ':' },
            Token::LParen { val: '(' },
            Token::RParen { val: ')' },
            Token::Comma { val: ',' },
            Token::LBrace { val: '{' },
            Token::RBrace { val: '}' },
        ]
    );
    let toks = tokenize(chars("\t\"a\\\"b\" 'c' 12 3.5 func foo1 end\r\n")).unwrap();
    assert_eq!(
        toks,
        vec![
            Token::String { val: chars("a\"b") },
            Token::Char { val: 'c' },
            Token::Int { val: chars("12") },
            Token::Float { val: chars("3.5") },
            Token::Function,
            Token::Identifier { val: chars("foo1") },
            Token::End,
        ]
    );
    assert_eq!(tokenize(chars("")).unwrap(), vec![]);
}

#[test]
fn lexer_errors() {
    assert_eq!(
        tokenize(chars("let x = 1 @")),
        Err(LexError::UnknownCharacter { position: 10, ch: '@' })
    );
    assert_eq!(tokenize(chars("x \"abc")), Err(LexError::UnterminatedString { position: 2 }));
    assert_eq!(tokenize(chars("'ab'")), Err(LexError::MalformedChar { position: 0 }));
}

#[test]
fn keywords() {
    for (w, t) in [
        ("func", Token::Function),
        ("let", Token::Let),
        ("true", Token::True),
        ("false", Token::False),
        ("if", Token::If),
        ("else", Token::Else),
        ("return", Token::Return),
        ("end", Token::End),
        ("module", Token::Module),
        ("public", Token::Public),
    ] {
        assert_eq!(Token::get_keyword_token(&chars(w)), Ok(t));
    }
    assert!(Token::get_keyword_token(&chars("lets")).is_err());
}

#[test]
fn lexer_cursor() {
    let mut lexer = Lexer::new(chars(" a"));
    assert_eq!(lexer.ch, ' ');
    lexer.skip_whitespace();
    assert_eq!(lexer.position, 1);
    assert_eq!(lexer.ch, 'a');
    lexer.read_char_back();
    assert_eq!(lexer.position, 0);
    lexer.read_char();
    assert_eq!(lexer.next_token(), Ok(Token::Identifier { val: chars("a") }));
    assert_eq!(lexer.next_token(), Ok(Token::EOF));
}

#[test]
fn parser_declarations() {
    let program = parse("func add(a : int, b : i64) : int return a + b end add(1, 2)");
    assert_eq!(
        program,
        vec![
            Statement::FunctionDeclaration {
                name: "add".to_string(),
                params: vec![
                    FuncParam { name: "a".to_string(), ty: Type::Int },
                    FuncParam { name: "b".to_string(), ty: Type::Int64 },
                ],
                body: vec![Statement::Return {
                    value: Expression::BinaryExpr {
                        op: Operator::Plus,
                        lhs: Box::new(Expression::Identifier { val: "a".to_string() }),
                        rhs: Box::new(Expression::Identifier { val: "b".to_string() }),
                    },
                }],
                return_type: Type::Int,
            },
            Statement::ExprStatement {
                expr: Expression::FunctionCall {
                    name: Box::new(Expression::Identifier { val: "add".to_string() }),
                    params: vec![Expression::IntLiteral { val: 1 }, Expression::IntLiteral { val: 2 }],
                },
            },
        ]
    );
    let program = parse("func f() end if x >= 1 { f() }");
    assert_eq!(
        program,
        vec![
            Statement::FunctionDeclaration {
                name: "f".to_string(),
                params: vec![],
                body: vec![],
                return_type: Type::Void,
            },
            Statement::IfStatement {
                expr1: Expression::Identifier { val: "x".to_string() },
                cmp_op: CmpOperators::GreaterThenOrEqual,
                expr2: Expression::IntLiteral { val: 1 },
                body: vec![Statement::ExprStatement {
                    expr: Expression::FunctionCall {
                        name: Box::new(Expression::Identifier { val: "f".to_string() }),
                        params: vec![],
                    },
                }],
            },
        ]
    );
    let program = parse("let s : string = \"hi\" let c : char = 'q' let b : bool = true let f : float = 2.5");
    assert_eq!(
        program,
        vec![
            Statement::VariableDeclaration {
                name: "s".to_string(),
                value: Expression::StringLiteral { val: "hi".to_string() },
                ty: Type::Unknown,
            },
            Statement::VariableDeclaration {
                name: "c".to_string(),
                value: Expression::CharLiteral { val: 'q' },
                ty: Type::Char,
            },
            Statement::VariableDeclaration {
                name: "b".to_string(),
                value: Expression::BooleanLiteral { val: true },
                ty: Type::Unknown,
            },
            Statement::VariableDeclaration {
                name: "f".to_string(),
                value: Expression::FloatLiteral { val: "2.5".to_string() },
                ty: Type::Float,
            },
        ]
    );
}

#[test]
fn parser_errors() {
    assert_eq!(
        parse_source(chars("let x = 1")),
        Err(FrontError::Parse(ParseError::UnexpectedToken { position: 2 }))
    );
    assert_eq!(parse_source(chars("let x : int =")), Err(FrontError::Parse(ParseError::UnexpectedEnd)));
    assert_eq!(
        parse_source(chars("if 1 + 2 { }")),
        Err(FrontError::Parse(ParseError::UnexpectedToken { position: 4 }))
    );
    assert_eq!(
        parse_source(chars("let x : int = 99999999999999999999")),
        Err(FrontError::Parse(ParseError::InvalidNumber { position: 5 }))
    );
    assert_eq!(
        parse_source(chars("let x : float = 1.2.3")),
        Err(FrontError::Parse(ParseError::InvalidNumber { position: 5 }))
    );
    assert_eq!(parse_source(chars("func f() return 1")), Err(FrontError::Parse(ParseError::UnexpectedEnd)));
    assert_eq!(parse_source(chars("@")), Err(FrontError::Lex(LexError::UnknownCharacter { position: 0, ch: '@' })));
    assert_eq!(parse_source(chars("1 + 2 ) 3")).unwrap().len(), 1);
}

#[test]
fn parser_cursor_primitives() {
    let toks = tokenize(chars("a < b")).unwrap();
    let mut p = Parser::new(toks.clone());
    assert_eq!(p.peak_next_token(), Some(Token::Identifier { val: chars("a") }));
    assert_eq!(p.forward(2), Some(Token::Lt { val: '<' }));
    assert_eq!(p.forward(4), None);
    assert_eq!(p.next_token(), Some(Token::Identifier { val: chars("a") }));
    assert_eq!(p.parse_cmp_op(), Ok(CmpOperators::LessThen));
    assert_eq!(p.parse_expression(0), Ok(Some(Expression::Identifier { val: "b".to_string() })));
    assert_eq!(p.next_token(), None);
    assert_eq!(parse_tokens(toks).unwrap().len(), 1);
    let mut p = Parser::new(tokenize(chars("let x : int = 1 }")).unwrap());
    assert_eq!(p.parse_block(Token::RBrace { val: '}' }).unwrap().len(), 1);
}

#[test]
fn int_literal_text() {
    assert_eq!(parse_int_text(&chars("0")), Some(0));
    assert_eq!(parse_int_text(&chars("9223372036854775807")), Some(i64::MAX));
    assert_eq!(parse_int_text(&chars("9223372036854775808")), None);
    assert_eq!(parse_int_text(&chars("")), None);
    assert_eq!(parse_int_text(&chars("1a")), None);
}

#[test]
fn string_values_and_char_values() {
    let (engine, r) = run("let s : string = \"hello\" let c : char = 'x' let t : bool = false");
    assert_eq!(r, Ok(()));
    match engine.env.get(&"s".to_string()) {
        Some(Value::String { value }) => assert_eq!(value, "hello"),
        other => panic!("unexpected {:?}", other),
    }
    assert!(matches!(engine.env.get(&"c".to_string()), Some(Value::Char { value: 'x' })));
    assert!(matches!(engine.env.get(&"t".to_string()), Some(Value::Bool { value: false })));
}

#[test]
fn native_function_arity_is_checked() {
    let mut engine = Engine::new();
    engine.globals.set(
        "host".to_string(),
        Value::Function {
            name: "host".to_string(),
            kind: FunctionType::Native,
            params: vec![],
            body: vec![],
            return_type: Type::Void,
        },
    );
    assert_eq!(eval_top(&mut engine, "host(1)").err(), Some(EvalError::Arity));
    assert!(matches!(eval_top(&mut engine, "host()"), Ok(Value::Null)));
}

#[test]
fn deep_recursion_within_the_limit() {
    let (engine, r) = run(
        "func down(n : int) : int if n == 0 { return 0 } return down(n - 1) end \
         let r : int = down(900)",
    );
    assert_eq!(r, Ok(()));
    assert_eq!(global_int(&engine, "r"), Some(0));
}

#[test]
fn read_char_at_the_end_stays() {
    let mut lexer = Lexer::new(chars("a"));
    lexer.read_char();
    assert_eq!(lexer.position, 1);
    assert_eq!(lexer.ch, '\0');
    lexer.read_char();
    assert_eq!(lexer.position, 1);
    assert_eq!(lexer.ch, '\0');
}

#[test]
fn block_with_any_delimiter() {
    let mut p = Parser::new(tokenize(chars("let x : int = 1 ; rest")).unwrap());
    let body = p.parse_block(Token::Semicolon { val: '?' }).unwrap();
    assert_eq!(body.len(), 1);
    assert_eq!(p.next_token(), Some(Token::Identifier { val: chars("rest") }));
    let mut p = Parser::new(tokenize(chars("let x : int = 1")).unwrap());
    assert_eq!(p.parse_block(Token::Semicolon { val: ';' }), Err(ParseError::UnexpectedEnd));
}

#[test]
fn unicode_numbers_and_identifier_letters() {
    assert_eq!(
        tokenize(chars("na\u{ef}ve2 \u{663}4 x\u{665}")).unwrap(),
        vec![
            Token::Identifier { val: chars("na\u{ef}ve2") },
            Token::Int { val: chars("\u{663}4") },
            Token::Identifier { val: chars("x\u{665}") },
        ]
    );
    assert_eq!(
        tokenize(chars("\u{e9}t\u{e9}")),
        Err(LexError::UnknownCharacter { position: 0, ch: '\u{e9}' })
    );
    assert_eq!(
        parse_source(chars("let v : int = \u{663}")),
        Err(FrontError::Parse(ParseError::InvalidNumber { position: 5 }))
    );
    assert_eq!(tokenize(chars("1.5.")).unwrap(), vec![Token::Float { val: chars("1.5.") }]);
}
