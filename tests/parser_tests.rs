use aurorac::ast::{Export, ExportType, Expression, FuncParam, Program, Statements};
use aurorac::error::print_error;
use aurorac::lexer::Lexer;
use aurorac::parser::{parse_int_text, float_text_valid, ErrorKind, Parser};
use aurorac::tokens::Token;
use aurorac::types::Type;

fn parser_of(source: &str) -> Parser {
    Parser::new(Lexer::new(source.chars().collect()))
}

fn ident(s: &str) -> Expression {
    Expression::Identifier { val: s.to_string() }
}

fn statement_error(source: &str) -> ErrorKind {
    parser_of(source).parse_statement().unwrap_err().kind
}

#[test]
fn variable_declaration() {
    let mut parser = parser_of("let x : i32 = 5");
    let statement = parser.parse_statement().unwrap();
    assert_eq!(
        statement,
        Statements::VariableDeclaration {
            name: "x".to_string(),
            value: Expression::IntLiteral { val: 5 },
            ty: Type::Int32,
        }
    );
}

#[test]
fn module_declaration() {
    let mut parser = parser_of("module demo");
    assert_eq!(
        parser.parse().unwrap(),
        vec![Statements::ModuleDeclaration { name: "demo".to_string() }]
    );
}

#[test]
fn public_function_declaration() {
    let mut parser = parser_of("pub fn add(a: i32, b: i32) -> i32 add(a, b) end");
    let program = parser.parse().unwrap();
    let expected = Statements::FunctionDeclaration {
        name: "add".to_string(),
        params: vec![
            FuncParam { name: "a".to_string(), ty: Type::Int32 },
            FuncParam { name: "b".to_string(), ty: Type::Int32 },
        ],
        body: vec![Statements::ExpressionStatement {
            expr: Expression::FunctionCall {
                name: "add".to_string(),
                params: vec![ident("a"), ident("b")],
            },
        }],
        return_type: Type::Int32,
    };
    assert_eq!(program, vec![expected.clone_for_test()]);
    assert_eq!(
        parser.exports,
        vec![Export { kind: ExportType::Function, statement: expected }]
    );
}

trait CloneForTest {
    fn clone_for_test(&self) -> Self;
}

impl CloneForTest for Statements {
    fn clone_for_test(&self) -> Self {
        aurorac::ast::clone_stmt(self)
    }
}

#[test]
fn array_variable_type() {
    let mut parser = parser_of("let y : array[i32] = 1");
    match parser.parse_statement().unwrap() {
        Statements::VariableDeclaration { ty, .. } => {
            assert_eq!(ty, Type::Array(Box::new(Type::Int32)))
        }
        other => panic!("unexpected {:?}", other),
    }
}

#[test]
fn missing_colon_is_a_typed_error() {
    let err = parser_of("let x = 5").parse_statement().unwrap_err();
    assert_eq!(err.kind, ErrorKind::ExpectedColon);
    assert_eq!(err.code, "AUR2002");
    assert_eq!(err.message, "Expected ':' 1:6");
    assert!(parser_of("let x = 5").parse().is_err());
}

#[test]
fn error_message_counts_lines() {
    let mut parser = parser_of("module demo\nlet x = 5");
    assert!(parser.parse_statement().is_ok());
    let err = parser.parse_statement().unwrap_err();
    assert_eq!(err.message, "Expected ':' 2:18");
}

#[test]
fn unterminated_call_is_a_typed_error() {
    for source in ["foo(a, b", "f(1", "f(1,", "f(", "f(g(1)"] {
        let err = parser_of(source).parse_statement().unwrap_err();
        assert_eq!(err.kind, ErrorKind::ExpressionError);
        assert_eq!(err.code, "AUR3000");
        assert!(err.message.starts_with("unexpected end of file"));
        assert_eq!(err.token, None);
    }
}

#[test]
fn offending_token_is_carried() {
    let err = parser_of(")").parse_statement().unwrap_err();
    assert_eq!(err.kind, ErrorKind::UnknownKeyword);
    assert_eq!(err.code, "AUR2008");
    assert_eq!(err.token, Some(Token::RParen { val: ')' }));
    let err = parser_of(")").parse_expr().unwrap_err();
    assert_eq!(err.kind, ErrorKind::ExpressionError);
    assert_eq!(err.code, "AUR7000");
    assert_eq!(err.token, Some(Token::RParen { val: ')' }));
    assert_eq!(err.message, "can not parse this token 1:2");
}

#[test]
fn each_error_kind() {
    assert_eq!(statement_error(""), ErrorKind::EndOfFile);
    assert_eq!(statement_error("let : i32 = 1"), ErrorKind::ExpectedIdentifier);
    assert_eq!(statement_error("let x : = 1"), ErrorKind::ExpectedType);
    assert_eq!(statement_error("let x : i32 1"), ErrorKind::ExpectedAssign);
    assert_eq!(statement_error("let x : i32 = )"), ErrorKind::ExpressionError);
    let err = parser_of("let x : i64 = 99999999999999999999").parse_statement().unwrap_err();
    assert_eq!((err.kind, err.code.as_str()), (ErrorKind::ExpressionError, "AUR7001"));
    let err = parser_of("let x : f64 = 1.2.3").parse_statement().unwrap_err();
    assert_eq!((err.kind, err.code.as_str()), (ErrorKind::ExpressionError, "AUR7001"));
    assert_eq!(statement_error("module 5"), ErrorKind::ExpectedModuleName);
    assert_eq!(statement_error("fn 5"), ErrorKind::ExpectedIdentifier);
    assert_eq!(statement_error("fn f x"), ErrorKind::ExpectedLParen);
    assert_eq!(statement_error("fn f(5)"), ErrorKind::ExpectedParameter);
    assert_eq!(statement_error("fn f(a i32)"), ErrorKind::ExpectedColon);
    assert_eq!(statement_error("if"), ErrorKind::UnknownKeyword);
    assert_eq!(statement_error("+"), ErrorKind::UnknownKeyword);
}

#[test]
fn literals() {
    let mut parser = parser_of("\"hi\" 42 2.5 true false name");
    assert_eq!(
        parser.parse().unwrap(),
        vec![
            Statements::ExpressionStatement { expr: Expression::StringLiteral { val: "hi".to_string() } },
            Statements::ExpressionStatement { expr: Expression::IntLiteral { val: 42 } },
            Statements::ExpressionStatement { expr: Expression::FloatLiteral { val: "2.5".to_string() } },
            Statements::ExpressionStatement { expr: Expression::BooleanLiteral { val: true } },
            Statements::ExpressionStatement { expr: Expression::BooleanLiteral { val: false } },
            Statements::ExpressionStatement { expr: ident("name") },
        ]
    );
    assert_eq!(parser.lexer.cursor.position, 27);
}

#[test]
fn nested_calls() {
    let mut parser = parser_of("f(g(1), h())");
    assert_eq!(
        parser.parse_expr().unwrap(),
        Expression::FunctionCall {
            name: "f".to_string(),
            params: vec![
                Expression::FunctionCall {
                    name: "g".to_string(),
                    params: vec![Expression::IntLiteral { val: 1 }],
                },
                Expression::FunctionCall { name: "h".to_string(), params: vec![] },
            ],
        }
    );
}

#[test]
fn function_without_arrow_or_type_returns_void() {
    let mut parser = parser_of("fn main() end");
    assert_eq!(
        parser.parse().unwrap(),
        vec![Statements::FunctionDeclaration {
            name: "main".to_string(),
            params: vec![],
            body: vec![],
            return_type: Type::Void,
        }]
    );
    assert!(parser.exports.is_empty());
}

#[test]
fn nested_public_functions_export_inner_first() {
    let mut parser = parser_of("pub fn outer() -> void pub fn inner() end let z : bool = true end");
    let program = parser.parse().unwrap();
    assert_eq!(program.len(), 1);
    match &program[0] {
        Statements::FunctionDeclaration { body, .. } => assert_eq!(body.len(), 2),
        other => panic!("unexpected {:?}", other),
    }
    assert_eq!(parser.exports.len(), 2);
    assert!(matches!(&parser.exports[0].statement, Statements::FunctionDeclaration { name, .. } if name == "inner"));
    assert!(matches!(&parser.exports[1].statement, Statements::FunctionDeclaration { name, .. } if name == "outer"));
}

#[test]
fn block_stops_at_a_failing_statement() {
    let mut parser = parser_of("fn f() let x = 1");
    let statement = parser.parse_statement().unwrap();
    assert_eq!(
        statement,
        Statements::FunctionDeclaration {
            name: "f".to_string(),
            params: vec![],
            body: vec![],
            return_type: Type::Void,
        }
    );
}

#[test]
fn parse_block_reads_up_to_end() {
    let mut parser = parser_of("x y end z");
    let block = parser.parse_block();
    assert_eq!(
        block,
        vec![
            Statements::ExpressionStatement { expr: ident("x") },
            Statements::ExpressionStatement { expr: ident("y") },
        ]
    );
    assert_eq!(parser.parse_statement().unwrap(), Statements::ExpressionStatement { expr: ident("z") });
}

#[test]
fn number_texts() {
    let d = |s: &str| s.chars().collect::<Vec<char>>();
    assert_eq!(parse_int_text(&d("0")), Some(0));
    assert_eq!(parse_int_text(&d("9223372036854775807")), Some(i64::MAX));
    assert_eq!(parse_int_text(&d("9223372036854775808")), None);
    assert_eq!(parse_int_text(&d("")), None);
    assert_eq!(parse_int_text(&d("1a")), None);
    assert!(float_text_valid(&d("1.5")));
    assert!(float_text_valid(&d("1.")));
    assert!(!float_text_valid(&d("1.2.3")));
    assert!(!float_text_valid(&d("12")));
}

#[test]
fn print_error_reports_line_and_read_position() {
    let mut lexer = Lexer::new("a\nbc".chars().collect());
    lexer.next_token();
    lexer.next_token();
    assert_eq!(print_error("oops", &lexer), "oops 2:5");
}

#[test]
fn program_compiles_from_parts() {
    let program = Program::compile((vec![Statements::ModuleDeclaration { name: "m".to_string() }], vec![]));
    assert_eq!(program.statements.len(), 1);
    assert!(program.exports.is_empty());
}
