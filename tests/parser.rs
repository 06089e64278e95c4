use monkey::ast::{Expression, Node, Program, Statement};
use monkey::lexer::Lexer;
use monkey::parser::Parser;
use monkey::token::Token;

fn parse(input: &str) -> (Program, Vec<String>) {
    let lexer = Lexer::new(input.to_string());
    let mut parser = Parser::new(lexer);
    let program = parser.parse_program();
    let errors = parser.errors().clone();
    (program, errors)
}

#[test]
fn test_let_statement() {
    let input = "
        let x = 5;
        let y = 10;
        let foobar = 114514;
        ";

    let lexer = Lexer::new(input.to_string());
    let mut parser = Parser::new(lexer);

    let program = parser.parse_program();

    assert_eq!(program.statements.len(), 3);
    assert_eq!(parser.errors().len(), 0, "parser should have 0 errors");

    let test_cases = vec!["x", "y", "foobar"];

    for (i, &test_case) in test_cases.iter().enumerate() {
        let statement = &program.statements[i];
        assert_eq!(statement.token_literal(), "let");
        match statement {
            Statement::Let(_, name, _) => {
                assert_eq!(name.token_literal(), test_case);
            }
            _ => {}
        };
    }
}

#[test]
fn test_let_statement_errors() {
    let input = "
        let x 5;
        let = 10;
        let 114514;
        ";

    let lexer = Lexer::new(input.to_string());
    let mut parser = Parser::new(lexer);

    let _ = parser.parse_program();

    assert_eq!(parser.errors().len(), 3, "parser should have 3 errors");
}

#[test]
fn test_return_statement() {
    let input = "
        return 5;
        return 10;
        return 993;
        ";

    let lexer = Lexer::new(input.to_string());
    let mut parser = Parser::new(lexer);

    let program = parser.parse_program();

    assert_eq!(program.statements.len(), 3);
    assert_eq!(parser.errors().len(), 0, "parser should have 0 errors");

    let test_cases = vec!["return", "return", "return"];

    for (i, &test_case) in test_cases.iter().enumerate() {
        let statement = &program.statements[i];
        assert_eq!(statement.token_literal(), test_case);
    }
}

#[test]
fn let_statements_bind_names_in_order() {
    let (program, errors) = parse("let x = 5; let y = 10; let foobar = 114514;");
    assert!(errors.is_empty());
    assert_eq!(program.statements.len(), 3);
    let names: Vec<String> = program
        .statements
        .iter()
        .map(|s| match s {
            Statement::Let(t, Expression::Identifier(it, name), value) => {
                assert_eq!(*t, Token::LET);
                assert_eq!(*it, Token::IDENT(name.clone()));
                assert!(value.is_none());
                name.clone()
            }
            _ => panic!("expected a let statement"),
        })
        .collect();
    assert_eq!(names, vec!["x", "y", "foobar"]);
}

#[test]
fn malformed_lets_give_one_error_each() {
    let (program, errors) = parse("let x 5; let = 10; let 114514;");
    assert_eq!(program.statements.len(), 0);
    assert_eq!(
        errors,
        vec![
            "Expected 'ASSIGN' but found 'INT'".to_string(),
            "Expected 'IDENT' but found 'ASSIGN'".to_string(),
            "Expected 'IDENT' but found 'INT'".to_string(),
        ]
    );
}

#[test]
fn return_statements_in_order() {
    let (program, errors) = parse("return 5; return 10; return 993;");
    assert!(errors.is_empty());
    assert_eq!(program.statements.len(), 3);
    for s in &program.statements {
        match s {
            Statement::Return(t, value) => {
                assert_eq!(*t, Token::RETURN);
                assert!(value.is_none());
            }
            _ => panic!("expected a return statement"),
        }
    }
}

#[test]
fn other_statements_are_dropped_silently() {
    let (program, errors) = parse("x + 10; if (x) { y };");
    assert_eq!(program.statements.len(), 0);
    assert!(errors.is_empty());
}

#[test]
fn missing_semicolon_runs_to_end() {
    let (program, errors) = parse("let x = 5 let y = 6");
    assert!(errors.is_empty());
    assert_eq!(program.statements.len(), 1);
    let (program, errors) = parse("return");
    assert!(errors.is_empty());
    assert_eq!(program.statements.len(), 1);
}

#[test]
fn let_at_end_of_input_reports_eof() {
    let (program, errors) = parse("let");
    assert_eq!(program.statements.len(), 0);
    assert_eq!(errors, vec!["Expected 'IDENT' but found 'EOF'".to_string()]);
}

#[test]
fn parsing_is_deterministic() {
    let text = "let a = 1; let = 2; return a; let b 3;";
    let (p1, e1) = parse(text);
    let (p2, e2) = parse(text);
    assert_eq!(e1, e2);
    assert_eq!(format!("{:?}", p1), format!("{:?}", p2));
    assert_eq!(p1.statements.len(), 2);
    assert_eq!(e1.len(), 2);
}

#[test]
fn node_literals() {
    let (program, _) = parse("return 1; let x = 2;");
    assert_eq!(Node::Program(program).token_literal(), "return");
    let (empty, _) = parse("");
    assert_eq!(Node::Program(empty).token_literal(), "");
    let e = Expression::Identifier(Token::IDENT("k".to_string()), "k".to_string());
    assert_eq!(e.token_literal(), "k");
    assert_eq!(Node::Expression(e).token_literal(), "k");
    let s = Statement::Expression(Token::INT("3".to_string()), None);
    assert_eq!(Node::Statement(s).token_literal(), "3");
}
