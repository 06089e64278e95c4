use monkey::lexer::Lexer;
use monkey::token::Token;

#[test]
fn test_next_token() {
        let input = "let five = 5;
        let ten = 10;

        let add = fn(x, y) {
            x + y;
        };

        let result = add(five, ten);
        !-/*5;
        5 < 10 > 5;

        if (5 < 10) {
            return true;
        } else {
            return false;
        }

        10 == 10;
        10 != 9;
        "
        .to_string();

        let test_cases = vec![
            Token::LET,
            Token::IDENT("five".to_string()),
            Token::ASSIGN,
            Token::INT("5".to_string()),
            Token::SEMICOLON,
            Token::LET,
            Token::IDENT("ten".to_string()),
            Token::ASSIGN,
            Token::INT("10".to_string()),
            Token::SEMICOLON,
            Token::LET,
            Token::IDENT("add".to_string()),
            Token::ASSIGN,
            Token::FUNCTION,
            Token::LPAREN,
            Token::IDENT("x".to_string()),
            Token::COMMA,
            Token::IDENT("y".to_string()),
            Token::RPAREN,
            Token::LBRACE,
            Token::IDENT("x".to_string()),
            Token::PLUS,
            Token::IDENT("y".to_string()),
            Token::SEMICOLON,
            Token::RBRACE,
            Token::SEMICOLON,
            Token::LET,
            Token::IDENT("result".to_string()),
            Token::ASSIGN,
            Token::IDENT("add".to_string()),
            Token::LPAREN,
            Token::IDENT("five".to_string()),
            Token::COMMA,
            Token::IDENT("ten".to_string()),
            Token::RPAREN,
            Token::SEMICOLON,
            Token::BANG,
            Token::MINUS,
            Token::SLASH,
            Token::ASTERISK,
            Token::INT("5".to_string()),
            Token::SEMICOLON,
            Token::INT("5".to_string()),
            Token::LT,
            Token::INT("10".to_string()),
            Token::GT,
            Token::INT("5".to_string()),
            Token::SEMICOLON,
            Token::IF,
            Token::LPAREN,
            Token::INT("5".to_string()),
            Token::LT,
            Token::INT("10".to_string()),
            Token::RPAREN,
            Token::LBRACE,
            Token::RETURN,
            Token::TRUE,
            Token::SEMICOLON,
            Token::RBRACE,
            Token::ELSE,
            Token::LBRACE,
            Token::RETURN,
            Token::FALSE,
            Token::SEMICOLON,
            Token::RBRACE,
            Token::INT("10".to_string()),
            Token::EQ,
            Token::INT("10".to_string()),
            Token::SEMICOLON,
            Token::INT("10".to_string()),
            Token::NQ,
            Token::INT("9".to_string()),
            Token::SEMICOLON,
            Token::EOF,
        ];

        let mut lexer = Lexer::new(input);

        for test_case in test_cases {
            let token = lexer.next_token();
            assert_eq!(token, test_case);
        }
    }

fn lex_all(input: &str) -> Vec<Token> {
    let mut lexer = Lexer::new(input.to_string());
    let mut out = Vec::new();
    loop {
        let t = lexer.next_token();
        if t == Token::EOF {
            break;
        }
        out.push(t);
    }
    out
}

#[test]
fn operators_single_and_double() {
    assert_eq!(
        lex_all("= == ! != + - * / < > ; ( ) , { }"),
        vec![
            Token::ASSIGN,
            Token::EQ,
            Token::BANG,
            Token::NQ,
            Token::PLUS,
            Token::MINUS,
            Token::ASTERISK,
            Token::SLASH,
            Token::LT,
            Token::GT,
            Token::SEMICOLON,
            Token::LPAREN,
            Token::RPAREN,
            Token::COMMA,
            Token::LBRACE,
            Token::RBRACE,
        ]
    );
}

#[test]
fn split_two_char_operators_stay_single() {
    assert_eq!(lex_all("= ="), vec![Token::ASSIGN, Token::ASSIGN]);
    assert_eq!(lex_all("! ="), vec![Token::BANG, Token::ASSIGN]);
    assert_eq!(lex_all("==="), vec![Token::EQ, Token::ASSIGN]);
    assert_eq!(lex_all("!=="), vec![Token::NQ, Token::ASSIGN]);
    assert_eq!(lex_all("="), vec![Token::ASSIGN]);
    assert_eq!(lex_all("!"), vec![Token::BANG]);
}

#[test]
fn keywords_are_never_identifiers() {
    assert_eq!(
        lex_all("fn let true false if else return"),
        vec![
            Token::FUNCTION,
            Token::LET,
            Token::TRUE,
            Token::FALSE,
            Token::IF,
            Token::ELSE,
            Token::RETURN,
        ]
    );
}

#[test]
fn words_near_keywords_are_identifiers() {
    assert_eq!(
        lex_all("lets Let fnx x1 returned"),
        vec![
            Token::IDENT("lets".to_string()),
            Token::IDENT("Let".to_string()),
            Token::IDENT("fnx".to_string()),
            Token::IDENT("x1".to_string()),
            Token::IDENT("returned".to_string()),
        ]
    );
}

#[test]
fn identifier_runs_over_unicode_letters() {
    assert_eq!(lex_all("caf\u{e9};"), vec![Token::IDENT("caf\u{e9}".to_string()), Token::SEMICOLON]);
}

#[test]
fn integers_keep_leading_zeros() {
    assert_eq!(
        lex_all("007 0 10x"),
        vec![
            Token::INT("007".to_string()),
            Token::INT("0".to_string()),
            Token::INT("10".to_string()),
            Token::IDENT("x".to_string()),
        ]
    );
}

#[test]
fn whitespace_does_not_change_tokens() {
    let tight = lex_all("let x=5;");
    let loose = lex_all(" \t let\n\r x \t=  5\n;\r\n");
    assert_eq!(tight, loose);
    assert_eq!(tight.len(), 5);
    assert_eq!(lex_all(" \t\r\n"), vec![]);
}

#[test]
fn illegal_character_is_reported_and_skipped() {
    assert_eq!(lex_all("a @ b"), vec![Token::IDENT("a".to_string()), Token::ILLEGAL, Token::IDENT("b".to_string())]);
}

#[test]
fn end_of_input_repeats() {
    let mut lexer = Lexer::new("x".to_string());
    assert_eq!(lexer.next_token(), Token::IDENT("x".to_string()));
    assert_eq!(lexer.next_token(), Token::EOF);
    assert_eq!(lexer.next_token(), Token::EOF);
    let mut empty = Lexer::new(String::new());
    assert_eq!(empty.next_token(), Token::EOF);
}

#[test]
fn token_literals_and_names() {
    assert_eq!(Token::EQ.token_literal(), "==");
    assert_eq!(Token::NQ.token_name(), "NQ");
    assert_eq!(Token::FUNCTION.token_literal(), "fn");
    assert_eq!(Token::FUNCTION.token_name(), "FUNCTION");
    assert_eq!(Token::ILLEGAL.token_literal(), "illegal");
    assert_eq!(Token::EOF.token_literal(), "eof");
    assert_eq!(Token::EOF.token_name(), "EOF");
    assert_eq!(Token::IDENT("abc".to_string()).token_literal(), "abc");
    assert_eq!(Token::IDENT("abc".to_string()).token_name(), "IDENT");
    assert_eq!(Token::INT("42".to_string()).token_literal(), "42");
    assert_eq!(Token::SEMICOLON.token_name(), "SEMICOLON");
    assert_eq!(Token::RETURN.token_literal(), "return");
}
