use vstd::prelude::*;

verus! {

/// A lexical token. Identifier and integer tokens carry the text they were
/// read from; every other variant stands for a fixed spelling.
#[allow(non_camel_case_types)]
#[derive(Debug, Clone, PartialEq)]
pub enum Token {
    ILLEGAL,
    EOF,
    // identifiers and literals
    IDENT(String),
    INT(String),
    // operators
    ASSIGN,
    PLUS,
    MINUS,
    BANG,
    ASTERISK,
    SLASH,
    LT,
    GT,
    EQ,
    NQ,
    // delimiters
    SEMICOLON,
    LPAREN,
    RPAREN,
    COMMA,
    LBRACE,
    RBRACE,
    // keywords
    FUNCTION,
    LET,
    TRUE,
    FALSE,
    IF,
    ELSE,
    RETURN,
}

/// The mathematical model of a token: the same variants, with text as a
/// sequence of characters.
pub enum TokenView {
    Illegal,
    Eof,
    Ident(Seq<char>),
    Int(Seq<char>),
    Assign,
    Plus,
    Minus,
    Bang,
    Asterisk,
    Slash,
    Lt,
    Gt,
    Equal,
    NotEqual,
    Semicolon,
    LParen,
    RParen,
    Comma,
    LBrace,
    RBrace,
    Function,
    Let,
    True,
    False,
    If,
    Else,
    Return,
}

impl View for Token {
    type V = TokenView;

    open spec fn view(&self) -> TokenView {
        match self {
            Token::ILLEGAL => TokenView::Illegal,
            Token::EOF => TokenView::Eof,
            Token::IDENT(s) => TokenView::Ident(s@),
            Token::INT(s) => TokenView::Int(s@),
            Token::ASSIGN => TokenView::Assign,
            Token::PLUS => TokenView::Plus,
            Token::MINUS => TokenView::Minus,
            Token::BANG => TokenView::Bang,
            Token::ASTERISK => TokenView::Asterisk,
            Token::SLASH => TokenView::Slash,
            Token::LT => TokenView::Lt,
            Token::GT => TokenView::Gt,
            Token::EQ => TokenView::Equal,
            Token::NQ => TokenView::NotEqual,
            Token::SEMICOLON => TokenView::Semicolon,
            Token::LPAREN => TokenView::LParen,
            Token::RPAREN => TokenView::RParen,
            Token::COMMA => TokenView::Comma,
            Token::LBRACE => TokenView::LBrace,
            Token::RBRACE => TokenView::RBrace,
            Token::FUNCTION => TokenView::Function,
            Token::LET => TokenView::Let,
            Token::TRUE => TokenView::True,
            Token::FALSE => TokenView::False,
            Token::IF => TokenView::If,
            Token::ELSE => TokenView::Else,
            Token::RETURN => TokenView::Return,
        }
    }
}

/// The source spelling of a token; `illegal` and `eof` for the two markers.
pub open spec fn literal_of(t: TokenView) -> Seq<char> {
    match t {
        TokenView::Illegal => seq!['i', 'l', 'l', 'e', 'g', 'a', 'l'],
        TokenView::Eof => seq!['e', 'o', 'f'],
        TokenView::Ident(s) => s,
        TokenView::Int(s) => s,
        TokenView::Assign => seq!['='],
        TokenView::Plus => seq!['+'],
        TokenView::Minus => seq!['-'],
        TokenView::Bang => seq!['!'],
        TokenView::Asterisk => seq!['*'],
        TokenView::Slash => seq!['/'],
        TokenView::Lt => seq!['<'],
        TokenView::Gt => seq!['>'],
        TokenView::Equal => seq!['=', '='],
        TokenView::NotEqual => seq!['!', '='],
        TokenView::Semicolon => seq![';'],
        TokenView::LParen => seq!['('],
        TokenView::RParen => seq![')'],
        TokenView::Comma => seq![','],
        TokenView::LBrace => seq!['{'],
        TokenView::RBrace => seq!['}'],
        TokenView::Function => seq!['f', 'n'],
        TokenView::Let => seq!['l', 'e', 't'],
        TokenView::True => seq!['t', 'r', 'u', 'e'],
        TokenView::False => seq!['f', 'a', 'l', 's', 'e'],
        TokenView::If => seq!['i', 'f'],
        TokenView::Else => seq!['e', 'l', 's', 'e'],
        TokenView::Return => seq!['r', 'e', 't', 'u', 'r', 'n'],
    }
}

/// The grammar-symbol name of a token's kind, such as `IDENT` or `SEMICOLON`.
pub open spec fn name_of(t: TokenView) -> Seq<char> {
    match t {
        TokenView::Illegal => seq!['I', 'L', 'L', 'E', 'G', 'A', 'L'],
        TokenView::Eof => seq!['E', 'O', 'F'],
        TokenView::Ident(_) => seq!['I', 'D', 'E', 'N', 'T'],
        TokenView::Int(_) => seq!['I', 'N', 'T'],
        TokenView::Assign => seq!['A', 'S', 'S', 'I', 'G', 'N'],
        TokenView::Plus => seq!['P', 'L', 'U', 'S'],
        TokenView::Minus => seq!['M', 'I', 'N', 'U', 'S'],
        TokenView::Bang => seq!['B', 'A', 'N', 'G'],
        TokenView::Asterisk => seq!['A', 'S', 'T', 'E', 'R', 'I', 'S', 'K'],
        TokenView::Slash => seq!['S', 'L', 'A', 'S', 'H'],
        TokenView::Lt => seq!['L', 'T'],
        TokenView::Gt => seq!['G', 'T'],
        TokenView::Equal => seq!['E', 'Q'],
        TokenView::NotEqual => seq!['N', 'Q'],
        TokenView::Semicolon => seq!['S', 'E', 'M', 'I', 'C', 'O', 'L', 'O', 'N'],
        TokenView::LParen => seq!['L', 'P', 'A', 'R', 'E', 'N'],
        TokenView::RParen => seq!['R', 'P', 'A', 'R', 'E', 'N'],
        TokenView::Comma => seq!['C', 'O', 'M', 'M', 'A'],
        TokenView::LBrace => seq!['L', 'B', 'R', 'A', 'C', 'E'],
        TokenView::RBrace => seq!['R', 'B', 'R', 'A', 'C', 'E'],
        TokenView::Function => seq!['F', 'U', 'N', 'C', 'T', 'I', 'O', 'N'],
        TokenView::Let => seq!['L', 'E', 'T'],
        TokenView::True => seq!['T', 'R', 'U', 'E'],
        TokenView::False => seq!['F', 'A', 'L', 'S', 'E'],
        TokenView::If => seq!['I', 'F'],
        TokenView::Else => seq!['E', 'L', 'S', 'E'],
        TokenView::Return => seq!['R', 'E', 'T', 'U', 'R', 'N'],
    }
}

impl Token {
    /// The source spelling of this token.
    pub fn token_literal(&self) -> (r: String)
        ensures
            r@ == literal_of(self@),
    {
        proof {
            reveal_strlit("illegal");
            reveal_strlit("eof");
            reveal_strlit("=");
            reveal_strlit("+");
            reveal_strlit("-");
            reveal_strlit("!");
            reveal_strlit("*");
            reveal_strlit("/");
            reveal_strlit("<");
            reveal_strlit(">");
            reveal_strlit("==");
            reveal_strlit("!=");
            reveal_strlit(";");
            reveal_strlit("(");
            reveal_strlit(")");
            reveal_strlit(",");
            reveal_strlit("{");
            reveal_strlit("}");
            reveal_strlit("fn");
            reveal_strlit("let");
            reveal_strlit("true");
            reveal_strlit("false");
            reveal_strlit("if");
            reveal_strlit("else");
            reveal_strlit("return");
        }
        match self {
            Token::ILLEGAL => fixed("illegal"),
            Token::EOF => fixed("eof"),
            Token::IDENT(literal) => literal.clone(),
            Token::INT(literal) => literal.clone(),
            Token::ASSIGN => fixed("="),
            Token::PLUS => fixed("+"),
            Token::MINUS => fixed("-"),
            Token::BANG => fixed("!"),
            Token::ASTERISK => fixed("*"),
            Token::SLASH => fixed("/"),
            Token::LT => fixed("<"),
            Token::GT => fixed(">"),
            Token::EQ => fixed("=="),
            Token::NQ => fixed("!="),
            Token::SEMICOLON => fixed(";"),
            Token::LPAREN => fixed("("),
            Token::RPAREN => fixed(")"),
            Token::COMMA => fixed(","),
            Token::LBRACE => fixed("{"),
            Token::RBRACE => fixed("}"),
            Token::FUNCTION => fixed("fn"),
            Token::LET => fixed("let"),
            Token::TRUE => fixed("true"),
            Token::FALSE => fixed("false"),
            Token::IF => fixed("if"),
            Token::ELSE => fixed("else"),
            Token::RETURN => fixed("return"),
        }
    }

    /// The grammar-symbol name of this token's kind.
    pub fn token_name(&self) -> (r: String)
        ensures
            r@ == name_of(self@),
    {
        proof {
            reveal_strlit("ILLEGAL");
            reveal_strlit("EOF");
            reveal_strlit("IDENT");
            reveal_strlit("INT");
            reveal_strlit("ASSIGN");
            reveal_strlit("PLUS");
            reveal_strlit("MINUS");
            reveal_strlit("BANG");
            reveal_strlit("ASTERISK");
            reveal_strlit("SLASH");
            reveal_strlit("LT");
            reveal_strlit("GT");
            reveal_strlit("EQ");
            reveal_strlit("NQ");
            reveal_strlit("SEMICOLON");
            reveal_strlit("LPAREN");
            reveal_strlit("RPAREN");
            reveal_strlit("COMMA");
            reveal_strlit("LBRACE");
            reveal_strlit("RBRACE");
            reveal_strlit("FUNCTION");
            reveal_strlit("LET");
            reveal_strlit("TRUE");
            reveal_strlit("FALSE");
            reveal_strlit("IF");
            reveal_strlit("ELSE");
            reveal_strlit("RETURN");
        }
        match self {
            Token::ILLEGAL => fixed("ILLEGAL"),
            Token::EOF => fixed("EOF"),
            Token::IDENT(_) => fixed("IDENT"),
            Token::INT(_) => fixed("INT"),
            Token::ASSIGN => fixed("ASSIGN"),
            Token::PLUS => fixed("PLUS"),
            Token::MINUS => fixed("MINUS"),
            Token::BANG => fixed("BANG"),
            Token::ASTERISK => fixed("ASTERISK"),
            Token::SLASH => fixed("SLASH"),
            Token::LT => fixed("LT"),
            Token::GT => fixed("GT"),
            Token::EQ => fixed("EQ"),
            Token::NQ => fixed("NQ"),
            Token::SEMICOLON => fixed("SEMICOLON"),
            Token::LPAREN => fixed("LPAREN"),
            Token::RPAREN => fixed("RPAREN"),
            Token::COMMA => fixed("COMMA"),
            Token::LBRACE => fixed("LBRACE"),
            Token::RBRACE => fixed("RBRACE"),
            Token::FUNCTION => fixed("FUNCTION"),
            Token::LET => fixed("LET"),
            Token::TRUE => fixed("TRUE"),
            Token::FALSE => fixed("FALSE"),
            Token::IF => fixed("IF"),
            Token::ELSE => fixed("ELSE"),
            Token::RETURN => fixed("RETURN"),
        }
    }
}

/// An owned copy of a string literal.
pub(crate) fn fixed(s: &str) -> (r: String)
    ensures
        r@ == s@,
{
    s.to_owned()
}

} // verus!
