use vstd::prelude::*;

use crate::token::{literal_of, Token, TokenView};

verus! {

/// Any node of the syntax tree.
#[derive(Debug)]
pub enum Node {
    Program(Program),
    Statement(Statement),
    Expression(Expression),
}

/// A whole source text: its statements in order.
#[derive(Debug)]
pub struct Program {
    pub statements: Vec<Statement>,
}

/// A statement: its leading token, and the expressions it holds. Values are
/// always absent while expressions are not parsed.
#[derive(Debug)]
pub enum Statement {
    /// `let <name> = <value>;`
    Let(Token, Expression, Option<Expression>),
    /// `return <value>;`
    Return(Token, Option<Expression>),
    /// An expression on its own, such as `x + 10;`
    Expression(Token, Option<Expression>),
}

/// An expression; for now only an identifier with its name.
#[derive(Debug)]
pub enum Expression {
    Identifier(Token, String),
}

/// The model of an expression.
pub enum ExpressionView {
    Identifier(TokenView, Seq<char>),
}

/// The model of a statement.
pub enum StatementView {
    Let(TokenView, ExpressionView, Option<ExpressionView>),
    Return(TokenView, Option<ExpressionView>),
    Expression(TokenView, Option<ExpressionView>),
}

impl View for Expression {
    type V = ExpressionView;

    open spec fn view(&self) -> ExpressionView {
        match self {
            Expression::Identifier(t, name) => ExpressionView::Identifier(t@, name@),
        }
    }
}

/// The model of an optional expression.
pub open spec fn opt_expression_view(e: Option<Expression>) -> Option<ExpressionView> {
    match e {
        Some(x) => Some(x@),
        None => None,
    }
}

impl View for Statement {
    type V = StatementView;

    open spec fn view(&self) -> StatementView {
        match self {
            Statement::Let(t, name, value) => StatementView::Let(
                t@,
                name@,
                opt_expression_view(*value),
            ),
            Statement::Return(t, value) => StatementView::Return(t@, opt_expression_view(*value)),
            Statement::Expression(t, value) => StatementView::Expression(
                t@,
                opt_expression_view(*value),
            ),
        }
    }
}

impl View for Program {
    type V = Seq<StatementView>;

    open spec fn view(&self) -> Seq<StatementView> {
        self.statements@.map_values(|s: Statement| s@)
    }
}

/// The leading token of an expression.
pub open spec fn expression_token(e: ExpressionView) -> TokenView {
    match e {
        ExpressionView::Identifier(t, _) => t,
    }
}

/// The leading token of a statement.
pub open spec fn statement_token(s: StatementView) -> TokenView {
    match s {
        StatementView::Let(t, _, _) => t,
        StatementView::Return(t, _) => t,
        StatementView::Expression(t, _) => t,
    }
}

/// A program's literal is that of its first statement, empty without one.
pub open spec fn program_literal(p: Seq<StatementView>) -> Seq<char> {
    if p.len() > 0 {
        literal_of(statement_token(p[0]))
    } else {
        seq![]
    }
}

impl Node {
    /// The literal of the node's leading token.
    pub fn token_literal(&self) -> (r: String)
        ensures
            r@ == match self {
                Node::Program(p) => program_literal(p@),
                Node::Statement(s) => literal_of(statement_token(s@)),
                Node::Expression(e) => literal_of(expression_token(e@)),
            },
    {
        match self {
            Node::Program(program) => {
                if program.statements.len() > 0 {
                    program.statements[0].token_literal()
                } else {
                    String::new()
                }
            },
            Node::Statement(statement) => statement.token_literal(),
            Node::Expression(expression) => expression.token_literal(),
        }
    }
}

impl Statement {
    /// The literal of the statement's leading token.
    pub fn token_literal(&self) -> (r: String)
        ensures
            r@ == literal_of(statement_token(self@)),
    {
        match self {
            Statement::Let(token, _, _) => token.token_literal(),
            Statement::Return(token, _) => token.token_literal(),
            Statement::Expression(token, _) => token.token_literal(),
        }
    }
}

impl Expression {
    /// The literal of the expression's leading token.
    pub fn token_literal(&self) -> (r: String)
        ensures
            r@ == literal_of(expression_token(self@)),
    {
        match self {
            Expression::Identifier(token, _) => token.token_literal(),
        }
    }
}

} // verus!
