use vstd::prelude::*;

use crate::ast::{opt_expression_view, Expression, ExpressionView, Program, Statement, StatementView};
use crate::lexer::{next_token_spec, tokens, tokens_from, Lexer};
use crate::token::{fixed, literal_of, name_of, Token, TokenView};
use vstd::string::StringExecFns;

verus! {

/// The token at index `i`, or `Eof` past the end.
pub open spec fn tok(ts: Seq<TokenView>, i: int) -> TokenView {
    if 0 <= i < ts.len() {
        ts[i]
    } else {
        TokenView::Eof
    }
}

/// The tokens from the first semicolon on (empty if there is none).
pub open spec fn skip_to_semicolon(ts: Seq<TokenView>) -> Seq<TokenView>
    decreases ts.len(),
{
    if ts.len() == 0 || ts[0] is Semicolon {
        ts
    } else {
        skip_to_semicolon(ts.drop_first())
    }
}

/// The message recorded when the token after the current one is not the
/// expected kind.
pub open spec fn expected_error(expected: Seq<char>, found: TokenView) -> Seq<char> {
    "Expected '"@ + expected + "' but found '"@ + name_of(found) + "'"@
}

/// One statement read from the tokens `ts`, whose first token is the current
/// one: the statement if one was recognized, the errors recorded, and the
/// tokens from the statement's last token on.
pub open spec fn parse_statement_spec(ts: Seq<TokenView>) -> (
    Option<StatementView>,
    Seq<Seq<char>>,
    Seq<TokenView>,
) {
    match tok(ts, 0) {
        TokenView::Let => {
            if !(tok(ts, 1) is Ident) {
                (None, seq![expected_error("IDENT"@, tok(ts, 1))], ts)
            } else if !(tok(ts, 2) is Assign) {
                (None, seq![expected_error("ASSIGN"@, tok(ts, 2))], ts.drop_first())
            } else {
                let name = tok(ts, 1);
                (
                    Some(
                        StatementView::Let(
                            TokenView::Let,
                            ExpressionView::Identifier(name, literal_of(name)),
                            None,
                        ),
                    ),
                    seq![],
                    skip_to_semicolon(ts.subrange(2, ts.len() as int)),
                )
            }
        },
        TokenView::Return => (
            Some(StatementView::Return(TokenView::Return, None)),
            seq![],
            skip_to_semicolon(ts.drop_first()),
        ),
        _ => (None, seq![], ts),
    }
}

/// The model of an optional statement.
pub open spec fn opt_statement_view(s: Option<Statement>) -> Option<StatementView> {
    match s {
        Some(x) => Some(x@),
        None => None,
    }
}

/// The tokens after the first one (none if there are none).
pub open spec fn advance(ts: Seq<TokenView>) -> Seq<TokenView> {
    if ts.len() == 0 {
        ts
    } else {
        ts.drop_first()
    }
}

/// The statements and the errors that parsing the tokens `ts` gives.
pub open spec fn parse_tokens(ts: Seq<TokenView>) -> (Seq<StatementView>, Seq<Seq<char>>)
    decreases ts.len(),
    via parse_tokens_decreases
{
    if ts.len() == 0 {
        (seq![], seq![])
    } else {
        let (st, errs, rest) = parse_statement_spec(ts);
        let (sts, more) = parse_tokens(advance(rest));
        (
            match st {
                Some(x) => seq![x] + sts,
                None => sts,
            },
            errs + more,
        )
    }
}

#[via_fn]
proof fn parse_tokens_decreases(ts: Seq<TokenView>) {
    if ts.len() > 0 {
        lemma_statement_rest_shorter(ts);
    }
}

/// The statements and errors that parsing a whole source text gives.
pub open spec fn parse_text(s: Seq<char>) -> (Seq<StatementView>, Seq<Seq<char>>) {
    parse_tokens(tokens(s))
}

/// Parsing is a function of the text: two fresh lexer and parser pairs over
/// equal texts give equal statements and equal errors.
pub proof fn lemma_parse_deterministic(a: Seq<char>, b: Seq<char>)
    requires
        a == b,
    ensures
        parse_text(a) == parse_text(b),
        tokens(a) == tokens(b),
{
}

proof fn lemma_skip_to_semicolon_shorter(ts: Seq<TokenView>)
    ensures
        skip_to_semicolon(ts).len() <= ts.len(),
    decreases ts.len(),
{
    if ts.len() > 0 && !(ts[0] is Semicolon) {
        lemma_skip_to_semicolon_shorter(ts.drop_first());
    }
}

proof fn lemma_statement_rest_shorter(ts: Seq<TokenView>)
    ensures
        parse_statement_spec(ts).2.len() <= ts.len(),
{
    if ts.len() > 0 {
        lemma_skip_to_semicolon_shorter(ts.drop_first());
    }
    if ts.len() >= 2 {
        lemma_skip_to_semicolon_shorter(ts.subrange(2, ts.len() as int));
    }
}

proof fn lemma_name_of_kinds(t: TokenView)
    ensures
        (name_of(t) == "EOF"@) == (t is Eof),
        (name_of(t) == "IDENT"@) == (t is Ident),
        (name_of(t) == "ASSIGN"@) == (t is Assign),
        (name_of(t) == "SEMICOLON"@) == (t is Semicolon),
{
    reveal_strlit("EOF");
    reveal_strlit("IDENT");
    reveal_strlit("ASSIGN");
    reveal_strlit("SEMICOLON");
    assert("EOF"@ =~= seq!['E', 'O', 'F']);
    assert("IDENT"@ =~= seq!['I', 'D', 'E', 'N', 'T']);
    assert("ASSIGN"@ =~= seq!['A', 'S', 'S', 'I', 'G', 'N']);
    assert("SEMICOLON"@ =~= seq!['S', 'E', 'M', 'I', 'C', 'O', 'L', 'O', 'N']);
    let n = name_of(t);
    assert(n[0] == name_of(t)[0]);
}

/// Builds a syntax tree from the tokens of one lexer, which it owns, and
/// records an error for each malformed statement.
pub struct Parser {
    lexer: Lexer,
    cur_token: Token,
    peek_token: Token,
    errors: Vec<String>,
}

impl Parser {
    /// The tokens from the current one on: the current token, the one after
    /// it, and what the lexer has still to read (`Eof` ends the sequence).
    pub closed spec fn remaining(&self) -> Seq<TokenView> {
        if self.cur_token@ is Eof {
            seq![]
        } else if self.peek_token@ is Eof {
            seq![self.cur_token@]
        } else {
            seq![self.cur_token@, self.peek_token@] + tokens_from(
                self.lexer.text(),
                self.lexer.pos(),
            )
        }
    }

    /// The errors recorded so far, in order.
    pub closed spec fn errors_view(&self) -> Seq<Seq<char>> {
        self.errors@.map_values(|e: String| e@)
    }

    /// The lexer is well formed, and once `Eof` has been read nothing but
    /// `Eof` follows.
    pub closed spec fn wf(&self) -> bool {
        &&& self.lexer.wf()
        &&& self.lexer.pos() <= self.lexer.text().len()
        &&& self.cur_token@ is Eof ==> self.peek_token@ is Eof
        &&& self.peek_token@ is Eof ==> next_token_spec(
            self.lexer.text(),
            self.lexer.pos(),
        ).0 is Eof
    }

    /// A parser over the tokens that `lexer` has still to read; it reads the
    /// first two at once.
    pub fn new(lexer: Lexer) -> (r: Parser)
        requires
            lexer.wf(),
        ensures
            r.wf(),
            r.remaining() == tokens_from(lexer.text(), lexer.pos()),
            r.errors_view() == Seq::<Seq<char>>::empty(),
    {
        let ghost start = lexer;
        let mut lexer = lexer;
        proof {
            lexer.lemma_pos_in_text();
            crate::lexer::lemma_next_token_advances(lexer.text(), lexer.pos());
        }
        let cur_token = lexer.next_token();
        let ghost p1 = lexer.pos();
        proof {
            crate::lexer::lemma_next_token_advances(lexer.text(), lexer.pos());
        }
        let peek_token = lexer.next_token();
        let ghost s = lexer.text();
        let ghost p2 = lexer.pos();
        assert(tokens_from(s, start.pos()) == if cur_token@ is Eof {
            seq![]
        } else {
            seq![cur_token@] + tokens_from(s, p1)
        });
        assert(tokens_from(s, p1) == if peek_token@ is Eof {
            seq![]
        } else {
            seq![peek_token@] + tokens_from(s, p2)
        });
        proof {
            crate::lexer::lemma_next_token_advances(lexer.text(), lexer.pos());
        }
        let parser = Parser { lexer, cur_token, peek_token, errors: Vec::new() };
        assert(parser.errors_view() =~= Seq::<Seq<char>>::empty());
        assert(parser.remaining() =~= tokens_from(start.text(), start.pos()));
        parser
    }

    /// The errors recorded so far, in order.
    pub fn errors(&self) -> (r: &Vec<String>)
        ensures
            r@.map_values(|e: String| e@) == self.errors_view(),
    {
        &self.errors
    }

    /// Moves one token forward.
    fn next_token(&mut self)
        requires
            old(self).wf(),
        ensures
            final(self).wf(),
            final(self).remaining() == advance(old(self).remaining()),
            final(self).errors == old(self).errors,
    {
        proof {
            crate::lexer::lemma_next_token_advances(self.lexer.text(), self.lexer.pos());
        }
        let mut next = self.lexer.next_token();
        proof {
            crate::lexer::lemma_next_token_advances(self.lexer.text(), self.lexer.pos());
        }
        std::mem::swap(&mut self.peek_token, &mut next);
        self.cur_token = next;
        assert(self.remaining() =~= advance(old(self).remaining()));
    }

    /// The current and the next token are the first two of `remaining`.
    proof fn lemma_window(&self)
        requires
            self.wf(),
        ensures
            tok(self.remaining(), 0) == self.cur_token@,
            tok(self.remaining(), 1) == self.peek_token@,
            self.cur_token@ is Eof <==> self.remaining().len() == 0,
    {
    }

    /// Whether the current token is of the kind named `name`.
    fn cur_token_is(&self, name: &str) -> (r: bool)
        ensures
            r == (name_of(self.cur_token@) == name@),
    {
        self.cur_token.token_name() == name.to_owned()
    }

    /// Whether the next token is of the kind named `name`.
    fn peek_token_is(&self, name: &str) -> (r: bool)
        ensures
            r == (name_of(self.peek_token@) == name@),
    {
        self.peek_token.token_name() == name.to_owned()
    }

    /// Moves forward if the next token is of the kind named `name`; records
    /// an error and stays otherwise.
    fn expect_peek(&mut self, name: &str) -> (r: bool)
        requires
            old(self).wf(),
        ensures
            final(self).wf(),
            r == (name_of(old(self).peek_token@) == name@),
            r ==> final(self).remaining() == advance(old(self).remaining()),
            r ==> final(self).errors_view() == old(self).errors_view(),
            !r ==> final(self).remaining() == old(self).remaining(),
            !r ==> final(self).errors_view() == old(self).errors_view().push(
                expected_error(name@, old(self).peek_token@),
            ),
    {
        if self.peek_token_is(name) {
            self.next_token();
            true
        } else {
            self.peek_error(name);
            false
        }
    }

    /// Records that the next token is not of the kind named `name`.
    fn peek_error(&mut self, name: &str)
        ensures
            final(self).lexer == old(self).lexer,
            final(self).cur_token == old(self).cur_token,
            final(self).peek_token == old(self).peek_token,
            final(self).errors_view() == old(self).errors_view().push(
                expected_error(name@, old(self).peek_token@),
            ),
    {
        let mut msg = fixed("Expected '");
        msg.append(name);
        msg.append("' but found '");
        let found = self.peek_token.token_name();
        msg.append(found.as_str());
        msg.append("'");
        self.errors.push(msg);
        assert(self.errors_view() =~= old(self).errors_view().push(
            expected_error(name@, old(self).peek_token@),
        ));
    }

    /// Moves forward until the current token is a semicolon or the end.
    fn skip_to_semicolon(&mut self)
        requires
            old(self).wf(),
        ensures
            final(self).wf(),
            final(self).remaining() == skip_to_semicolon(old(self).remaining()),
            final(self).errors_view() == old(self).errors_view(),
    {
        proof {
            lemma_name_of_kinds(self.cur_token@);
        }
        while !self.cur_token_is("SEMICOLON") && !self.cur_token_is("EOF")
            invariant
                self.wf(),
                skip_to_semicolon(self.remaining()) == skip_to_semicolon(old(self).remaining()),
                self.errors_view() == old(self).errors_view(),
                (name_of(self.cur_token@) == "EOF"@) == (self.cur_token@ is Eof),
                (name_of(self.cur_token@) == "SEMICOLON"@) == (self.cur_token@ is Semicolon),
            decreases self.remaining().len(),
        {
            proof {
                self.lemma_window();
            }
            self.next_token();
            proof {
                lemma_name_of_kinds(self.cur_token@);
            }
        }
        proof {
            self.lemma_window();
        }
    }

    /// Reads one statement, dispatching on the current token.
    fn parse_statement(&mut self) -> (r: Option<Statement>)
        requires
            old(self).wf(),
        ensures
            final(self).wf(),
            opt_statement_view(r) == parse_statement_spec(old(self).remaining()).0,
            final(self).errors_view() == old(self).errors_view() + parse_statement_spec(
                old(self).remaining(),
            ).1,
            final(self).remaining() == parse_statement_spec(old(self).remaining()).2,
    {
        proof {
            self.lemma_window();
        }
        match self.cur_token {
            Token::LET => self.parse_let_statement(),
            Token::RETURN => self.parse_return_statement(),
            _ => {
                assert(self.errors_view() + Seq::<Seq<char>>::empty() =~= self.errors_view());
                None
            },
        }
    }

    /// Reads `let <identifier> = ...;`, the current token being `let`.
    fn parse_let_statement(&mut self) -> (r: Option<Statement>)
        requires
            old(self).wf(),
            old(self).cur_token@ is Let,
        ensures
            final(self).wf(),
            opt_statement_view(r) == parse_statement_spec(old(self).remaining()).0,
            final(self).errors_view() == old(self).errors_view() + parse_statement_spec(
                old(self).remaining(),
            ).1,
            final(self).remaining() == parse_statement_spec(old(self).remaining()).2,
    {
        proof {
            self.lemma_window();
            lemma_name_of_kinds(self.peek_token@);
        }
        let ghost ts = self.remaining();
        if !self.expect_peek("IDENT") {
            assert(self.errors_view() =~= old(self).errors_view() + parse_statement_spec(ts).1);
            return None;
        }
        proof {
            self.lemma_window();
            lemma_name_of_kinds(self.peek_token@);
        }
        let name = self.cur_token.token_literal();
        let ident = Token::IDENT(name.clone());
        if !self.expect_peek("ASSIGN") {
            assert(self.errors_view() =~= old(self).errors_view() + parse_statement_spec(ts).1);
            return None;
        }
        assert(self.remaining() =~= ts.subrange(2, ts.len() as int));
        self.skip_to_semicolon();
        assert(self.errors_view() =~= old(self).errors_view() + parse_statement_spec(ts).1);
        Some(Statement::Let(Token::LET, Expression::Identifier(ident, name), None))
    }

    /// Reads `return ...;`, the current token being `return`.
    fn parse_return_statement(&mut self) -> (r: Option<Statement>)
        requires
            old(self).wf(),
            old(self).cur_token@ is Return,
        ensures
            final(self).wf(),
            opt_statement_view(r) == parse_statement_spec(old(self).remaining()).0,
            final(self).errors_view() == old(self).errors_view() + parse_statement_spec(
                old(self).remaining(),
            ).1,
            final(self).remaining() == parse_statement_spec(old(self).remaining()).2,
    {
        proof {
            self.lemma_window();
        }
        self.next_token();
        self.skip_to_semicolon();
        assert(self.errors_view() =~= old(self).errors_view() + Seq::<Seq<char>>::empty());
        Some(Statement::Return(Token::RETURN, None))
    }

    /// Reads statements up to the end of the input. Statements that are not
    /// recognized or are malformed are left out; the errors of malformed
    /// ones are recorded.
    pub fn parse_program(&mut self) -> (r: Program)
        requires
            old(self).wf(),
        ensures
            final(self).wf(),
            r@ == parse_tokens(old(self).remaining()).0,
            final(self).errors_view() == old(self).errors_view() + parse_tokens(
                old(self).remaining(),
            ).1,
            final(self).remaining() == Seq::<TokenView>::empty(),
    {
        let ghost total = parse_tokens(self.remaining());
        let mut statements: Vec<Statement> = Vec::new();
        proof {
            lemma_name_of_kinds(self.cur_token@);
            self.lemma_window();
            assert(statements@.map_values(|s: Statement| s@) =~= Seq::<StatementView>::empty());
            assert(total.0 =~= Seq::<StatementView>::empty() + total.0);
        }
        while !self.cur_token_is("EOF")
            invariant
                self.wf(),
                statements@.map_values(|s: Statement| s@) + parse_tokens(self.remaining()).0
                    == total.0,
                self.errors_view() + parse_tokens(self.remaining()).1 == old(self).errors_view()
                    + total.1,
                (name_of(self.cur_token@) == "EOF"@) == (self.cur_token@ is Eof),
            decreases self.remaining().len(),
        {
            proof {
                self.lemma_window();
                lemma_statement_rest_shorter(self.remaining());
            }
            let ghost before = statements@.map_values(|s: Statement| s@);
            let ghost errs_before = self.errors_view();
            let ghost ts = self.remaining();
            let statement = self.parse_statement();
            match statement {
                Some(st) => {
                    statements.push(st);
                },
                None => {},
            }
            let ghost rest = self.remaining();
            self.next_token();
            proof {
                lemma_name_of_kinds(self.cur_token@);
                let (st, e, _) = parse_statement_spec(ts);
                let (sts, more) = parse_tokens(advance(rest));
                assert(parse_tokens(ts).0 == match st {
                    Some(x) => seq![x] + sts,
                    None => sts,
                });
                match st {
                    Some(x) => {
                        assert(statements@.map_values(|s: Statement| s@) =~= before.push(x));
                        assert(before + (seq![x] + sts) =~= before.push(x) + sts);
                    },
                    None => {
                        assert(statements@.map_values(|s: Statement| s@) =~= before);
                    },
                }
                assert(errs_before + (e + more) =~= (errs_before + e) + more);
            }
        }
        proof {
            self.lemma_window();
            assert(statements@.map_values(|s: Statement| s@) =~= total.0);
            assert(self.errors_view() =~= old(self).errors_view() + total.1);
        }
        Program { statements }
    }
}

} // verus!
