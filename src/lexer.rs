use vstd::prelude::*;

use crate::token::{fixed, Token, TokenView};
use vstd::std_specs::iter::IteratorSpec;

verus! {

broadcast use vstd::string::axiom_spec_iter, vstd::string::next_postcondition;

/// Space, tab, newline and carriage return separate tokens.
pub open spec fn is_whitespace(c: char) -> bool {
    c == ' ' || c == '\t' || c == '\n' || c == '\r'
}

/// An ASCII letter, which starts an identifier or a keyword.
pub open spec fn is_letter(c: char) -> bool {
    ('a' <= c && c <= 'z') || ('A' <= c && c <= 'Z')
}

/// An ASCII digit, which starts an integer literal.
pub open spec fn is_digit(c: char) -> bool {
    '0' <= c && c <= '9'
}

/// Whether a character is alphabetic or numeric in the Unicode sense.
pub uninterp spec fn alphanumeric(c: char) -> bool;

/// The first index at or after `p` that does not hold whitespace.
pub open spec fn skip_ws(s: Seq<char>, p: nat) -> nat
    decreases s.len() - p,
{
    if p < s.len() && is_whitespace(s[p as int]) {
        skip_ws(s, p + 1)
    } else {
        p
    }
}

/// The first index at or after `p` that does not hold an alphanumeric character.
pub open spec fn word_end(s: Seq<char>, p: nat) -> nat
    decreases s.len() - p,
{
    if p < s.len() && alphanumeric(s[p as int]) {
        word_end(s, p + 1)
    } else {
        p
    }
}

/// The first index at or after `p` that does not hold an ASCII digit.
pub open spec fn digits_end(s: Seq<char>, p: nat) -> nat
    decreases s.len() - p,
{
    if p < s.len() && is_digit(s[p as int]) {
        digits_end(s, p + 1)
    } else {
        p
    }
}

/// The token that a single character stands for on its own, if any
/// (`=` and `!` are left out: they look one character ahead).
pub open spec fn single_char_token(c: char) -> Option<TokenView> {
    if c == ';' {
        Some(TokenView::Semicolon)
    } else if c == '(' {
        Some(TokenView::LParen)
    } else if c == ')' {
        Some(TokenView::RParen)
    } else if c == '{' {
        Some(TokenView::LBrace)
    } else if c == '}' {
        Some(TokenView::RBrace)
    } else if c == ',' {
        Some(TokenView::Comma)
    } else if c == '+' {
        Some(TokenView::Plus)
    } else if c == '-' {
        Some(TokenView::Minus)
    } else if c == '*' {
        Some(TokenView::Asterisk)
    } else if c == '/' {
        Some(TokenView::Slash)
    } else if c == '<' {
        Some(TokenView::Lt)
    } else if c == '>' {
        Some(TokenView::Gt)
    } else {
        None
    }
}

/// The keyword spelled by `w`, if it is one of the seven reserved words.
pub open spec fn keyword(w: Seq<char>) -> Option<TokenView> {
    if w == seq!['f', 'n'] {
        Some(TokenView::Function)
    } else if w == seq!['l', 'e', 't'] {
        Some(TokenView::Let)
    } else if w == seq!['t', 'r', 'u', 'e'] {
        Some(TokenView::True)
    } else if w == seq!['f', 'a', 'l', 's', 'e'] {
        Some(TokenView::False)
    } else if w == seq!['i', 'f'] {
        Some(TokenView::If)
    } else if w == seq!['e', 'l', 's', 'e'] {
        Some(TokenView::Else)
    } else if w == seq!['r', 'e', 't', 'u', 'r', 'n'] {
        Some(TokenView::Return)
    } else {
        None
    }
}

/// A word is its keyword token, or else an identifier carrying its text.
pub open spec fn keyword_or_ident(w: Seq<char>) -> TokenView {
    match keyword(w) {
        Some(t) => t,
        None => TokenView::Ident(w),
    }
}

/// The token that starts at index `k` (no whitespace there) and the index
/// just past it. At the end of the text this is `Eof`, and the index stays.
pub open spec fn scan(s: Seq<char>, k: nat) -> (TokenView, nat) {
    if k >= s.len() {
        (TokenView::Eof, k)
    } else {
        let c = s[k as int];
        if c == '=' {
            if k + 1 < s.len() && s[k + 1int] == '=' {
                (TokenView::Equal, k + 2)
            } else {
                (TokenView::Assign, k + 1)
            }
        } else if c == '!' {
            if k + 1 < s.len() && s[k + 1int] == '=' {
                (TokenView::NotEqual, k + 2)
            } else {
                (TokenView::Bang, k + 1)
            }
        } else if single_char_token(c) is Some {
            (single_char_token(c)->0, k + 1)
        } else if is_letter(c) {
            let e = word_end(s, k + 1);
            (keyword_or_ident(s.subrange(k as int, e as int)), e)
        } else if is_digit(c) {
            let e = digits_end(s, k + 1);
            (TokenView::Int(s.subrange(k as int, e as int)), e)
        } else {
            (TokenView::Illegal, k + 1)
        }
    }
}

/// The next token read from index `p`, whitespace skipped first, and the
/// index at which reading goes on.
pub open spec fn next_token_spec(s: Seq<char>, p: nat) -> (TokenView, nat) {
    scan(s, skip_ws(s, p))
}

/// All tokens read from index `p` on, up to (without) the end-of-input token.
pub open spec fn tokens_from(s: Seq<char>, p: nat) -> Seq<TokenView>
    decreases s.len() - p,
    via tokens_from_decreases
{
    let (t, q) = next_token_spec(s, p);
    if t is Eof {
        seq![]
    } else {
        seq![t] + tokens_from(s, q)
    }
}

#[via_fn]
proof fn tokens_from_decreases(s: Seq<char>, p: nat) {
    lemma_next_token_advances(s, p);
}

/// The tokens of a whole text, without the end-of-input token.
pub open spec fn tokens(s: Seq<char>) -> Seq<TokenView> {
    tokens_from(s, 0)
}

proof fn lemma_skip_ws_bounds(s: Seq<char>, p: nat)
    ensures
        p <= skip_ws(s, p),
        p <= s.len() ==> skip_ws(s, p) <= s.len(),
        skip_ws(s, p) < s.len() ==> !is_whitespace(s[skip_ws(s, p) as int]),
    decreases s.len() - p,
{
    if p < s.len() && is_whitespace(s[p as int]) {
        lemma_skip_ws_bounds(s, p + 1);
    }
}

proof fn lemma_word_end_bounds(s: Seq<char>, p: nat)
    ensures
        p <= word_end(s, p),
        p <= s.len() ==> word_end(s, p) <= s.len(),
    decreases s.len() - p,
{
    if p < s.len() && alphanumeric(s[p as int]) {
        lemma_word_end_bounds(s, p + 1);
    }
}

proof fn lemma_digits_end_bounds(s: Seq<char>, p: nat)
    ensures
        p <= digits_end(s, p),
        p <= s.len() ==> digits_end(s, p) <= s.len(),
        forall|i: int| p <= i < digits_end(s, p) ==> is_digit(#[trigger] s[i]),
        digits_end(s, p) < s.len() ==> !is_digit(s[digits_end(s, p) as int]),
    decreases s.len() - p,
{
    if p < s.len() && is_digit(s[p as int]) {
        lemma_digits_end_bounds(s, p + 1);
    }
}

/// Reading a token other than `Eof` moves strictly forward and stays
/// within the text; reading `Eof` leaves the index at the end of the text.
pub proof fn lemma_next_token_advances(s: Seq<char>, p: nat)
    ensures
        !(next_token_spec(s, p).0 is Eof) ==> p < next_token_spec(s, p).1 <= s.len(),
        p <= s.len() && next_token_spec(s, p).0 is Eof ==> next_token_spec(s, p).1 == s.len(),
{
    let k = skip_ws(s, p);
    lemma_skip_ws_bounds(s, p);
    if k < s.len() {
        lemma_word_end_bounds(s, k + 1);
        lemma_digits_end_bounds(s, k + 1);
    }
}

/// Punctuation and operators: a character that stands for a token on its own
/// gives that token and is consumed alone; `==` and `!=` are read exactly when
/// their two characters stand side by side, and `=` and `!` otherwise.
pub proof fn lemma_operator_tokens(s: Seq<char>, p: nat)
    ensures
        ({
            let k = skip_ws(s, p);
            let (t, q) = next_token_spec(s, p);
            &&& k < s.len() && single_char_token(s[k as int]) is Some ==> t == single_char_token(
                s[k as int],
            )->0 && q == k + 1
            &&& t is Equal <==> (k + 1 < s.len() && s[k as int] == '=' && s[k + 1int] == '=')
            &&& t is NotEqual <==> (k + 1 < s.len() && s[k as int] == '!' && s[k + 1int] == '=')
            &&& (t is Equal || t is NotEqual) ==> q == k + 2
            &&& t is Assign <==> (k < s.len() && s[k as int] == '=' && !(k + 1 < s.len() && s[k
                + 1int] == '='))
            &&& t is Bang <==> (k < s.len() && s[k as int] == '!' && !(k + 1 < s.len() && s[k
                + 1int] == '='))
            &&& (t is Assign || t is Bang) ==> q == k + 1
        }),
{
}

/// Words: a letter starts a word that runs over the alphanumeric characters
/// after it. A reserved word gives its keyword token, never an identifier;
/// any other word gives an identifier that carries exactly its text.
pub proof fn lemma_word_tokens(s: Seq<char>, p: nat)
    ensures
        ({
            let k = skip_ws(s, p);
            let (t, q) = next_token_spec(s, p);
            k < s.len() && is_letter(s[k as int]) ==> {
                let w = s.subrange(k as int, q as int);
                &&& q == word_end(s, k + 1)
                &&& forall|i: int| k < i < q ==> alphanumeric(#[trigger] s[i])
                &&& q < s.len() ==> !alphanumeric(s[q as int])
                &&& keyword(w) is Some ==> t == keyword(w)->0 && !(t is Ident)
                &&& keyword(w) is None ==> t == TokenView::Ident(w)
            }
        }),
        ({
            let k = skip_ws(s, p);
            let (t, q) = next_token_spec(s, p);
            t is Ident ==> k < s.len() && is_letter(s[k as int]) && t == TokenView::Ident(
                s.subrange(k as int, q as int),
            ) && keyword(s.subrange(k as int, q as int)) is None
        }),
{
    let k = skip_ws(s, p);
    lemma_skip_ws_bounds(s, p);
    if k < s.len() && is_letter(s[k as int]) {
        lemma_word_end_run(s, k + 1);
    }
}

proof fn lemma_word_end_run(s: Seq<char>, p: nat)
    ensures
        forall|i: int| p <= i < word_end(s, p) ==> alphanumeric(#[trigger] s[i]),
        word_end(s, p) < s.len() ==> !alphanumeric(s[word_end(s, p) as int]),
    decreases s.len() - p,
{
    if p < s.len() && alphanumeric(s[p as int]) {
        lemma_word_end_run(s, p + 1);
    }
}

/// Integers: a digit starts a run of ASCII digits, which gives an integer
/// token carrying exactly that run, leading zeros kept.
pub proof fn lemma_integer_tokens(s: Seq<char>, p: nat)
    ensures
        ({
            let k = skip_ws(s, p);
            let (t, q) = next_token_spec(s, p);
            &&& k < s.len() && is_digit(s[k as int]) ==> {
                &&& t == TokenView::Int(s.subrange(k as int, q as int))
                &&& forall|i: int| k <= i < q ==> is_digit(#[trigger] s[i])
                &&& q < s.len() ==> !is_digit(s[q as int])
            }
            &&& t is Int ==> k < s.len() && is_digit(s[k as int])
        }),
{
    let k = skip_ws(s, p);
    lemma_skip_ws_bounds(s, p);
    if k < s.len() && is_digit(s[k as int]) {
        lemma_digits_end_bounds(s, k + 1);
    }
}

/// Whitespace: a whitespace character is never part of a token, and reading
/// from just before it or just after it gives the same token, the same end,
/// and the same tokens after.
pub proof fn lemma_whitespace_ignored(s: Seq<char>, p: nat)
    requires
        p < s.len(),
        is_whitespace(s[p as int]),
    ensures
        next_token_spec(s, p) == next_token_spec(s, p + 1),
        tokens_from(s, p) == tokens_from(s, p + 1),
        skip_ws(s, p) < s.len() ==> !is_whitespace(s[skip_ws(s, p) as int]),
{
    lemma_skip_ws_bounds(s, p);
}


/// Relies on char::is_alphanumeric, whose answer depends on the character alone.
#[verifier::external_body]
fn char_is_alphanumeric(c: char) -> (r: bool)
    ensures
        r == alphanumeric(c),
{
    c.is_alphanumeric()
}

/// Relies on String's FromIterator<char>: the characters `v[start..end]`, in order.
#[verifier::external_body]
fn text_between(v: &Vec<char>, start: usize, end: usize) -> (r: String)
    requires
        start <= end <= v@.len(),
    ensures
        r@ == v@.subrange(start as int, end as int),
{
    v[start..end].iter().collect()
}

fn is_whitespace_char(c: char) -> (r: bool)
    ensures
        r == is_whitespace(c),
{
    c == ' ' || c == '\t' || c == '\n' || c == '\r'
}

fn is_letter_char(c: char) -> (r: bool)
    ensures
        r == is_letter(c),
{
    ('a' <= c && c <= 'z') || ('A' <= c && c <= 'Z')
}

fn is_digit_char(c: char) -> (r: bool)
    ensures
        r == is_digit(c),
{
    '0' <= c && c <= '9'
}

fn keyword_or_ident_token(word: String) -> (r: Token)
    ensures
        r@ == keyword_or_ident(word@),
{
    proof {
        reveal_strlit("fn");
        assert("fn"@ =~= seq!['f', 'n']);
        reveal_strlit("let");
        assert("let"@ =~= seq!['l', 'e', 't']);
        reveal_strlit("true");
        assert("true"@ =~= seq!['t', 'r', 'u', 'e']);
        reveal_strlit("false");
        assert("false"@ =~= seq!['f', 'a', 'l', 's', 'e']);
        reveal_strlit("if");
        assert("if"@ =~= seq!['i', 'f']);
        reveal_strlit("else");
        assert("else"@ =~= seq!['e', 'l', 's', 'e']);
        reveal_strlit("return");
        assert("return"@ =~= seq!['r', 'e', 't', 'u', 'r', 'n']);
    }
    if word == fixed("fn") {
        Token::FUNCTION
    } else if word == fixed("let") {
        Token::LET
    } else if word == fixed("true") {
        Token::TRUE
    } else if word == fixed("false") {
        Token::FALSE
    } else if word == fixed("if") {
        Token::IF
    } else if word == fixed("else") {
        Token::ELSE
    } else if word == fixed("return") {
        Token::RETURN
    } else {
        Token::IDENT(word)
    }
}

/// Turns source text into tokens, one per call to `next_token`, moving
/// forward only.
pub struct Lexer {
    input: Vec<char>,
    position: usize,
    read_position: usize,
    ch: Option<char>,
}

impl Lexer {
    /// The characters of the source text.
    pub closed spec fn text(&self) -> Seq<char> {
        self.input@
    }

    /// The index of the current character (the length of the text at its end).
    pub closed spec fn pos(&self) -> nat {
        self.position as nat
    }

    /// The cursors agree with each other and with the text.
    pub closed spec fn wf(&self) -> bool {
        &&& self.input@.len() < usize::MAX
        &&& self.position <= self.input@.len()
        &&& self.read_position == self.position + 1
        &&& self.ch == if self.position < self.input@.len() {
            Some(self.input@[self.position as int])
        } else {
            None
        }
    }

    /// A well-formed lexer's index lies within its text.
    pub proof fn lemma_pos_in_text(&self)
        requires
            self.wf(),
        ensures
            self.pos() <= self.text().len(),
    {
    }

    /// A lexer at the start of `input`.
    pub fn new(input: String) -> (r: Lexer)
        requires
            input@.len() < usize::MAX,
        ensures
            r.wf(),
            r.text() == input@,
            r.pos() == 0,
    {
        let mut chars = input.as_str().chars();
        let mut v: Vec<char> = Vec::new();
        loop
            invariant
                v@ + chars.remaining() == input@,
                chars.decrease() is Some,
            ensures
                v@ == input@,
            decreases chars.decrease()->0,
        {
            match chars.next() {
                Some(c) => v.push(c),
                None => break,
            }
        }
        let ch = if v.len() > 0 {
            Some(v[0])
        } else {
            None
        };
        Lexer { input: v, position: 0, read_position: 1, ch }
    }

    /// Moves one character forward.
    fn read_char(&mut self)
        requires
            old(self).wf(),
            old(self).pos() < old(self).text().len(),
        ensures
            final(self).wf(),
            final(self).text() == old(self).text(),
            final(self).pos() == old(self).pos() + 1,
    {
        if self.read_position >= self.input.len() {
            self.ch = None;
        } else {
            self.ch = Some(self.input[self.read_position]);
        }
        self.position = self.read_position;
        self.read_position = self.read_position + 1;
    }

    /// The character after the current one, without moving.
    fn peek_char(&self) -> (r: Option<char>)
        requires
            self.wf(),
        ensures
            r == if self.pos() + 1 < self.text().len() {
                Some(self.text()[self.pos() + 1int])
            } else {
                None
            },
    {
        if self.read_position >= self.input.len() {
            None
        } else {
            Some(self.input[self.read_position])
        }
    }

    fn current_is_whitespace(&self) -> (r: bool)
        requires
            self.wf(),
        ensures
            r == (self.pos() < self.text().len() && is_whitespace(self.text()[self.pos() as int])),
    {
        match self.ch {
            Some(c) => is_whitespace_char(c),
            None => false,
        }
    }

    fn current_is_alphanumeric(&self) -> (r: bool)
        requires
            self.wf(),
        ensures
            r == (self.pos() < self.text().len() && alphanumeric(self.text()[self.pos() as int])),
    {
        match self.ch {
            Some(c) => char_is_alphanumeric(c),
            None => false,
        }
    }

    fn current_is_digit(&self) -> (r: bool)
        requires
            self.wf(),
        ensures
            r == (self.pos() < self.text().len() && is_digit(self.text()[self.pos() as int])),
    {
        match self.ch {
            Some(c) => is_digit_char(c),
            None => false,
        }
    }

    /// Reads the next token, skipping whitespace before it. A character
    /// that starts no token gives `ILLEGAL`. At the end of the text it
    /// returns `EOF` and stays there.
    pub fn next_token(&mut self) -> (r: Token)
        requires
            old(self).wf(),
        ensures
            final(self).wf(),
            final(self).text() == old(self).text(),
            (r@, final(self).pos()) == next_token_spec(old(self).text(), old(self).pos()),
    {
        while self.current_is_whitespace()
            invariant
                self.wf(),
                self.text() == old(self).text(),
                skip_ws(self.text(), self.pos()) == skip_ws(old(self).text(), old(self).pos()),
            decreases self.text().len() - self.pos(),
        {
            self.read_char();
        }
        let c = match self.ch {
            None => return Token::EOF,
            Some(c) => c,
        };
        let token = match c {
            '=' => match self.peek_char() {
                Some('=') => {
                    self.read_char();
                    Token::EQ
                },
                _ => Token::ASSIGN,
            },
            ';' => Token::SEMICOLON,
            '(' => Token::LPAREN,
            ')' => Token::RPAREN,
            '{' => Token::LBRACE,
            '}' => Token::RBRACE,
            ',' => Token::COMMA,
            '+' => Token::PLUS,
            '-' => Token::MINUS,
            '!' => match self.peek_char() {
                Some('=') => {
                    self.read_char();
                    Token::NQ
                },
                _ => Token::BANG,
            },
            '*' => Token::ASTERISK,
            '/' => Token::SLASH,
            '<' => Token::LT,
            '>' => Token::GT,
            _ => {
                if is_letter_char(c) {
                    let word = self.read_identifier();
                    return keyword_or_ident_token(word);
                } else if is_digit_char(c) {
                    return Token::INT(self.read_number());
                } else {
                    // consumed like punctuation, so that reading always moves on
                    Token::ILLEGAL
                }
            },
        };
        self.read_char();
        token
    }

    /// Reads a word: the current letter and the alphanumeric run after it.
    fn read_identifier(&mut self) -> (r: String)
        requires
            old(self).wf(),
            old(self).pos() < old(self).text().len(),
        ensures
            final(self).wf(),
            final(self).text() == old(self).text(),
            final(self).pos() == word_end(old(self).text(), old(self).pos() + 1),
            r@ == old(self).text().subrange(old(self).pos() as int, final(self).pos() as int),
    {
        let position = self.position;
        self.read_char();
        while self.current_is_alphanumeric()
            invariant
                self.wf(),
                self.text() == old(self).text(),
                position < self.pos(),
                word_end(self.text(), self.pos()) == word_end(old(self).text(), old(self).pos() + 1),
            decreases self.text().len() - self.pos(),
        {
            self.read_char();
        }
        text_between(&self.input, position, self.position)
    }

    /// Reads the run of ASCII digits that starts at the current character.
    fn read_number(&mut self) -> (r: String)
        requires
            old(self).wf(),
            old(self).pos() < old(self).text().len(),
        ensures
            final(self).wf(),
            final(self).text() == old(self).text(),
            final(self).pos() == digits_end(old(self).text(), old(self).pos() + 1),
            r@ == old(self).text().subrange(old(self).pos() as int, final(self).pos() as int),
    {
        let position = self.position;
        self.read_char();
        while self.current_is_digit()
            invariant
                self.wf(),
                self.text() == old(self).text(),
                position < self.pos(),
                digits_end(self.text(), self.pos()) == digits_end(old(self).text(), old(self).pos() + 1),
            decreases self.text().len() - self.pos(),
        {
            self.read_char();
        }
        text_between(&self.input, position, self.position)
    }
}

} // verus!
