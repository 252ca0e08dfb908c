use vstd::prelude::*;

use crate::tokens::{Token, TokenV, keyword, tokens_view};

verus! {

/// Why a source text could not be split into tokens.
#[derive(Clone, Copy, Debug, PartialEq, Eq, Structural)]
pub enum LexError {
    /// A character that starts no token.
    UnknownCharacter { position: usize, ch: char },
    /// A string literal without its closing quote.
    UnterminatedString { position: usize },
    /// A character literal that is not one character between two quotes.
    MalformedChar { position: usize },
}

pub open spec fn is_space(c: char) -> bool {
    c == ' ' || c == '\t' || c == '\r' || c == '\n'
}

pub open spec fn is_digit(c: char) -> bool {
    '0' <= c <= '9'
}

pub open spec fn is_alpha(c: char) -> bool {
    ('a' <= c <= 'z') || ('A' <= c <= 'Z')
}

/// Whether a character has one of Unicode's numeric general categories.
pub uninterp spec fn numeric_char(c: char) -> bool;

/// Whether a character is Unicode alphabetic or numeric.
pub uninterp spec fn alphanumeric_char(c: char) -> bool;

/// Relies on `char::is_numeric`: whether the character has a Unicode numeric
/// general category; the ASCII digits do.
#[verifier::external_body]
fn char_is_numeric(c: char) -> (r: bool)
    ensures
        r == numeric_char(c),
        is_digit(c) ==> r,
{
    c.is_numeric()
}

/// Relies on `char::is_alphanumeric`: whether the character is Unicode
/// alphabetic or numeric; ASCII letters and digits are.
#[verifier::external_body]
fn char_is_alphanumeric(c: char) -> (r: bool)
    ensures
        r == alphanumeric_char(c),
        is_alpha(c) || is_digit(c) ==> r,
{
    c.is_alphanumeric()
}

/// The character under a cursor: the end of the text reads as `'\0'`.
pub open spec fn char_at(s: Seq<char>, i: int) -> char {
    if 0 <= i < s.len() {
        s[i]
    } else {
        '\0'
    }
}

/// The end of the run of Unicode letters and digits that starts at `i`.
pub open spec fn ident_end(s: Seq<char>, i: int) -> int
    decreases s.len() - i,
{
    if 0 <= i < s.len() && alphanumeric_char(s[i]) {
        ident_end(s, i + 1)
    } else {
        i
    }
}

/// The end of the run of Unicode numeric characters and decimal points that
/// starts at `i`.
pub open spec fn number_end(s: Seq<char>, i: int) -> int
    decreases s.len() - i,
{
    if 0 <= i < s.len() && (numeric_char(s[i]) || s[i] == '.') {
        number_end(s, i + 1)
    } else {
        i
    }
}

/// The rest of a string literal from `i`, after the text `acc` already read:
/// its whole text and the position after the closing quote, or `None` when the
/// text ends first. A backslash is dropped and the character after it is kept
/// as it stands (no escape is decoded); that character does not close the
/// literal.
pub open spec fn string_body(s: Seq<char>, i: int, acc: Seq<char>) -> Option<(Seq<char>, int)>
    decreases s.len() - i,
{
    if i < 0 || i >= s.len() {
        None
    } else if s[i] == '"' {
        Some((acc, i + 1))
    } else if s[i] == '\\' {
        if i + 1 >= s.len() {
            None
        } else {
            string_body(s, i + 2, acc.push(s[i + 1]))
        }
    } else {
        string_body(s, i + 1, acc.push(s[i]))
    }
}

/// The token that starts exactly at `p`, and the position after it.
pub open spec fn token_at(s: Seq<char>, p: int) -> Result<(TokenV, int), LexError> {
    if p >= s.len() {
        Ok((TokenV::EOF, p))
    } else {
        let c = s[p];
        let two = p + 1 < s.len();
        if c == '=' {
            if two && s[p + 1] == '=' {
                Ok((TokenV::Eq(seq!['=', '=']), p + 2))
            } else {
                Ok((TokenV::Assign('='), p + 1))
            }
        } else if c == '!' {
            if two && s[p + 1] == '=' {
                Ok((TokenV::NotEq(seq!['!', '=']), p + 2))
            } else {
                Ok((TokenV::Bang('!'), p + 1))
            }
        } else if c == '<' {
            if two && s[p + 1] == '=' {
                Ok((TokenV::LtOrEq(seq!['<', '=']), p + 2))
            } else {
                Ok((TokenV::Lt('<'), p + 1))
            }
        } else if c == '>' {
            if two && s[p + 1] == '=' {
                Ok((TokenV::GtOrEq(seq!['>', '=']), p + 2))
            } else {
                Ok((TokenV::Gt('>'), p + 1))
            }
        } else if c == '-' {
            if two && s[p + 1] == '>' {
                Ok((TokenV::Arrow(seq!['-', '>']), p + 2))
            } else {
                Ok((TokenV::Minus('-'), p + 1))
            }
        } else if c == '+' {
            Ok((TokenV::Plus('+'), p + 1))
        } else if c == '*' {
            Ok((TokenV::Multiplication('*'), p + 1))
        } else if c == '/' {
            Ok((TokenV::Division('/'), p + 1))
        } else if c == ';' {
            Ok((TokenV::Semicolon(';'), p + 1))
        } else if c == ':' {
            Ok((TokenV::Colon(':'), p + 1))
        } else if c == '(' {
            Ok((TokenV::LParen('('), p + 1))
        } else if c == ')' {
            Ok((TokenV::RParen(')'), p + 1))
        } else if c == ',' {
            Ok((TokenV::Comma(','), p + 1))
        } else if c == '{' {
            Ok((TokenV::LBrace('{'), p + 1))
        } else if c == '}' {
            Ok((TokenV::RBrace('}'), p + 1))
        } else if c == '"' {
            match string_body(s, p + 1, seq![]) {
                Some((t, q)) => Ok((TokenV::Str(t), q)),
                None => Err(LexError::UnterminatedString { position: p as usize }),
            }
        } else if c == '\'' {
            if p + 2 < s.len() && s[p + 2] == '\'' {
                Ok((TokenV::Char(s[p + 1]), p + 3))
            } else {
                Err(LexError::MalformedChar { position: p as usize })
            }
        } else if numeric_char(c) {
            let e = number_end(s, p + 1);
            let t = s.subrange(p, e);
            if t.contains('.') {
                Ok((TokenV::Float(t), e))
            } else {
                Ok((TokenV::Int(t), e))
            }
        } else if is_alpha(c) {
            let e = ident_end(s, p + 1);
            let w = s.subrange(p, e);
            match keyword(w) {
                Some(k) => Ok((k, e)),
                None => Ok((TokenV::Identifier(w), e)),
            }
        } else {
            Err(LexError::UnknownCharacter { position: p as usize, ch: c })
        }
    }
}

/// The next token at or after `p`, whitespace skipped, and the position after it.
pub open spec fn next_token_at(s: Seq<char>, p: int) -> Result<(TokenV, int), LexError>
    decreases s.len() - p,
{
    if 0 <= p < s.len() && is_space(s[p]) {
        next_token_at(s, p + 1)
    } else {
        token_at(s, p)
    }
}

/// The tokens from `p` to the end of the text, after the tokens `acc` already
/// read; the end of the text itself gives no token.
pub open spec fn lex_from(s: Seq<char>, p: int, acc: Seq<TokenV>) -> Result<Seq<TokenV>, LexError>
    decreases s.len() - p,
{
    match next_token_at(s, p) {
        Err(e) => Err(e),
        Ok((t, q)) => {
            if t is EOF {
                Ok(acc)
            } else if p < q <= s.len() {
                lex_from(s, q, acc.push(t))
            } else {
                Ok(acc)
            }
        },
    }
}

/// The tokens of a whole text.
pub open spec fn tokenize_spec(s: Seq<char>) -> Result<Seq<TokenV>, LexError> {
    lex_from(s, 0, seq![])
}

proof fn lemma_push_contains(s: Seq<char>, c: char, x: char)
    ensures
        s.push(c).contains(x) == (s.contains(x) || c == x),
{
    if s.contains(x) {
        let i = choose|i: int| 0 <= i < s.len() && s[i] == x;
        assert(s.push(c)[i] == x);
    }
    if c == x {
        assert(s.push(c)[s.len() as int] == x);
    }
    if s.push(c).contains(x) {
        let i = choose|i: int| 0 <= i < s.len() + 1 && s.push(c)[i] == x;
        if i < s.len() {
            assert(s[i] == x);
        }
    }
}

/// A cursor over a character buffer.
#[derive(Debug)]
pub struct Lexer {
    pub input: Vec<char>,
    pub position: usize,
    pub line: usize,
    pub read_position: usize,
    pub ch: char,
}

impl Lexer {
    /// The cursor stands at `position`, `ch` is the character there, and
    /// `read_position` is one past it.
    pub open spec fn wf(&self) -> bool {
        &&& self.input@.len() < usize::MAX
        &&& self.position <= self.input@.len()
        &&& self.read_position == self.position + 1
        &&& self.ch == char_at(self.input@, self.position as int)
    }

    /// A cursor at the start of `source`.
    pub fn new(source: Vec<char>) -> (r: Lexer)
        requires
            source@.len() < usize::MAX,
        ensures
            r.wf(),
            r.input@ == source@,
            r.position == 0,
            r.line == 0,
    {
        let ch = if source.len() > 0 {
            source[0]
        } else {
            '\0'
        };
        Lexer { input: source, position: 0, line: 0, read_position: 1, ch }
    }

    /// Moves the cursor one character on; at the end of the text it stays
    /// there, reading `'\0'`.
    pub fn read_char(&mut self)
        requires
            old(self).wf(),
        ensures
            final(self).wf(),
            final(self).input@ == old(self).input@,
            final(self).position == if old(self).position < old(self).input@.len() {
                old(self).position + 1
            } else {
                old(self).position as int
            },
            final(self).line == old(self).line,
    {
        if self.position < self.input.len() {
            self.position = self.read_position;
            self.read_position = self.read_position + 1;
        }
        if self.position >= self.input.len() {
            self.ch = '\0';
        } else {
            self.ch = self.input[self.position];
        }
    }

    /// Moves the cursor one character back.
    pub fn read_char_back(&mut self)
        requires
            old(self).wf(),
            old(self).position > 0,
        ensures
            final(self).wf(),
            final(self).input@ == old(self).input@,
            final(self).position == old(self).position - 1,
            final(self).line == old(self).line,
    {
        self.position = self.position - 1;
        self.read_position = self.read_position - 1;
        self.ch = self.input[self.position];
    }

    /// Steps over one whitespace character, if the cursor stands on one; a
    /// newline is counted in `line`, which stops at its maximum.
    pub fn skip_whitespace(&mut self)
        requires
            old(self).wf(),
        ensures
            final(self).wf(),
            final(self).input@ == old(self).input@,
            final(self).position == if is_space(old(self).ch) {
                old(self).position + 1
            } else {
                old(self).position as int
            },
    {
        let ch = self.ch;
        if ch == ' ' || ch == '\t' || ch == '\r' || ch == '\n' {
            let nl = ch == '\n';
            self.read_char();
            if nl && self.line < usize::MAX {
                self.line = self.line + 1;
            }
        }
    }

    fn two_char(&mut self, second: char) -> (r: bool)
        requires
            old(self).wf(),
            old(self).position < old(self).input@.len(),
        ensures
            final(self).wf(),
            final(self).input@ == old(self).input@,
            r == (old(self).position + 1 < old(self).input@.len()
                && old(self).input@[old(self).position + 1] == second),
            final(self).position == old(self).position + if r { 2int } else { 1int },
    {
        self.read_char();
        if self.position < self.input.len() && self.ch == second {
            self.read_char();
            true
        } else {
            false
        }
    }

    fn token_match(&mut self) -> (r: Result<Token, LexError>)
        requires
            old(self).wf(),
        ensures
            final(self).wf(),
            final(self).input@ == old(self).input@,
            match token_at(old(self).input@, old(self).position as int) {
                Ok((t, q)) => r is Ok && r->Ok_0@ == t && final(self).position == q,
                Err(e) => r == Err::<Token, LexError>(e),
            },
    {
        let ghost s = self.input@;
        let ghost p = self.position as int;
        if self.position >= self.input.len() {
            return Ok(Token::EOF);
        }
        let c = self.ch;
        if c == '=' {
            if self.two_char('=') {
                Ok(Token::Eq { val: ['=', '='] })
            } else {
                Ok(Token::Assign { val: '=' })
            }
        } else if c == '!' {
            if self.two_char('=') {
                Ok(Token::NotEq { val: ['!', '='] })
            } else {
                Ok(Token::Bang { val: '!' })
            }
        } else if c == '<' {
            if self.two_char('=') {
                Ok(Token::LtOrEq { val: ['<', '='] })
            } else {
                Ok(Token::Lt { val: '<' })
            }
        } else if c == '>' {
            if self.two_char('=') {
                Ok(Token::GtOrEq { val: ['>', '='] })
            } else {
                Ok(Token::Gt { val: '>' })
            }
        } else if c == '-' {
            if self.two_char('>') {
                let arrow = String::from_str("->");
                proof {
                    reveal_strlit("->");
                    assert(arrow@ =~= seq!['-', '>']);
                }
                Ok(Token::Arrow { val: arrow })
            } else {
                Ok(Token::Minus { val: '-' })
            }
        } else if c == '+' {
            self.read_char();
            Ok(Token::Plus { val: '+' })
        } else if c == '*' {
            self.read_char();
            Ok(Token::Multiplication { val: '*' })
        } else if c == '/' {
            self.read_char();
            Ok(Token::Division { val: '/' })
        } else if c == ';' {
            self.read_char();
            Ok(Token::Semicolon { val: ';' })
        } else if c == ':' {
            self.read_char();
            Ok(Token::Colon { val: ':' })
        } else if c == '(' {
            self.read_char();
            Ok(Token::LParen { val: '(' })
        } else if c == ')' {
            self.read_char();
            Ok(Token::RParen { val: ')' })
        } else if c == ',' {
            self.read_char();
            Ok(Token::Comma { val: ',' })
        } else if c == '{' {
            self.read_char();
            Ok(Token::LBrace { val: '{' })
        } else if c == '}' {
            self.read_char();
            Ok(Token::RBrace { val: '}' })
        } else if c == '"' {
            self.read_string()
        } else if c == '\'' {
            let start = self.position;
            if self.position + 2 < self.input.len() && self.input[self.position + 2] == '\'' {
                self.read_char();
                let val = self.ch;
                self.read_char();
                self.read_char();
                Ok(Token::Char { val })
            } else {
                Err(LexError::MalformedChar { position: start })
            }
        } else if char_is_numeric(c) {
            self.read_number()
        } else if (c >= 'a' && c <= 'z') || (c >= 'A' && c <= 'Z') {
            let word = self.read_identifier();
            match Token::get_keyword_token(&word) {
                Ok(k) => Ok(k),
                Err(_) => Ok(Token::Identifier { val: word }),
            }
        } else {
            Err(LexError::UnknownCharacter { position: self.position, ch: c })
        }
    }

    fn read_string(&mut self) -> (r: Result<Token, LexError>)
        requires
            old(self).wf(),
            old(self).position < old(self).input@.len(),
            old(self).ch == '"',
        ensures
            final(self).wf(),
            final(self).input@ == old(self).input@,
            match string_body(old(self).input@, old(self).position + 1, seq![]) {
                Some((t, q)) => r is Ok && r->Ok_0@ == TokenV::Str(t) && final(self).position == q,
                None => r == Err::<Token, LexError>(
                    LexError::UnterminatedString { position: old(self).position },
                ),
            },
    {
        let ghost s = self.input@;
        let start = self.position;
        self.read_char();
        let mut text: Vec<char> = Vec::new();
        while self.position < self.input.len() && self.ch != '"'
            invariant
                self.wf(),
                self.input@ == s,
                s == old(self).input@,
                start == old(self).position,
                start < self.position,
                string_body(s, start + 1, seq![]) == string_body(
                    s,
                    self.position as int,
                    text@,
                ),
            decreases s.len() - self.position,
        {
            if self.ch == '\\' {
                if self.position + 1 >= self.input.len() {
                    return Err(LexError::UnterminatedString { position: start });
                }
                self.read_char();
                text.push(self.ch);
                self.read_char();
            } else {
                text.push(self.ch);
                self.read_char();
            }
        }
        if self.position >= self.input.len() {
            return Err(LexError::UnterminatedString { position: start });
        }
        self.read_char();
        Ok(Token::String { val: text })
    }

    fn read_number(&mut self) -> (r: Result<Token, LexError>)
        requires
            old(self).wf(),
            old(self).position < old(self).input@.len(),
            numeric_char(old(self).ch),
        ensures
            final(self).wf(),
            final(self).input@ == old(self).input@,
            ({
                let s = old(self).input@;
                let p = old(self).position as int;
                let e = number_end(s, p + 1);
                let t = s.subrange(p, e);
                &&& final(self).position == e
                &&& r is Ok
                &&& r->Ok_0@ == if t.contains('.') {
                    TokenV::Float(t)
                } else {
                    TokenV::Int(t)
                }
            }),
    {
        let ghost s = self.input@;
        let start = self.position;
        let mut text: Vec<char> = Vec::new();
        let mut dot = self.ch == '.';
        text.push(self.ch);
        self.read_char();
        assert(text@ =~= s.subrange(start as int, self.position as int));
        proof {
            lemma_push_contains(seq![], s[start as int], '.');
            assert(seq![].push(s[start as int]) =~= text@);
        }
        while self.position < self.input.len() && (char_is_numeric(self.ch) || self.ch == '.')
            invariant
                self.wf(),
                self.input@ == s,
                start < self.position,
                number_end(s, start + 1) == number_end(s, self.position as int),
                text@ == s.subrange(start as int, self.position as int),
                dot == text@.contains('.'),
            decreases s.len() - self.position,
        {
            proof {
                lemma_push_contains(text@, self.ch, '.');
            }
            if self.ch == '.' {
                dot = true;
            }
            text.push(self.ch);
            self.read_char();
            assert(text@ =~= s.subrange(start as int, self.position as int));
        }
        if dot {
            Ok(Token::Float { val: text })
        } else {
            Ok(Token::Int { val: text })
        }
    }

    fn read_identifier(&mut self) -> (r: Vec<char>)
        requires
            old(self).wf(),
            old(self).position < old(self).input@.len(),
            is_alpha(old(self).ch),
        ensures
            final(self).wf(),
            final(self).input@ == old(self).input@,
            final(self).position == ident_end(old(self).input@, old(self).position + 1),
            r@ == old(self).input@.subrange(old(self).position as int, final(self).position as int),
    {
        let ghost s = self.input@;
        let start = self.position;
        let mut text: Vec<char> = Vec::new();
        text.push(self.ch);
        self.read_char();
        assert(text@ =~= s.subrange(start as int, self.position as int));
        while self.position < self.input.len() && char_is_alphanumeric(self.ch)
            invariant
                self.wf(),
                self.input@ == s,
                start < self.position,
                ident_end(s, start + 1) == ident_end(s, self.position as int),
                text@ == s.subrange(start as int, self.position as int),
            decreases s.len() - self.position,
        {
            text.push(self.ch);
            self.read_char();
            assert(text@ =~= s.subrange(start as int, self.position as int));
        }
        text
    }

    /// The next token after any whitespace; at the end of the text, `EOF`.
    pub fn next_token(&mut self) -> (r: Result<Token, LexError>)
        requires
            old(self).wf(),
        ensures
            final(self).wf(),
            final(self).input@ == old(self).input@,
            match next_token_at(old(self).input@, old(self).position as int) {
                Ok((t, q)) => r is Ok && r->Ok_0@ == t && final(self).position == q,
                Err(e) => r == Err::<Token, LexError>(e),
            },
    {
        let ghost s = self.input@;
        let ghost p = self.position as int;
        while self.position < self.input.len() && (self.ch == ' ' || self.ch == '\t' || self.ch
            == '\r' || self.ch == '\n')
            invariant
                self.wf(),
                self.input@ == s,
                next_token_at(s, p) == next_token_at(s, self.position as int),
            decreases s.len() - self.position,
        {
            self.skip_whitespace();
        }
        self.token_match()
    }

    /// All tokens from the cursor to the end of the text; whitespace gives none,
    /// and the end of the text ends the sequence without a token of its own.
    pub fn lex(&mut self) -> (r: Result<Vec<Token>, LexError>)
        requires
            old(self).wf(),
        ensures
            final(self).wf(),
            final(self).input@ == old(self).input@,
            match lex_from(old(self).input@, old(self).position as int, seq![]) {
                Ok(ts) => r is Ok && tokens_view(r->Ok_0@) == ts,
                Err(e) => r == Err::<Vec<Token>, LexError>(e),
            },
    {
        let ghost s = self.input@;
        let ghost p = self.position as int;
        let mut tokens: Vec<Token> = Vec::new();
        assert(tokens_view(tokens@) =~= seq![]);
        loop
            invariant
                self.wf(),
                self.input@ == s,
                s == old(self).input@,
                p == old(self).position,
                lex_from(s, p, seq![]) == lex_from(s, self.position as int, tokens_view(tokens@)),
            decreases s.len() - self.position,
        {
            let ghost before = self.position as int;
            let t = self.next_token();
            match t {
                Err(e) => {
                    return Err(e);
                },
                Ok(t) => {
                    if let Token::EOF = t {
                        return Ok(tokens);
                    }
                    proof {
                        lemma_next_advances(s, before);
                    }
                    let ghost old_tokens = tokens@;
                    tokens.push(t);
                    assert(tokens_view(tokens@) =~= tokens_view(old_tokens).push(t@));
                },
            }
        }
    }
}

/// A token other than the end of the text lies after its start.
proof fn lemma_next_advances(s: Seq<char>, p: int)
    requires
        0 <= p <= s.len(),
        next_token_at(s, p) is Ok,
        !(next_token_at(s, p)->Ok_0.0 is EOF),
    ensures
        p < next_token_at(s, p)->Ok_0.1 <= s.len(),
    decreases s.len() - p,
{
    if 0 <= p < s.len() && is_space(s[p]) {
        lemma_next_advances(s, p + 1);
    } else {
        let c = s[p];
        if c == '"' {
            lemma_string_body_bounds(s, p + 1, seq![]);
        } else if numeric_char(c) {
            lemma_number_end_bounds(s, p + 1);
        } else if is_alpha(c) {
            lemma_ident_end_bounds(s, p + 1);
        }
    }
}

proof fn lemma_string_body_bounds(s: Seq<char>, i: int, acc: Seq<char>)
    requires
        string_body(s, i, acc) is Some,
    ensures
        i < string_body(s, i, acc)->Some_0.1 <= s.len(),
    decreases s.len() - i,
{
    if s[i] == '"' {
    } else if s[i] == '\\' {
        lemma_string_body_bounds(s, i + 2, acc.push(s[i + 1]));
    } else {
        lemma_string_body_bounds(s, i + 1, acc.push(s[i]));
    }
}

proof fn lemma_number_end_bounds(s: Seq<char>, i: int)
    requires
        0 <= i <= s.len(),
    ensures
        i <= number_end(s, i) <= s.len(),
    decreases s.len() - i,
{
    if 0 <= i < s.len() && (numeric_char(s[i]) || s[i] == '.') {
        lemma_number_end_bounds(s, i + 1);
    }
}

proof fn lemma_ident_end_bounds(s: Seq<char>, i: int)
    requires
        0 <= i <= s.len(),
    ensures
        i <= ident_end(s, i) <= s.len(),
    decreases s.len() - i,
{
    if 0 <= i < s.len() && alphanumeric_char(s[i]) {
        lemma_ident_end_bounds(s, i + 1);
    }
}

/// The tokens of a whole text.
pub fn tokenize(source: Vec<char>) -> (r: Result<Vec<Token>, LexError>)
    requires
        source@.len() < usize::MAX,
    ensures
        match tokenize_spec(source@) {
            Ok(ts) => r is Ok && tokens_view(r->Ok_0@) == ts,
            Err(e) => r == Err::<Vec<Token>, LexError>(e),
        },
{
    let mut lexer = Lexer::new(source);
    lexer.lex()
}

} // verus!
