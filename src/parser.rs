use vstd::prelude::*;

use crate::ast::{
    CmpOperators, ExprV, Expression, FuncParam, Operator, ParamV, Statement, StmtV, Type,
    exprs_view, params_view, stmts_view, type_of_name,
};
use crate::lexer::is_digit;
use crate::tokens::{Token, TokenV, same_variant, tokens_view};

verus! {

/// Why a token sequence is not a program.
#[derive(Clone, Copy, Debug, PartialEq, Eq, Structural)]
pub enum ParseError {
    /// The token at this index is not what the grammar allows there.
    UnexpectedToken { position: usize },
    /// The tokens ended where the grammar asks for more.
    UnexpectedEnd,
    /// The numeric literal at this index has no value (too large, or malformed).
    InvalidNumber { position: usize },
}

/// Punctuation that the grammar asks for at fixed places.
#[derive(Clone, Copy, Debug, PartialEq, Eq, Structural)]
pub enum Punct {
    Colon,
    Assign,
    LParen,
    RParen,
    LBrace,
    Comma,
    Arrow,
}

pub open spec fn is_punct(tk: TokenV, k: Punct) -> bool {
    match k {
        Punct::Colon => tk is Colon,
        Punct::Assign => tk is Assign,
        Punct::LParen => tk is LParen,
        Punct::RParen => tk is RParen,
        Punct::LBrace => tk is LBrace,
        Punct::Comma => tk is Comma,
        Punct::Arrow => tk is Arrow,
    }
}

/// Whether the token at `i` exists and is the punctuation `k`.
pub open spec fn at(t: Seq<TokenV>, i: int, k: Punct) -> bool {
    0 <= i < t.len() && is_punct(t[i], k)
}

/// Whether the token at `i` exists and is an identifier.
pub open spec fn ident_at(t: Seq<TokenV>, i: int) -> bool {
    0 <= i < t.len() && t[i] is Identifier
}

/// The error for a missing or wrong token at `i`.
pub open spec fn err_at(t: Seq<TokenV>, i: int) -> ParseError {
    if 0 <= i < t.len() {
        ParseError::UnexpectedToken { position: i as usize }
    } else {
        ParseError::UnexpectedEnd
    }
}

pub open spec fn all_digits(v: Seq<char>) -> bool {
    forall|k: int| 0 <= k < v.len() ==> is_digit(#[trigger] v[k])
}

/// The value of a run of decimal digits.
pub open spec fn digits_value(v: Seq<char>) -> int
    decreases v.len(),
{
    if v.len() == 0 {
        0
    } else {
        digits_value(v.drop_last()) * 10 + ((v.last() as u32) as int - 48)
    }
}

/// An integer literal: digits only, with a value that fits in an `i64`.
pub open spec fn int_text_ok(v: Seq<char>) -> bool {
    v.len() > 0 && all_digits(v) && digits_value(v) <= i64::MAX
}

pub open spec fn dot_count(v: Seq<char>) -> nat
    decreases v.len(),
{
    if v.len() == 0 {
        0
    } else {
        dot_count(v.drop_last()) + if v.last() == '.' {
            1nat
        } else {
            0nat
        }
    }
}

/// A float literal: a digit, then digits and exactly one decimal point.
pub open spec fn float_text_ok(v: Seq<char>) -> bool {
    &&& v.len() > 0
    &&& is_digit(v[0])
    &&& forall|k: int| 0 <= k < v.len() ==> is_digit(#[trigger] v[k]) || v[k] == '.'
    &&& dot_count(v) == 1
}

/// The expression that the single token `tk` at index `i` stands for, if it
/// can start an expression.
pub open spec fn primary(tk: TokenV, i: int) -> Result<Option<ExprV>, ParseError> {
    match tk {
        TokenV::Str(v) => Ok(Some(ExprV::Str(v))),
        TokenV::Identifier(v) => Ok(Some(ExprV::Ident(v))),
        TokenV::Int(v) => if int_text_ok(v) {
            Ok(Some(ExprV::Int(digits_value(v) as i64)))
        } else {
            Err(ParseError::InvalidNumber { position: i as usize })
        },
        TokenV::Float(v) => if float_text_ok(v) {
            Ok(Some(ExprV::Float(v)))
        } else {
            Err(ParseError::InvalidNumber { position: i as usize })
        },
        TokenV::Char(c) => Ok(Some(ExprV::Char(c))),
        TokenV::True => Ok(Some(ExprV::Bool(true))),
        TokenV::False => Ok(Some(ExprV::Bool(false))),
        _ => Ok(None),
    }
}

/// The binding powers of an infix operator token: the left one is the least
/// threshold at which the operator is still taken, the right one the
/// threshold for its right operand.
pub open spec fn infix_bp(tk: TokenV) -> Option<(u8, u8)> {
    match tk {
        TokenV::Multiplication(_) | TokenV::Division(_) => Some((8u8, 9u8)),
        TokenV::Plus(_) | TokenV::Minus(_) => Some((6u8, 7u8)),
        _ => None,
    }
}

pub open spec fn op_of(tk: TokenV) -> Operator {
    match tk {
        TokenV::Multiplication(_) => Operator::Multiplication,
        TokenV::Division(_) => Operator::Division,
        TokenV::Plus(_) => Operator::Plus,
        _ => Operator::Minus,
    }
}

pub open spec fn cmp_of(tk: TokenV) -> Option<CmpOperators> {
    match tk {
        TokenV::Lt(_) => Some(CmpOperators::LessThen),
        TokenV::LtOrEq(_) => Some(CmpOperators::LessThenOrEqual),
        TokenV::Gt(_) => Some(CmpOperators::GreaterThen),
        TokenV::GtOrEq(_) => Some(CmpOperators::GreaterThenOrEqual),
        TokenV::Eq(_) => Some(CmpOperators::Equal),
        TokenV::NotEq(_) => Some(CmpOperators::NotEqual),
        _ => None,
    }
}

/// The expression that starts at `i`, absorbing infix operators whose left
/// binding power is at least `bp`, with the index after it; `None` when no
/// expression starts there.
pub open spec fn parse_expr(t: Seq<TokenV>, i: int, bp: int) -> Result<Option<(ExprV, int)>, ParseError>
    decreases t.len() - i, 2int,
{
    if i < 0 || i >= t.len() {
        Ok(None)
    } else {
        match primary(t[i], i) {
            Err(e) => Err(e),
            Ok(None) => Ok(None),
            Ok(Some(lhs)) => match expr_loop(t, i + 1, lhs, bp) {
                Err(e) => Err(e),
                Ok(r) => Ok(Some(r)),
            },
        }
    }
}

/// Extends the expression `lhs`, which ends before `i`, by calls and by infix
/// operators whose left binding power is at least `bp`.
pub open spec fn expr_loop(t: Seq<TokenV>, i: int, lhs: ExprV, bp: int) -> Result<(ExprV, int), ParseError>
    decreases t.len() - i, 1int,
{
    if i < 0 || i >= t.len() {
        Ok((lhs, i))
    } else if t[i] is LParen {
        match parse_args(t, i + 1, seq![]) {
            Err(e) => Err(e),
            Ok((args, j)) => if i < j <= t.len() {
                expr_loop(t, j, ExprV::Call(Box::new(lhs), args), bp)
            } else {
                Ok((lhs, i))
            },
        }
    } else {
        match infix_bp(t[i]) {
            None => Ok((lhs, i)),
            Some((l, r)) => if (l as int) < bp {
                Ok((lhs, i))
            } else {
                match parse_expr(t, i + 1, r as int) {
                    Err(e) => Err(e),
                    Ok(None) => Err(err_at(t, i + 1)),
                    Ok(Some((rhs, j))) => if i < j <= t.len() {
                        expr_loop(t, j, ExprV::Binary(op_of(t[i]), Box::new(lhs), Box::new(rhs)), bp)
                    } else {
                        Ok((lhs, i))
                    },
                }
            },
        }
    }
}

/// The arguments of a call from `i`, just after `(` or after a comma, after the
/// arguments `acc` already read, with the index after the closing `)`.
pub open spec fn parse_args(t: Seq<TokenV>, i: int, acc: Seq<ExprV>) -> Result<(Seq<ExprV>, int), ParseError>
    decreases t.len() - i, 3int,
{
    if i < 0 || i > t.len() {
        Err(ParseError::UnexpectedEnd)
    } else if acc.len() == 0 && at(t, i, Punct::RParen) {
        Ok((acc, i + 1))
    } else {
        match parse_expr(t, i, 0) {
            Err(e) => Err(e),
            Ok(None) => Err(err_at(t, i)),
            Ok(Some((e, j))) => if i < j <= t.len() {
                if at(t, j, Punct::Comma) {
                    parse_args(t, j + 1, acc.push(e))
                } else if at(t, j, Punct::RParen) {
                    Ok((acc.push(e), j + 1))
                } else {
                    Err(err_at(t, j))
                }
            } else {
                Err(ParseError::UnexpectedEnd)
            },
        }
    }
}

/// The parameters of a function from `i`, just after `(` or after a comma,
/// after the parameters `acc` already read, with the index after the `)`.
pub open spec fn parse_params(t: Seq<TokenV>, i: int, acc: Seq<ParamV>) -> Result<(Seq<ParamV>, int), ParseError>
    decreases t.len() - i,
{
    if i < 0 || i > t.len() {
        Err(ParseError::UnexpectedEnd)
    } else if acc.len() == 0 && at(t, i, Punct::RParen) {
        Ok((acc, i + 1))
    } else if !ident_at(t, i) {
        Err(err_at(t, i))
    } else if !at(t, i + 1, Punct::Colon) {
        Err(err_at(t, i + 1))
    } else if !ident_at(t, i + 2) {
        Err(err_at(t, i + 2))
    } else {
        let p = ParamV { name: t[i]->Identifier_0, ty: type_of_name(t[i + 2]->Identifier_0) };
        if at(t, i + 3, Punct::Comma) {
            parse_params(t, i + 4, acc.push(p))
        } else if at(t, i + 3, Punct::RParen) {
            Ok((acc.push(p), i + 4))
        } else {
            Err(err_at(t, i + 3))
        }
    }
}

/// The statement that starts at `i`, with the index after it; `None` when no
/// statement starts there.
pub open spec fn parse_stmt(t: Seq<TokenV>, i: int) -> Result<Option<(StmtV, int)>, ParseError>
    decreases t.len() - i, 4int,
{
    if i < 0 || i >= t.len() {
        Ok(None)
    } else if t[i] is Let {
        if !ident_at(t, i + 1) {
            Err(err_at(t, i + 1))
        } else if !at(t, i + 2, Punct::Colon) {
            Err(err_at(t, i + 2))
        } else if !ident_at(t, i + 3) {
            Err(err_at(t, i + 3))
        } else if !at(t, i + 4, Punct::Assign) {
            Err(err_at(t, i + 4))
        } else {
            match parse_expr(t, i + 5, 0) {
                Err(e) => Err(e),
                Ok(None) => Err(err_at(t, i + 5)),
                Ok(Some((e, j))) => Ok(
                    Some(
                        (
                            StmtV::Let(
                                t[i + 1]->Identifier_0,
                                type_of_name(t[i + 3]->Identifier_0),
                                e,
                            ),
                            j,
                        ),
                    ),
                ),
            }
        }
    } else if t[i] is Function {
        if !ident_at(t, i + 1) {
            Err(err_at(t, i + 1))
        } else if !at(t, i + 2, Punct::LParen) {
            Err(err_at(t, i + 2))
        } else {
            match parse_params(t, i + 3, seq![]) {
                Err(e) => Err(e),
                Ok((ps, j)) => {
                    let has_ret = at(t, j, Punct::Colon) || at(t, j, Punct::Arrow);
                    if !(i < j <= t.len()) {
                        Err(ParseError::UnexpectedEnd)
                    } else if has_ret && !ident_at(t, j + 1) {
                        Err(err_at(t, j + 1))
                    } else {
                        let ty = if has_ret {
                            type_of_name(t[j + 1]->Identifier_0)
                        } else {
                            Type::Void
                        };
                        let k = if has_ret {
                            j + 2
                        } else {
                            j
                        };
                        match parse_block(t, k, TokenV::End, seq![]) {
                            Err(e) => Err(e),
                            Ok((body, m)) => Ok(
                                Some((StmtV::Func(t[i + 1]->Identifier_0, ps, body, ty), m)),
                            ),
                        }
                    }
                },
            }
        }
    } else if t[i] is If {
        match parse_expr(t, i + 1, 0) {
            Err(e) => Err(e),
            Ok(None) => Err(err_at(t, i + 1)),
            Ok(Some((l, j))) => if !(i < j < t.len()) {
                Err(err_at(t, j))
            } else {
                match cmp_of(t[j]) {
                    None => Err(err_at(t, j)),
                    Some(op) => match parse_expr(t, j + 1, 0) {
                        Err(e) => Err(e),
                        Ok(None) => Err(err_at(t, j + 1)),
                        Ok(Some((r, k))) => if !(j < k <= t.len()) {
                            Err(ParseError::UnexpectedEnd)
                        } else if !at(t, k, Punct::LBrace) {
                            Err(err_at(t, k))
                        } else {
                            match parse_block(t, k + 1, TokenV::RBrace('}'), seq![]) {
                                Err(e) => Err(e),
                                Ok((body, m)) => Ok(Some((StmtV::If(l, op, r, body), m))),
                            }
                        },
                    },
                }
            },
        }
    } else if t[i] is Return {
        match parse_expr(t, i + 1, 0) {
            Err(e) => Err(e),
            Ok(None) => Err(err_at(t, i + 1)),
            Ok(Some((e, j))) => Ok(Some((StmtV::Return(e), j))),
        }
    } else {
        match parse_expr(t, i, 0) {
            Err(e) => Err(e),
            Ok(None) => Ok(None),
            Ok(Some((e, j))) => Ok(Some((StmtV::Expr(e), j))),
        }
    }
}

/// The statements of a block from `i`, after the statements `acc` already
/// read, with the index after its closing token.
pub open spec fn parse_block(t: Seq<TokenV>, i: int, delim: TokenV, acc: Seq<StmtV>) -> Result<(Seq<StmtV>, int), ParseError>
    decreases t.len() - i, 5int,
{
    if i < 0 || i >= t.len() {
        Err(ParseError::UnexpectedEnd)
    } else if same_variant(t[i], delim) {
        Ok((acc, i + 1))
    } else {
        match parse_stmt(t, i) {
            Err(e) => Err(e),
            Ok(None) => Err(err_at(t, i)),
            Ok(Some((s, j))) => if i < j <= t.len() {
                parse_block(t, j, delim, acc.push(s))
            } else {
                Err(ParseError::UnexpectedEnd)
            },
        }
    }
}

/// The statements from `i` on, after the statements `acc` already read; the
/// program ends where no statement starts.
pub open spec fn parse_program(t: Seq<TokenV>, i: int, acc: Seq<StmtV>) -> Result<Seq<StmtV>, ParseError>
    decreases t.len() - i,
{
    if i < 0 || i > t.len() {
        Ok(acc)
    } else {
        match parse_stmt(t, i) {
            Err(e) => Err(e),
            Ok(None) => Ok(acc),
            Ok(Some((s, j))) => if i < j <= t.len() {
                parse_program(t, j, acc.push(s))
            } else {
                Ok(acc)
            },
        }
    }
}

/// The program that a whole token sequence spells.
pub open spec fn parse_spec(t: Seq<TokenV>) -> Result<Seq<StmtV>, ParseError> {
    parse_program(t, 0, seq![])
}

/// Relies on `String::from_iter` over characters: the string holds exactly
/// the given characters, in order.
#[verifier::external_body]
fn string_from_chars(v: &Vec<char>) -> (r: String)
    ensures
        r@ == v@,
{
    String::from_iter(v.iter())
}

proof fn lemma_digits_value_nonneg(v: Seq<char>)
    requires
        all_digits(v),
    ensures
        digits_value(v) >= 0,
    decreases v.len(),
{
    if v.len() > 0 {
        assert(is_digit(v[v.len() - 1]));
        assert(all_digits(v.drop_last())) by {
            assert forall|k: int| 0 <= k < v.drop_last().len() implies is_digit(
                #[trigger] v.drop_last()[k],
            ) by {
                assert(is_digit(v[k]));
            }
        }
        lemma_digits_value_nonneg(v.drop_last());
    }
}

proof fn lemma_digits_value_mono(v: Seq<char>, i: int)
    requires
        all_digits(v),
        0 <= i <= v.len(),
    ensures
        digits_value(v.subrange(0, i)) <= digits_value(v),
    decreases v.len() - i,
{
    if i < v.len() {
        lemma_digits_value_mono(v, i + 1);
        let a = v.subrange(0, i + 1);
        assert(a.drop_last() =~= v.subrange(0, i));
        assert(is_digit(a[i]));
        assert(all_digits(v.subrange(0, i))) by {
            assert forall|k: int| 0 <= k < i implies is_digit(#[trigger] v.subrange(0, i)[k]) by {
                assert(is_digit(v[k]));
            }
        }
        lemma_digits_value_nonneg(v.subrange(0, i));
    } else {
        assert(v.subrange(0, i) =~= v);
    }
}

/// The value of an integer literal's text, when it has one.
pub fn parse_int_text(v: &Vec<char>) -> (r: Option<i64>)
    ensures
        r == if int_text_ok(v@) {
            Some(digits_value(v@) as i64)
        } else {
            None::<i64>
        },
{
    if v.len() == 0 {
        return None;
    }
    let mut value: i64 = 0;
    let mut i: usize = 0;
    while i < v.len()
        invariant
            0 <= i <= v@.len(),
            value as int == digits_value(v@.subrange(0, i as int)),
            all_digits(v@.subrange(0, i as int)),
        decreases v@.len() - i,
    {
        let c = v[i];
        let ghost next = v@.subrange(0, i + 1);
        assert(next.drop_last() =~= v@.subrange(0, i as int));
        if !(c >= '0' && c <= '9') {
            assert(!is_digit(v@[i as int]));
            return None;
        }
        let d: i64 = (c as u32 - '0' as u32) as i64;
        assert(all_digits(next)) by {
            assert forall|k: int| 0 <= k < next.len() implies is_digit(#[trigger] next[k]) by {
                if k < i {
                    assert(next[k] == v@.subrange(0, i as int)[k]);
                }
            }
        }
        proof {
            lemma_digits_value_nonneg(v@.subrange(0, i as int));
        }
        match value.checked_mul(10) {
            None => {
                proof {
                    if all_digits(v@) {
                        lemma_digits_value_mono(v@, i + 1);
                    }
                }
                return None;
            },
            Some(m) => match m.checked_add(d) {
                None => {
                    proof {
                        if all_digits(v@) {
                            lemma_digits_value_mono(v@, i + 1);
                        }
                    }
                    return None;
                },
                Some(n) => {
                    value = n;
                },
            },
        }
        i = i + 1;
    }
    assert(v@.subrange(0, i as int) =~= v@);
    Some(value)
}

/// Whether a float literal's text is well formed.
pub fn float_text_valid(v: &Vec<char>) -> (r: bool)
    ensures
        r == float_text_ok(v@),
{
    if v.len() == 0 {
        return false;
    }
    if !(v[0] >= '0' && v[0] <= '9') {
        return false;
    }
    let mut dots: usize = 0;
    let mut i: usize = 0;
    while i < v.len()
        invariant
            0 <= i <= v@.len(),
            dots as nat == dot_count(v@.subrange(0, i as int)),
            dots <= i,
            forall|k: int| 0 <= k < i ==> is_digit(#[trigger] v@[k]) || v@[k] == '.',
        decreases v@.len() - i,
    {
        let c = v[i];
        assert(v@.subrange(0, i + 1).drop_last() =~= v@.subrange(0, i as int));
        if c == '.' {
            dots = dots + 1;
        } else if !(c >= '0' && c <= '9') {
            return false;
        }
        i = i + 1;
    }
    assert(v@.subrange(0, i as int) =~= v@);
    dots == 1
}

/// The binding powers of an infix operator token, or `None` for any other token.
pub fn infix_binding_power(token: &Token) -> (r: Option<(u8, u8)>)
    ensures
        r == infix_bp(token@),
{
    match token {
        Token::Multiplication { .. } | Token::Division { .. } => Some((8, 9)),
        Token::Plus { .. } | Token::Minus { .. } => Some((6, 7)),
        _ => None,
    }
}

/// The binary expression of an infix operator token and its two operands.
pub fn make_infix_expr(lhs: Expression, op: &Token, rhs: Expression) -> (r: Expression)
    requires
        infix_bp(op@) is Some,
    ensures
        r@ == ExprV::Binary(op_of(op@), Box::new(lhs@), Box::new(rhs@)),
{
    let op = match op {
        Token::Plus { .. } => Operator::Plus,
        Token::Multiplication { .. } => Operator::Multiplication,
        Token::Division { .. } => Operator::Division,
        _ => Operator::Minus,
    };
    Expression::BinaryExpr { op, lhs: Box::new(lhs), rhs: Box::new(rhs) }
}

/// A parser over a token sequence, with a cursor at `pos`.
pub struct Parser {
    pub tokens: Vec<Token>,
    pub pos: usize,
}

impl Parser {
    /// The models of the tokens.
    pub open spec fn toks(&self) -> Seq<TokenV> {
        tokens_view(self.tokens@)
    }

    pub open spec fn wf(&self) -> bool {
        &&& self.pos <= self.tokens@.len()
        &&& self.tokens@.len() <= usize::MAX
        &&& self.toks().len() == self.tokens@.len()
    }

    /// A parser at the start of `input_token`.
    pub fn new(input_token: Vec<Token>) -> (r: Parser)
        ensures
            r.wf(),
            r.tokens@ == input_token@,
            r.pos == 0,
    {
        let n = input_token.len();
        Parser { tokens: input_token, pos: 0 }
    }

    fn error_at(&self, i: usize) -> (r: ParseError)
        ensures
            r == err_at(self.toks(), i as int),
    {
        if i < self.tokens.len() {
            ParseError::UnexpectedToken { position: i }
        } else {
            ParseError::UnexpectedEnd
        }
    }

    /// The token under the cursor, which stays where it is.
    pub fn peak_next_token(&self) -> (r: Option<Token>)
        requires
            self.wf(),
        ensures
            self.pos < self.tokens@.len() ==> r is Some && r->Some_0@ == self.toks()[self.pos as int],
            self.pos >= self.tokens@.len() ==> r is None,
    {
        if self.pos < self.tokens.len() {
            Some(self.tokens[self.pos].duplicate())
        } else {
            None
        }
    }

    /// The token under the cursor; the cursor moves past it.
    pub fn next_token(&mut self) -> (r: Option<Token>)
        requires
            old(self).wf(),
        ensures
            final(self).wf(),
            final(self).tokens@ == old(self).tokens@,
            old(self).pos < old(self).tokens@.len() ==> r is Some && r->Some_0@ == old(self).toks()[old(self).pos as int] && final(self).pos == old(self).pos + 1,
            old(self).pos >= old(self).tokens@.len() ==> r is None && final(self).pos == old(self).pos,
    {
        if self.pos < self.tokens.len() {
            let t = self.tokens[self.pos].duplicate();
            self.pos = self.pos + 1;
            Some(t)
        } else {
            None
        }
    }

    /// The token `times - 1` places after the cursor, which stays where it is.
    pub fn forward(&self, times: usize) -> (r: Option<Token>)
        requires
            self.wf(),
            times >= 1,
        ensures
            self.pos + times - 1 < self.tokens@.len() ==> r is Some && r->Some_0@ == self.toks()[self.pos
                + times - 1],
            self.pos + times - 1 >= self.tokens@.len() ==> r is None,
    {
        let ahead = times - 1;
        if ahead < self.tokens.len() - self.pos {
            Some(self.tokens[self.pos + ahead].duplicate())
        } else {
            None
        }
    }

    fn check(&self, k: Punct) -> (r: bool)
        requires
            self.wf(),
        ensures
            r == at(self.toks(), self.pos as int, k),
    {
        if self.pos >= self.tokens.len() {
            return false;
        }
        let tk = &self.tokens[self.pos];
        match k {
            Punct::Colon => matches!(tk, Token::Colon { .. }),
            Punct::Assign => matches!(tk, Token::Assign { .. }),
            Punct::LParen => matches!(tk, Token::LParen { .. }),
            Punct::RParen => matches!(tk, Token::RParen { .. }),
            Punct::LBrace => matches!(tk, Token::LBrace { .. }),
            Punct::Comma => matches!(tk, Token::Comma { .. }),
            Punct::Arrow => matches!(tk, Token::Arrow { .. }),
        }
    }

    fn eat(&mut self, k: Punct) -> (r: bool)
        requires
            old(self).wf(),
        ensures
            final(self).wf(),
            final(self).tokens@ == old(self).tokens@,
            r == at(old(self).toks(), old(self).pos as int, k),
            final(self).pos == old(self).pos + if r { 1int } else { 0int },
    {
        if self.check(k) {
            self.pos = self.pos + 1;
            true
        } else {
            false
        }
    }

    fn expect_ident(&mut self) -> (r: Option<Vec<char>>)
        requires
            old(self).wf(),
        ensures
            final(self).wf(),
            final(self).tokens@ == old(self).tokens@,
            ident_at(old(self).toks(), old(self).pos as int) ==> r is Some && r->Some_0@ == old(self).toks()[old(self).pos as int]->Identifier_0 && final(self).pos == old(self).pos + 1,
            !ident_at(old(self).toks(), old(self).pos as int) ==> r is None && final(self).pos
                == old(self).pos,
    {
        if self.pos >= self.tokens.len() {
            return None;
        }
        match &self.tokens[self.pos] {
            Token::Identifier { val } => {
                let v = crate::tokens::copy_chars(val);
                self.pos = self.pos + 1;
                Some(v)
            },
            _ => None,
        }
    }

    /// The comparison operator under the cursor, which moves past it.
    pub fn parse_cmp_op(&mut self) -> (r: Result<CmpOperators, ParseError>)
        requires
            old(self).wf(),
        ensures
            final(self).wf(),
            final(self).tokens@ == old(self).tokens@,
            ({
                let t = old(self).toks();
                let p = old(self).pos as int;
                if p < t.len() && cmp_of(t[p]) is Some {
                    r == Ok::<CmpOperators, ParseError>(cmp_of(t[p])->Some_0) && final(self).pos
                        == p + 1
                } else {
                    r == Err::<CmpOperators, ParseError>(err_at(t, p))
                }
            }),
    {
        if self.pos >= self.tokens.len() {
            return Err(ParseError::UnexpectedEnd);
        }
        let op = match &self.tokens[self.pos] {
            Token::Lt { .. } => CmpOperators::LessThen,
            Token::LtOrEq { .. } => CmpOperators::LessThenOrEqual,
            Token::Gt { .. } => CmpOperators::GreaterThen,
            Token::GtOrEq { .. } => CmpOperators::GreaterThenOrEqual,
            Token::Eq { .. } => CmpOperators::Equal,
            Token::NotEq { .. } => CmpOperators::NotEqual,
            _ => {
                return Err(self.error_at(self.pos));
            },
        };
        self.pos = self.pos + 1;
        Ok(op)
    }

    fn parse_primary(&mut self) -> (r: Result<Option<Expression>, ParseError>)
        requires
            old(self).wf(),
            old(self).pos < old(self).tokens@.len(),
        ensures
            final(self).wf(),
            final(self).tokens@ == old(self).tokens@,
            match primary(old(self).toks()[old(self).pos as int], old(self).pos as int) {
                Err(e) => r is Err && r->Err_0 == e,
                Ok(None) => r is Ok && r->Ok_0 is None && final(self).pos == old(self).pos,
                Ok(Some(x)) => r is Ok && r->Ok_0 is Some && r->Ok_0->Some_0@ == x && final(self).pos == old(self).pos + 1,
            },
    {
        let i = self.pos;
        let e = match &self.tokens[i] {
            Token::String { val } => Expression::StringLiteral { val: string_from_chars(val) },
            Token::Identifier { val } => Expression::Identifier { val: string_from_chars(val) },
            Token::Int { val } => match parse_int_text(val) {
                Some(n) => Expression::IntLiteral { val: n },
                None => {
                    return Err(ParseError::InvalidNumber { position: i });
                },
            },
            Token::Float { val } => {
                if float_text_valid(val) {
                    Expression::FloatLiteral { val: string_from_chars(val) }
                } else {
                    return Err(ParseError::InvalidNumber { position: i });
                }
            },
            Token::Char { val } => Expression::CharLiteral { val: *val },
            Token::True => Expression::BooleanLiteral { val: true },
            Token::False => Expression::BooleanLiteral { val: false },
            _ => {
                return Ok(None);
            },
        };
        self.pos = i + 1;
        Ok(Some(e))
    }

    /// The expression under the cursor, absorbing infix operators whose left
    /// binding power is at least `bp`; `None`, with the cursor unmoved, when no
    /// expression starts there.
    pub fn parse_expression(&mut self, bp: u8) -> (r: Result<Option<Expression>, ParseError>)
        requires
            old(self).wf(),
        ensures
            final(self).wf(),
            final(self).tokens@ == old(self).tokens@,
            match parse_expr(old(self).toks(), old(self).pos as int, bp as int) {
                Err(e) => r is Err && r->Err_0 == e,
                Ok(None) => r is Ok && r->Ok_0 is None && final(self).pos == old(self).pos,
                Ok(Some((x, j))) => r is Ok && r->Ok_0 is Some && r->Ok_0->Some_0@ == x
                    && final(self).pos == j && old(self).pos < j,
            },
        decreases old(self).tokens@.len() - old(self).pos, 2int,
    {
        let ghost t = self.toks();
        let start = self.pos;
        if self.pos >= self.tokens.len() {
            return Ok(None);
        }
        let first = match self.parse_primary() {
            Err(e) => {
                return Err(e);
            },
            Ok(None) => {
                return Ok(None);
            },
            Ok(Some(x)) => x,
        };
        let ghost first_v = first@;
        let mut lhs = first;
        loop
            invariant
                self.wf(),
                self.toks() == t,
                self.tokens@ == old(self).tokens@,
                start < self.pos,
                start == old(self).pos,
                t == old(self).toks(),
                start < t.len(),
                primary(t[start as int], start as int) == Ok::<Option<ExprV>, ParseError>(
                    Some(first_v),
                ),
                expr_loop(t, start + 1, first_v, bp as int) == expr_loop(
                    t,
                    self.pos as int,
                    lhs@,
                    bp as int,
                ),
            ensures
                self.wf(),
                self.tokens@ == old(self).tokens@,
                start < self.pos,
                expr_loop(t, start + 1, first_v, bp as int) == Ok::<(ExprV, int), ParseError>(
                    (lhs@, self.pos as int),
                ),
            decreases self.tokens@.len() - self.pos,
        {
            if self.pos >= self.tokens.len() {
                assert(expr_loop(t, self.pos as int, lhs@, bp as int) == Ok::<(ExprV, int), ParseError>((lhs@, self.pos as int)));
                break;
            }
            if self.check(Punct::LParen) {
                self.pos = self.pos + 1;
                match self.parse_call_args() {
                    Err(e) => {
                        return Err(e);
                    },
                    Ok(args) => {
                        let ghost old_lhs = lhs@;
                        lhs = Expression::FunctionCall { name: Box::new(lhs), params: args };
                        assert(lhs@->Call_1 =~= exprs_view(args@));
                        assert(lhs@ == ExprV::Call(Box::new(old_lhs), exprs_view(args@)));
                    },
                }
            } else {
                match infix_binding_power(&self.tokens[self.pos]) {
                    None => {
                        assert(expr_loop(t, self.pos as int, lhs@, bp as int) == Ok::<(ExprV, int), ParseError>((lhs@, self.pos as int)));
                        break;
                    },
                    Some((l, r)) => {
                        if l < bp {
                            assert(expr_loop(t, self.pos as int, lhs@, bp as int) == Ok::<(ExprV, int), ParseError>((lhs@, self.pos as int)));
                            break;
                        }
                        let op_at = self.pos;
                        self.pos = self.pos + 1;
                        match self.parse_expression(r) {
                            Err(e) => {
                                return Err(e);
                            },
                            Ok(None) => {
                                return Err(self.error_at(op_at + 1));
                            },
                            Ok(Some(rhs)) => {
                                lhs = make_infix_expr(lhs, &self.tokens[op_at], rhs);
                            },
                        }
                    },
                }
            }
        }
        Ok(Some(lhs))
    }

    fn parse_call_args(&mut self) -> (r: Result<Vec<Expression>, ParseError>)
        requires
            old(self).wf(),
        ensures
            final(self).wf(),
            final(self).tokens@ == old(self).tokens@,
            match parse_args(old(self).toks(), old(self).pos as int, seq![]) {
                Err(e) => r is Err && r->Err_0 == e,
                Ok((args, j)) => r is Ok && exprs_view(r->Ok_0@) == args && final(self).pos
                    == j && old(self).pos < j,
            },
        decreases old(self).tokens@.len() - old(self).pos, 3int,
    {
        let ghost t = self.toks();
        let start = self.pos;
        let mut args: Vec<Expression> = Vec::new();
        assert(exprs_view(args@) =~= seq![]);
        if self.eat(Punct::RParen) {
            return Ok(args);
        }
        loop
            invariant
                self.wf(),
                self.toks() == t,
                self.tokens@ == old(self).tokens@,
                start <= self.pos,
                start == old(self).pos,
                t == old(self).toks(),
                args@.len() == 0 ==> !at(t, self.pos as int, Punct::RParen),
                parse_args(t, start as int, seq![]) == parse_args(
                    t,
                    self.pos as int,
                    exprs_view(args@),
                ),
            decreases self.tokens@.len() - self.pos,
        {
            let here = self.pos;
            match self.parse_expression(0) {
                Err(e) => {
                    return Err(e);
                },
                Ok(None) => {
                    return Err(self.error_at(here));
                },
                Ok(Some(e)) => {
                    let ghost before = exprs_view(args@);
                    args.push(e);
                    assert(exprs_view(args@) =~= before.push(e@));
                    if self.eat(Punct::Comma) {
                    } else if self.eat(Punct::RParen) {
                        return Ok(args);
                    } else {
                        return Err(self.error_at(self.pos));
                    }
                },
            }
        }
    }

    fn parse_param_list(&mut self) -> (r: Result<Vec<FuncParam>, ParseError>)
        requires
            old(self).wf(),
        ensures
            final(self).wf(),
            final(self).tokens@ == old(self).tokens@,
            match parse_params(old(self).toks(), old(self).pos as int, seq![]) {
                Err(e) => r is Err && r->Err_0 == e,
                Ok((ps, j)) => r is Ok && params_view(r->Ok_0@) == ps && final(self).pos == j
                    && old(self).pos < j,
            },
    {
        let ghost t = self.toks();
        let start = self.pos;
        let mut params: Vec<FuncParam> = Vec::new();
        assert(params_view(params@) =~= seq![]);
        if self.eat(Punct::RParen) {
            return Ok(params);
        }
        loop
            invariant
                self.wf(),
                self.toks() == t,
                self.tokens@ == old(self).tokens@,
                start <= self.pos,
                start == old(self).pos,
                t == old(self).toks(),
                params@.len() == 0 ==> !at(t, self.pos as int, Punct::RParen),
                parse_params(t, start as int, seq![]) == parse_params(
                    t,
                    self.pos as int,
                    params_view(params@),
                ),
            decreases self.tokens@.len() - self.pos,
        {
            let name = match self.expect_ident() {
                Some(v) => v,
                None => {
                    return Err(self.error_at(self.pos));
                },
            };
            if !self.eat(Punct::Colon) {
                return Err(self.error_at(self.pos));
            }
            let ty = match self.expect_ident() {
                Some(v) => v,
                None => {
                    return Err(self.error_at(self.pos));
                },
            };
            let p = FuncParam { name: string_from_chars(&name), ty: Type::from_name(&ty) };
            let ghost before = params_view(params@);
            params.push(p);
            assert(params_view(params@) =~= before.push(p@));
            if self.eat(Punct::Comma) {
            } else if self.eat(Punct::RParen) {
                return Ok(params);
            } else {
                return Err(self.error_at(self.pos));
            }
        }
    }

    /// The statement under the cursor; `None`, with the cursor unmoved, when
    /// no statement starts there.
    pub fn parse_statement(&mut self) -> (r: Result<Option<Statement>, ParseError>)
        requires
            old(self).wf(),
        ensures
            final(self).wf(),
            final(self).tokens@ == old(self).tokens@,
            match parse_stmt(old(self).toks(), old(self).pos as int) {
                Err(e) => r is Err && r->Err_0 == e,
                Ok(None) => r is Ok && r->Ok_0 is None && final(self).pos == old(self).pos,
                Ok(Some((x, j))) => r is Ok && r->Ok_0 is Some && r->Ok_0->Some_0@ == x
                    && final(self).pos == j && old(self).pos < j,
            },
        decreases old(self).tokens@.len() - old(self).pos, 4int,
    {
        let ghost t = self.toks();
        let start = self.pos;
        if self.pos >= self.tokens.len() {
            return Ok(None);
        }
        if matches!(self.tokens[self.pos], Token::Let) {
            self.pos = self.pos + 1;
            let name = match self.expect_ident() {
                Some(v) => v,
                None => {
                    return Err(self.error_at(self.pos));
                },
            };
            if !self.eat(Punct::Colon) {
                return Err(self.error_at(self.pos));
            }
            let ty = match self.expect_ident() {
                Some(v) => v,
                None => {
                    return Err(self.error_at(self.pos));
                },
            };
            if !self.eat(Punct::Assign) {
                return Err(self.error_at(self.pos));
            }
            let here = self.pos;
            match self.parse_expression(0) {
                Err(e) => Err(e),
                Ok(None) => Err(self.error_at(here)),
                Ok(Some(value)) => Ok(
                    Some(
                        Statement::VariableDeclaration {
                            name: string_from_chars(&name),
                            value,
                            ty: Type::from_name(&ty),
                        },
                    ),
                ),
            }
        } else if matches!(self.tokens[self.pos], Token::Function) {
            self.pos = self.pos + 1;
            let name = match self.expect_ident() {
                Some(v) => v,
                None => {
                    return Err(self.error_at(self.pos));
                },
            };
            if !self.eat(Punct::LParen) {
                return Err(self.error_at(self.pos));
            }
            let params = match self.parse_param_list() {
                Err(e) => {
                    return Err(e);
                },
                Ok(ps) => ps,
            };
            let has_ret = self.check(Punct::Colon) || self.check(Punct::Arrow);
            let return_type = if has_ret {
                self.pos = self.pos + 1;
                match self.expect_ident() {
                    Some(v) => Type::from_name(&v),
                    None => {
                        return Err(self.error_at(self.pos));
                    },
                }
            } else {
                Type::Void
            };
            match self.parse_block_inner(&Token::End) {
                Err(e) => Err(e),
                Ok(body) => {
                    let ghost bv = stmts_view(body@);
                    let st = Statement::FunctionDeclaration {
                        name: string_from_chars(&name),
                        params,
                        body,
                        return_type,
                    };
                    assert(st@->Func_2 =~= bv);
                    Ok(Some(st))
                },
            }
        } else if matches!(self.tokens[self.pos], Token::If) {
            self.pos = self.pos + 1;
            let expr1 = match self.parse_expression(0) {
                Err(e) => {
                    return Err(e);
                },
                Ok(None) => {
                    return Err(self.error_at(start + 1));
                },
                Ok(Some(x)) => x,
            };
            let cmp_op = match self.parse_cmp_op() {
                Err(e) => {
                    return Err(e);
                },
                Ok(op) => op,
            };
            let here = self.pos;
            let expr2 = match self.parse_expression(0) {
                Err(e) => {
                    return Err(e);
                },
                Ok(None) => {
                    return Err(self.error_at(here));
                },
                Ok(Some(x)) => x,
            };
            if !self.eat(Punct::LBrace) {
                return Err(self.error_at(self.pos));
            }
            match self.parse_block_inner(&Token::RBrace { val: '}' }) {
                Err(e) => Err(e),
                Ok(body) => {
                    let ghost bv = stmts_view(body@);
                    let st = Statement::IfStatement { expr1, cmp_op, expr2, body };
                    assert(st@->If_3 =~= bv);
                    Ok(Some(st))
                },
            }
        } else if matches!(self.tokens[self.pos], Token::Return) {
            self.pos = self.pos + 1;
            match self.parse_expression(0) {
                Err(e) => Err(e),
                Ok(None) => Err(self.error_at(start + 1)),
                Ok(Some(value)) => Ok(Some(Statement::Return { value })),
            }
        } else {
            match self.parse_expression(0) {
                Err(e) => Err(e),
                Ok(None) => Ok(None),
                Ok(Some(expr)) => Ok(Some(Statement::ExprStatement { expr })),
            }
        }
    }

    fn parse_block_inner(&mut self, delimiter: &Token) -> (r: Result<Vec<Statement>, ParseError>)
        requires
            old(self).wf(),
        ensures
            final(self).wf(),
            final(self).tokens@ == old(self).tokens@,
            match parse_block(old(self).toks(), old(self).pos as int, delimiter@, seq![]) {
                Err(e) => r is Err && r->Err_0 == e,
                Ok((b, j)) => r is Ok && stmts_view(r->Ok_0@) == b && final(self).pos == j
                    && old(self).pos < j,
            },
        decreases old(self).tokens@.len() - old(self).pos, 5int,
    {
        let ghost t = self.toks();
        let start = self.pos;
        let mut body: Vec<Statement> = Vec::new();
        assert(stmts_view(body@) =~= seq![]);
        loop
            invariant
                self.wf(),
                self.toks() == t,
                self.tokens@ == old(self).tokens@,
                start <= self.pos,
                start == old(self).pos,
                t == old(self).toks(),
                parse_block(t, start as int, delimiter@, seq![]) == parse_block(
                    t,
                    self.pos as int,
                    delimiter@,
                    stmts_view(body@),
                ),
            decreases self.tokens@.len() - self.pos,
        {
            if self.pos >= self.tokens.len() {
                return Err(ParseError::UnexpectedEnd);
            }
            if self.tokens[self.pos].same_variant(delimiter) {
                self.pos = self.pos + 1;
                return Ok(body);
            }
            let here = self.pos;
            match self.parse_statement() {
                Err(e) => {
                    return Err(e);
                },
                Ok(None) => {
                    return Err(self.error_at(here));
                },
                Ok(Some(st)) => {
                    let ghost before = stmts_view(body@);
                    body.push(st);
                    assert(stmts_view(body@) =~= before.push(st@));
                },
            }
        }
    }

    /// The statements of a block under the cursor, up to and past the first
    /// token of the same variant as `delimiter` where a statement could start
    /// (`end` closes a function body, `}` an `if`).
    pub fn parse_block(&mut self, delimiter: Token) -> (r: Result<Vec<Statement>, ParseError>)
        requires
            old(self).wf(),
        ensures
            final(self).wf(),
            final(self).tokens@ == old(self).tokens@,
            match parse_block(old(self).toks(), old(self).pos as int, delimiter@, seq![]) {
                Err(e) => r is Err && r->Err_0 == e,
                Ok((b, j)) => r is Ok && stmts_view(r->Ok_0@) == b && final(self).pos == j,
            },
    {
        self.parse_block_inner(&delimiter)
    }

    /// The statements from the cursor on; the program ends where no statement
    /// starts.
    pub fn parse(&mut self) -> (r: Result<Vec<Statement>, ParseError>)
        requires
            old(self).wf(),
        ensures
            final(self).wf(),
            final(self).tokens@ == old(self).tokens@,
            match parse_program(old(self).toks(), old(self).pos as int, seq![]) {
                Err(e) => r is Err && r->Err_0 == e,
                Ok(b) => r is Ok && stmts_view(r->Ok_0@) == b,
            },
    {
        let ghost t = self.toks();
        let start = self.pos;
        let mut ast: Vec<Statement> = Vec::new();
        assert(stmts_view(ast@) =~= seq![]);
        loop
            invariant
                self.wf(),
                self.toks() == t,
                self.tokens@ == old(self).tokens@,
                start <= self.pos,
                start == old(self).pos,
                t == old(self).toks(),
                parse_program(t, start as int, seq![]) == parse_program(
                    t,
                    self.pos as int,
                    stmts_view(ast@),
                ),
            decreases self.tokens@.len() - self.pos,
        {
            match self.parse_statement() {
                Err(e) => {
                    return Err(e);
                },
                Ok(None) => {
                    return Ok(ast);
                },
                Ok(Some(st)) => {
                    let ghost before = stmts_view(ast@);
                    ast.push(st);
                    assert(stmts_view(ast@) =~= before.push(st@));
                },
            }
        }
    }
}

/// The program that a token sequence spells.
pub fn parse_tokens(tokens: Vec<Token>) -> (r: Result<Vec<Statement>, ParseError>)
    ensures
        match parse_spec(tokens_view(tokens@)) {
            Err(e) => r is Err && r->Err_0 == e,
            Ok(b) => r is Ok && stmts_view(r->Ok_0@) == b,
        },
{
    let mut parser = Parser::new(tokens);
    parser.parse()
}

} // verus!
