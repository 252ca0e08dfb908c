use vstd::prelude::*;

use crate::ast::same_chars;

verus! {


/// A lexical unit of the language.
#[derive(PartialEq, Debug, Clone)]
pub enum Token {
    Identifier { val: Vec<char> },
    Plus { val: char },
    Minus { val: char },
    Multiplication { val: char },
    Division { val: char },
    Assign { val: char },
    Bang { val: char },
    Semicolon { val: char },
    Colon { val: char },
    LParen { val: char },
    RParen { val: char },
    Comma { val: char },
    LBrace { val: char },
    RBrace { val: char },
    Lt { val: char },
    Gt { val: char },
    LtOrEq { val: [char; 2] },
    GtOrEq { val: [char; 2] },
    Eq { val: [char; 2] },
    NotEq { val: [char; 2] },
    Int { val: Vec<char> },
    Float { val: Vec<char> },
    String { val: Vec<char> },
    Arrow { val: String },
    Char { val: char },
    Function,
    Let,
    True,
    False,
    If,
    Else,
    Return,
    End,
    Module,
    Unkown,
    Public,
    Whitespace,
    EOF,
}

/// The mathematical model of a token: the same variants, with the text of
/// each payload as a sequence of characters.
pub enum TokenV {
    Identifier(Seq<char>),
    Plus(char),
    Minus(char),
    Multiplication(char),
    Division(char),
    Assign(char),
    Bang(char),
    Semicolon(char),
    Colon(char),
    LParen(char),
    RParen(char),
    Comma(char),
    LBrace(char),
    RBrace(char),
    Lt(char),
    Gt(char),
    LtOrEq(Seq<char>),
    GtOrEq(Seq<char>),
    Eq(Seq<char>),
    NotEq(Seq<char>),
    Int(Seq<char>),
    Float(Seq<char>),
    Str(Seq<char>),
    Arrow(Seq<char>),
    Char(char),
    Function,
    Let,
    True,
    False,
    If,
    Else,
    Return,
    End,
    Module,
    Unkown,
    Public,
    Whitespace,
    EOF,
}

impl View for Token {
    type V = TokenV;

    open spec fn view(&self) -> TokenV {
        match self {
            Token::Identifier { val } => TokenV::Identifier(val@),
            Token::Plus { val } => TokenV::Plus(*val),
            Token::Minus { val } => TokenV::Minus(*val),
            Token::Multiplication { val } => TokenV::Multiplication(*val),
            Token::Division { val } => TokenV::Division(*val),
            Token::Assign { val } => TokenV::Assign(*val),
            Token::Bang { val } => TokenV::Bang(*val),
            Token::Semicolon { val } => TokenV::Semicolon(*val),
            Token::Colon { val } => TokenV::Colon(*val),
            Token::LParen { val } => TokenV::LParen(*val),
            Token::RParen { val } => TokenV::RParen(*val),
            Token::Comma { val } => TokenV::Comma(*val),
            Token::LBrace { val } => TokenV::LBrace(*val),
            Token::RBrace { val } => TokenV::RBrace(*val),
            Token::Lt { val } => TokenV::Lt(*val),
            Token::Gt { val } => TokenV::Gt(*val),
            Token::LtOrEq { val } => TokenV::LtOrEq(val@),
            Token::GtOrEq { val } => TokenV::GtOrEq(val@),
            Token::Eq { val } => TokenV::Eq(val@),
            Token::NotEq { val } => TokenV::NotEq(val@),
            Token::Int { val } => TokenV::Int(val@),
            Token::Float { val } => TokenV::Float(val@),
            Token::String { val } => TokenV::Str(val@),
            Token::Arrow { val } => TokenV::Arrow(val@),
            Token::Char { val } => TokenV::Char(*val),
            Token::Function => TokenV::Function,
            Token::Let => TokenV::Let,
            Token::True => TokenV::True,
            Token::False => TokenV::False,
            Token::If => TokenV::If,
            Token::Else => TokenV::Else,
            Token::Return => TokenV::Return,
            Token::End => TokenV::End,
            Token::Module => TokenV::Module,
            Token::Unkown => TokenV::Unkown,
            Token::Public => TokenV::Public,
            Token::Whitespace => TokenV::Whitespace,
            Token::EOF => TokenV::EOF,
        }
    }
}

/// The models of a sequence of tokens.
pub open spec fn tokens_view(ts: Seq<Token>) -> Seq<TokenV> {
    Seq::new(ts.len(), |i: int| ts[i]@)
}

/// The keyword that a word spells, if any.
pub open spec fn keyword(w: Seq<char>) -> Option<TokenV> {
    if w == seq!['f', 'u', 'n', 'c'] {
        Some(TokenV::Function)
    } else if w == seq!['l', 'e', 't'] {
        Some(TokenV::Let)
    } else if w == seq!['t', 'r', 'u', 'e'] {
        Some(TokenV::True)
    } else if w == seq!['f', 'a', 'l', 's', 'e'] {
        Some(TokenV::False)
    } else if w == seq!['i', 'f'] {
        Some(TokenV::If)
    } else if w == seq!['e', 'l', 's', 'e'] {
        Some(TokenV::Else)
    } else if w == seq!['e', 'n', 'd'] {
        Some(TokenV::End)
    } else if w == seq!['r', 'e', 't', 'u', 'r', 'n'] {
        Some(TokenV::Return)
    } else if w == seq!['m', 'o', 'd', 'u', 'l', 'e'] {
        Some(TokenV::Module)
    } else if w == seq!['p', 'u', 'b', 'l', 'i', 'c'] {
        Some(TokenV::Public)
    } else {
        None
    }
}

/// Whether two tokens are of the same variant, whatever their payloads.
pub open spec fn same_variant(a: TokenV, b: TokenV) -> bool {
    match (a, b) {
        (TokenV::Identifier(_), TokenV::Identifier(_)) => true,
        (TokenV::Plus(_), TokenV::Plus(_)) => true,
        (TokenV::Minus(_), TokenV::Minus(_)) => true,
        (TokenV::Multiplication(_), TokenV::Multiplication(_)) => true,
        (TokenV::Division(_), TokenV::Division(_)) => true,
        (TokenV::Assign(_), TokenV::Assign(_)) => true,
        (TokenV::Bang(_), TokenV::Bang(_)) => true,
        (TokenV::Semicolon(_), TokenV::Semicolon(_)) => true,
        (TokenV::Colon(_), TokenV::Colon(_)) => true,
        (TokenV::LParen(_), TokenV::LParen(_)) => true,
        (TokenV::RParen(_), TokenV::RParen(_)) => true,
        (TokenV::Comma(_), TokenV::Comma(_)) => true,
        (TokenV::LBrace(_), TokenV::LBrace(_)) => true,
        (TokenV::RBrace(_), TokenV::RBrace(_)) => true,
        (TokenV::Lt(_), TokenV::Lt(_)) => true,
        (TokenV::Gt(_), TokenV::Gt(_)) => true,
        (TokenV::LtOrEq(_), TokenV::LtOrEq(_)) => true,
        (TokenV::GtOrEq(_), TokenV::GtOrEq(_)) => true,
        (TokenV::Eq(_), TokenV::Eq(_)) => true,
        (TokenV::NotEq(_), TokenV::NotEq(_)) => true,
        (TokenV::Int(_), TokenV::Int(_)) => true,
        (TokenV::Float(_), TokenV::Float(_)) => true,
        (TokenV::Str(_), TokenV::Str(_)) => true,
        (TokenV::Arrow(_), TokenV::Arrow(_)) => true,
        (TokenV::Char(_), TokenV::Char(_)) => true,
        (TokenV::Function, TokenV::Function) => true,
        (TokenV::Let, TokenV::Let) => true,
        (TokenV::True, TokenV::True) => true,
        (TokenV::False, TokenV::False) => true,
        (TokenV::If, TokenV::If) => true,
        (TokenV::Else, TokenV::Else) => true,
        (TokenV::Return, TokenV::Return) => true,
        (TokenV::End, TokenV::End) => true,
        (TokenV::Module, TokenV::Module) => true,
        (TokenV::Unkown, TokenV::Unkown) => true,
        (TokenV::Public, TokenV::Public) => true,
        (TokenV::Whitespace, TokenV::Whitespace) => true,
        (TokenV::EOF, TokenV::EOF) => true,
        _ => false,
    }
}

/// A copy of a character vector.
pub fn copy_chars(v: &Vec<char>) -> (r: Vec<char>)
    ensures
        r@ == v@,
{
    let mut out: Vec<char> = Vec::new();
    let mut i: usize = 0;
    while i < v.len()
        invariant
            0 <= i <= v@.len(),
            out@ == v@.subrange(0, i as int),
        decreases v@.len() - i,
    {
        out.push(v[i]);
        i = i + 1;
        assert(out@ =~= v@.subrange(0, i as int));
    }
    assert(v@ =~= v@.subrange(0, i as int));
    out
}

impl Token {
    /// The keyword token that `ident` spells, or an error when it is no keyword.
    pub fn get_keyword_token(ident: &Vec<char>) -> (r: Result<Token, String>)
        ensures
            match keyword(ident@) {
                Some(k) => r is Ok && r->Ok_0@ == k,
                None => r is Err,
            },
    {
        if same_chars(ident, &['f', 'u', 'n', 'c']) {
            Ok(Token::Function)
        } else if same_chars(ident, &['l', 'e', 't']) {
            Ok(Token::Let)
        } else if same_chars(ident, &['t', 'r', 'u', 'e']) {
            Ok(Token::True)
        } else if same_chars(ident, &['f', 'a', 'l', 's', 'e']) {
            Ok(Token::False)
        } else if same_chars(ident, &['i', 'f']) {
            Ok(Token::If)
        } else if same_chars(ident, &['e', 'l', 's', 'e']) {
            Ok(Token::Else)
        } else if same_chars(ident, &['e', 'n', 'd']) {
            Ok(Token::End)
        } else if same_chars(ident, &['r', 'e', 't', 'u', 'r', 'n']) {
            Ok(Token::Return)
        } else if same_chars(ident, &['m', 'o', 'd', 'u', 'l', 'e']) {
            Ok(Token::Module)
        } else if same_chars(ident, &['p', 'u', 'b', 'l', 'i', 'c']) {
            Ok(Token::Public)
        } else {
            Err(String::from_str("Not a keyword"))
        }
    }

    /// Whether two tokens are of the same variant, whatever their payloads.
    pub fn same_variant(&self, other: &Token) -> (r: bool)
        ensures
            r == same_variant(self@, other@),
    {
        match (self, other) {
            (Token::Identifier { .. }, Token::Identifier { .. }) => true,
            (Token::Plus { .. }, Token::Plus { .. }) => true,
            (Token::Minus { .. }, Token::Minus { .. }) => true,
            (Token::Multiplication { .. }, Token::Multiplication { .. }) => true,
            (Token::Division { .. }, Token::Division { .. }) => true,
            (Token::Assign { .. }, Token::Assign { .. }) => true,
            (Token::Bang { .. }, Token::Bang { .. }) => true,
            (Token::Semicolon { .. }, Token::Semicolon { .. }) => true,
            (Token::Colon { .. }, Token::Colon { .. }) => true,
            (Token::LParen { .. }, Token::LParen { .. }) => true,
            (Token::RParen { .. }, Token::RParen { .. }) => true,
            (Token::Comma { .. }, Token::Comma { .. }) => true,
            (Token::LBrace { .. }, Token::LBrace { .. }) => true,
            (Token::RBrace { .. }, Token::RBrace { .. }) => true,
            (Token::Lt { .. }, Token::Lt { .. }) => true,
            (Token::Gt { .. }, Token::Gt { .. }) => true,
            (Token::LtOrEq { .. }, Token::LtOrEq { .. }) => true,
            (Token::GtOrEq { .. }, Token::GtOrEq { .. }) => true,
            (Token::Eq { .. }, Token::Eq { .. }) => true,
            (Token::NotEq { .. }, Token::NotEq { .. }) => true,
            (Token::Int { .. }, Token::Int { .. }) => true,
            (Token::Float { .. }, Token::Float { .. }) => true,
            (Token::String { .. }, Token::String { .. }) => true,
            (Token::Arrow { .. }, Token::Arrow { .. }) => true,
            (Token::Char { .. }, Token::Char { .. }) => true,
            (Token::Function, Token::Function) => true,
            (Token::Let, Token::Let) => true,
            (Token::True, Token::True) => true,
            (Token::False, Token::False) => true,
            (Token::If, Token::If) => true,
            (Token::Else, Token::Else) => true,
            (Token::Return, Token::Return) => true,
            (Token::End, Token::End) => true,
            (Token::Module, Token::Module) => true,
            (Token::Unkown, Token::Unkown) => true,
            (Token::Public, Token::Public) => true,
            (Token::Whitespace, Token::Whitespace) => true,
            (Token::EOF, Token::EOF) => true,
            _ => false,
        }
    }

    /// A copy of the token.
    pub fn duplicate(&self) -> (r: Token)
        ensures
            r@ == self@,
    {
        match self {
            Token::Identifier { val } => Token::Identifier { val: copy_chars(val) },
            Token::Int { val } => Token::Int { val: copy_chars(val) },
            Token::Float { val } => Token::Float { val: copy_chars(val) },
            Token::String { val } => Token::String { val: copy_chars(val) },
            Token::Arrow { val } => Token::Arrow { val: val.clone() },
            Token::Plus { val } => Token::Plus { val: *val },
            Token::Minus { val } => Token::Minus { val: *val },
            Token::Multiplication { val } => Token::Multiplication { val: *val },
            Token::Division { val } => Token::Division { val: *val },
            Token::Assign { val } => Token::Assign { val: *val },
            Token::Bang { val } => Token::Bang { val: *val },
            Token::Semicolon { val } => Token::Semicolon { val: *val },
            Token::Colon { val } => Token::Colon { val: *val },
            Token::LParen { val } => Token::LParen { val: *val },
            Token::RParen { val } => Token::RParen { val: *val },
            Token::Comma { val } => Token::Comma { val: *val },
            Token::LBrace { val } => Token::LBrace { val: *val },
            Token::RBrace { val } => Token::RBrace { val: *val },
            Token::Lt { val } => Token::Lt { val: *val },
            Token::Gt { val } => Token::Gt { val: *val },
            Token::LtOrEq { val } => Token::LtOrEq { val: *val },
            Token::GtOrEq { val } => Token::GtOrEq { val: *val },
            Token::Eq { val } => Token::Eq { val: *val },
            Token::NotEq { val } => Token::NotEq { val: *val },
            Token::Char { val } => Token::Char { val: *val },
            Token::Function => Token::Function,
            Token::Let => Token::Let,
            Token::True => Token::True,
            Token::False => Token::False,
            Token::If => Token::If,
            Token::Else => Token::Else,
            Token::Return => Token::Return,
            Token::End => Token::End,
            Token::Module => Token::Module,
            Token::Unkown => Token::Unkown,
            Token::Public => Token::Public,
            Token::Whitespace => Token::Whitespace,
            Token::EOF => Token::EOF,
        }
    }
}

} // verus!
