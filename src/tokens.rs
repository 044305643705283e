//! Tokens of the language and its keywords.
use vstd::prelude::*;

verus! {

/// One lexical unit. Literal tokens carry their source characters.
#[derive(PartialEq, Debug, Clone)]
pub enum Token {
    Identifier { val: Vec<char> },
    Plus { val: char },
    Minus { val: char },
    Multiplication { val: char },
    Division { val: char },
    Assign { val: char },
    Bang { val: char },
    Lt { val: char },
    Gt { val: char },
    Semicolon { val: char },
    Colon { val: char },
    LParen { val: char },
    RParen { val: char },
    Comma { val: char },
    LBrace { val: char },
    RBrace { val: char },
    Int { val: Vec<char> },
    Float { val: Vec<char> },
    String { val: Vec<char> },
    Arrow { val: String },
    // keywords
    Function,
    Let,
    True,
    False,
    If,
    Else,
    Return,
    End,
    Module,
    Public,
    Unkown,
    Whitespace,
    EOF,
}

/// A token as a mathematical value: the characters of a literal as a sequence.
pub enum TokenView {
    Identifier(Seq<char>),
    Plus(char),
    Minus(char),
    Multiplication(char),
    Division(char),
    Assign(char),
    Bang(char),
    Lt(char),
    Gt(char),
    Semicolon(char),
    Colon(char),
    LParen(char),
    RParen(char),
    Comma(char),
    LBrace(char),
    RBrace(char),
    Int(Seq<char>),
    Float(Seq<char>),
    Str(Seq<char>),
    Arrow(Seq<char>),
    Function,
    Let,
    True,
    False,
    If,
    Else,
    Return,
    End,
    Module,
    Public,
    Unkown,
    Whitespace,
    EOF,
}

impl View for Token {
    type V = TokenView;

    open spec fn view(&self) -> TokenView {
        match self {
            Token::Identifier { val } => TokenView::Identifier(val@),
            Token::Plus { val } => TokenView::Plus(*val),
            Token::Minus { val } => TokenView::Minus(*val),
            Token::Multiplication { val } => TokenView::Multiplication(*val),
            Token::Division { val } => TokenView::Division(*val),
            Token::Assign { val } => TokenView::Assign(*val),
            Token::Bang { val } => TokenView::Bang(*val),
            Token::Lt { val } => TokenView::Lt(*val),
            Token::Gt { val } => TokenView::Gt(*val),
            Token::Semicolon { val } => TokenView::Semicolon(*val),
            Token::Colon { val } => TokenView::Colon(*val),
            Token::LParen { val } => TokenView::LParen(*val),
            Token::RParen { val } => TokenView::RParen(*val),
            Token::Comma { val } => TokenView::Comma(*val),
            Token::LBrace { val } => TokenView::LBrace(*val),
            Token::RBrace { val } => TokenView::RBrace(*val),
            Token::Int { val } => TokenView::Int(val@),
            Token::Float { val } => TokenView::Float(val@),
            Token::String { val } => TokenView::Str(val@),
            Token::Arrow { val } => TokenView::Arrow(val@),
            Token::Function => TokenView::Function,
            Token::Let => TokenView::Let,
            Token::True => TokenView::True,
            Token::False => TokenView::False,
            Token::If => TokenView::If,
            Token::Else => TokenView::Else,
            Token::Return => TokenView::Return,
            Token::End => TokenView::End,
            Token::Module => TokenView::Module,
            Token::Public => TokenView::Public,
            Token::Unkown => TokenView::Unkown,
            Token::Whitespace => TokenView::Whitespace,
            Token::EOF => TokenView::EOF,
        }
    }
}

/// The keyword spelled by `w`, if any.
pub open spec fn keyword_of(w: Seq<char>) -> Option<TokenView> {
    if w == seq!['f', 'n'] {
        Some(TokenView::Function)
    } else if w == seq!['l', 'e', 't'] {
        Some(TokenView::Let)
    } else if w == seq!['t', 'r', 'u', 'e'] {
        Some(TokenView::True)
    } else if w == seq!['f', 'a', 'l', 's', 'e'] {
        Some(TokenView::False)
    } else if w == seq!['i', 'f'] {
        Some(TokenView::If)
    } else if w == seq!['e', 'l', 's', 'e'] {
        Some(TokenView::Else)
    } else if w == seq!['e', 'n', 'd'] {
        Some(TokenView::End)
    } else if w == seq!['r', 'e', 't', 'u', 'r', 'n'] {
        Some(TokenView::Return)
    } else if w == seq!['m', 'o', 'd', 'u', 'l', 'e'] {
        Some(TokenView::Module)
    } else if w == seq!['p', 'u', 'b'] {
        Some(TokenView::Public)
    } else {
        None
    }
}

/// Whether the characters of `v` are exactly `w`.
pub fn chars_equal(v: &Vec<char>, w: &[char]) -> (r: bool)
    ensures
        r == (v@ == w@),
{
    if v.len() != w.len() {
        return false;
    }
    let mut i: usize = 0;
    while i < v.len()
        invariant
            v@.len() == w@.len(),
            i <= v@.len(),
            v@.subrange(0, i as int) == w@.subrange(0, i as int),
        decreases v@.len() - i,
    {
        if v[i] != w[i] {
            assert(v@[i as int] != w@[i as int]);
            return false;
        }
        assert(v@.subrange(0, i + 1) == v@.subrange(0, i as int).push(v@[i as int]));
        assert(w@.subrange(0, i + 1) == w@.subrange(0, i as int).push(w@[i as int]));
        i = i + 1;
    }
    assert(v@.subrange(0, i as int) == v@);
    assert(w@.subrange(0, i as int) == w@);
    true
}

/// The keyword token spelled by `ident`, or an error when it spells none.
pub fn get_keyword_token(ident: &Vec<char>) -> (r: Result<Token, String>)
    ensures
        match keyword_of(ident@) {
            Some(k) => r matches Ok(t) && t@ == k,
            None => r is Err,
        },
{
    if chars_equal(ident, &['f', 'n']) {
        Ok(Token::Function)
    } else if chars_equal(ident, &['l', 'e', 't']) {
        Ok(Token::Let)
    } else if chars_equal(ident, &['t', 'r', 'u', 'e']) {
        Ok(Token::True)
    } else if chars_equal(ident, &['f', 'a', 'l', 's', 'e']) {
        Ok(Token::False)
    } else if chars_equal(ident, &['i', 'f']) {
        Ok(Token::If)
    } else if chars_equal(ident, &['e', 'l', 's', 'e']) {
        Ok(Token::Else)
    } else if chars_equal(ident, &['e', 'n', 'd']) {
        Ok(Token::End)
    } else if chars_equal(ident, &['r', 'e', 't', 'u', 'r', 'n']) {
        Ok(Token::Return)
    } else if chars_equal(ident, &['m', 'o', 'd', 'u', 'l', 'e']) {
        Ok(Token::Module)
    } else if chars_equal(ident, &['p', 'u', 'b']) {
        Ok(Token::Public)
    } else {
        Err("Not a keyword".to_owned())
    }
}

} // verus!
