//! The lexer: a cursor over the source characters that yields one token per call.
use vstd::prelude::*;

use crate::chars::{
    is_alphabetic, is_alphanumeric, is_digit, is_letter, is_numeric, is_space, is_whitespace,
};
use crate::tokens::{get_keyword_token, keyword_of, Token, TokenView};
use crate::types::type_text_char;

verus! {

/// Where the lexer stands: the index of the current character, the index of
/// the next one to read, and the current character itself.
#[derive(Clone, Copy, PartialEq, Eq, Debug, Structural)]
pub struct Cursor {
    pub position: usize,
    pub read_position: usize,
    pub ch: char,
}

/// The lexer: the whole source and a cursor over it.
#[derive(Debug, Clone)]
pub struct Lexer {
    pub input: Vec<char>,
    pub cursor: Cursor,
}

/// The character at index `i`, or the end-of-input marker `'\0'` past the end.
pub open spec fn char_at(input: Seq<char>, i: int) -> char {
    if 0 <= i < input.len() {
        input[i]
    } else {
        '\0'
    }
}

/// The cursor that stands on index `i`.
pub open spec fn cursor_at(input: Seq<char>, i: int) -> Cursor {
    Cursor { position: i as usize, read_position: (i + 1) as usize, ch: char_at(input, i) }
}

/// The cursor of a fresh lexer: nothing read yet, and a blank as the current
/// character.
pub open spec fn start_cursor() -> Cursor {
    Cursor { position: 0, read_position: 0, ch: ' ' }
}

/// A cursor that can stand over `input`: either fresh, or on an index up to
/// the end of input, with the character there.
pub open spec fn cursor_wf(input: Seq<char>, c: Cursor) -> bool {
    &&& input.len() < usize::MAX
    &&& (c == start_cursor() || (c.position <= input.len() && c == cursor_at(input, c.position as int)))
}

/// One step forward; at the end of input the cursor stays where it is.
pub open spec fn advance(input: Seq<char>, c: Cursor) -> Cursor {
    if c.read_position <= input.len() {
        cursor_at(input, c.read_position as int)
    } else {
        c
    }
}

/// Past at most one whitespace character.
pub open spec fn skip_ws(input: Seq<char>, c: Cursor) -> Cursor {
    if is_space(c.ch) {
        advance(input, c)
    } else {
        c
    }
}

/// The end of the run of alphanumeric characters that starts at `i`.
pub open spec fn word_end(input: Seq<char>, i: int) -> int
    decreases input.len() - i,
{
    if 0 <= i < input.len() && (is_letter(input[i]) || is_digit(input[i])) {
        word_end(input, i + 1)
    } else {
        i
    }
}

/// The end of the run of numeric characters and dots that starts at `i`.
pub open spec fn number_end(input: Seq<char>, i: int) -> int
    decreases input.len() - i,
{
    if 0 <= i < input.len() && (is_digit(input[i]) || input[i] == '.') {
        number_end(input, i + 1)
    } else {
        i
    }
}

/// The body of a string literal whose first character is at `i`: the
/// characters with each backslash escape reduced to the escaped character,
/// the index of the closing quote (the end of input when there is none), and
/// whether the literal is closed.
pub open spec fn string_scan(input: Seq<char>, i: int) -> (Seq<char>, int, bool)
    decreases input.len() - i,
{
    if i < 0 || i >= input.len() {
        (seq![], input.len() as int, false)
    } else if input[i] == '"' {
        (seq![], i, true)
    } else if input[i] == '\\' {
        if i + 1 < input.len() {
            let r = string_scan(input, i + 2);
            (seq![input[i + 1]] + r.0, r.1, r.2)
        } else {
            (seq![], input.len() as int, false)
        }
    } else {
        let r = string_scan(input, i + 1);
        (seq![input[i]] + r.0, r.1, r.2)
    }
}

/// The token of a character that stands for itself.
pub open spec fn punct_token(ch: char) -> Option<TokenView> {
    if ch == '=' {
        Some(TokenView::Assign(ch))
    } else if ch == '+' {
        Some(TokenView::Plus(ch))
    } else if ch == '!' {
        Some(TokenView::Bang(ch))
    } else if ch == '/' {
        Some(TokenView::Division(ch))
    } else if ch == '*' {
        Some(TokenView::Multiplication(ch))
    } else if ch == '<' {
        Some(TokenView::Lt(ch))
    } else if ch == '>' {
        Some(TokenView::Gt(ch))
    } else if ch == ';' {
        Some(TokenView::Semicolon(ch))
    } else if ch == ':' {
        Some(TokenView::Colon(ch))
    } else if ch == '(' {
        Some(TokenView::LParen(ch))
    } else if ch == ')' {
        Some(TokenView::RParen(ch))
    } else if ch == ',' {
        Some(TokenView::Comma(ch))
    } else if ch == '{' {
        Some(TokenView::LBrace(ch))
    } else if ch == '}' {
        Some(TokenView::RBrace(ch))
    } else {
        None
    }
}

/// One low-level scan from `c`: the token and the cursor after it. Whitespace
/// and unknown characters come out as tokens of their own.
pub open spec fn scan(input: Seq<char>, c: Cursor) -> (TokenView, Cursor) {
    scan_at(input, skip_ws(input, c))
}

/// The token that starts at the cursor `c1`, and the cursor after it.
#[verifier::opaque]
pub open spec fn scan_at(input: Seq<char>, c1: Cursor) -> (TokenView, Cursor) {
    let ch = c1.ch;
    let p = c1.position as int;
    if punct_token(ch) is Some {
        (punct_token(ch)->0, advance(input, c1))
    } else if ch == '-' {
        let c2 = advance(input, c1);
        if c2.ch == '>' {
            (TokenView::Arrow(seq!['-', '>']), advance(input, c2))
        } else {
            (TokenView::Minus('-'), c2)
        }
    } else if ch == '\0' {
        (TokenView::EOF, advance(input, c1))
    } else if ch == '"' {
        let s = string_scan(input, p + 1);
        if s.2 {
            (TokenView::Str(s.0), cursor_at(input, s.1 + 1))
        } else {
            (TokenView::Unkown, cursor_at(input, input.len() as int))
        }
    } else if is_letter(ch) {
        let w = input.subrange(p, word_end(input, p));
        (
            match keyword_of(w) {
                Some(k) => k,
                None => TokenView::Identifier(w),
            },
            cursor_at(input, word_end(input, p)),
        )
    } else if is_digit(ch) {
        let w = input.subrange(p, number_end(input, p));
        (
            if w.contains('.') {
                TokenView::Float(w)
            } else {
                TokenView::Int(w)
            },
            cursor_at(input, number_end(input, p)),
        )
    } else if is_space(ch) {
        (TokenView::Whitespace, advance(input, c1))
    } else {
        (TokenView::Unkown, advance(input, c1))
    }
}


/// The end of the run of characters that may continue a type annotation
/// (letters, digits, `_`, `[`, `]`) that starts at `i`.
pub open spec fn type_suffix_end(input: Seq<char>, i: int) -> int
    decreases input.len() - i,
{
    if 0 <= i < input.len() && type_text_char(input[i]) {
        type_suffix_end(input, i + 1)
    } else {
        i
    }
}

pub proof fn lemma_type_suffix_end(input: Seq<char>, i: int)
    requires
        0 <= i <= input.len(),
    ensures
        i <= type_suffix_end(input, i) <= input.len(),
    decreases input.len() - i,
{
    if i < input.len() && type_text_char(input[i]) {
        lemma_type_suffix_end(input, i + 1);
    }
}

/// The next token as `next_token` yields it: low-level scans from `c`, past
/// whitespace tokens, up to the first other token; and the cursor after it.
#[verifier::opaque]
pub open spec fn lex_next(input: Seq<char>, c: Cursor) -> (TokenView, Cursor)
    decreases input.len() + 2 - c.read_position,
{
    let r = scan(input, c);
    if r.0 is Whitespace && c.read_position < r.1.read_position <= input.len() + 1 {
        lex_next(input, r.1)
    } else {
        r
    }
}

/// What `peak_next_token` yields: the next token, and the cursor unmoved.
pub open spec fn peek_next(input: Seq<char>, c: Cursor) -> (TokenView, Cursor) {
    (lex_next(input, c).0, c)
}

/// What lexing from `c` yields: the tokens up to the end-of-file token,
/// without whitespace and unknown tokens; the index of the first character of
/// each unknown token, as a diagnostic; and the cursor after the end-of-file
/// token.
pub open spec fn lex_from(input: Seq<char>, c: Cursor) -> (Seq<TokenView>, Seq<usize>, Cursor)
    decreases input.len() + 2 - c.read_position,
{
    let r = scan(input, c);
    if r.0 is EOF || !(c.read_position < r.1.read_position <= input.len() + 1) {
        (seq![], seq![], r.1)
    } else {
        let rest = lex_from(input, r.1);
        if r.0 is Whitespace {
            rest
        } else if r.0 is Unkown {
            (rest.0, seq![skip_ws(input, c).position] + rest.1, rest.2)
        } else {
            (seq![r.0] + rest.0, rest.1, rest.2)
        }
    }
}

pub proof fn lemma_word_end(input: Seq<char>, i: int)
    requires
        0 <= i <= input.len(),
    ensures
        i <= word_end(input, i) <= input.len(),
    decreases input.len() - i,
{
    if i < input.len() && (is_letter(input[i]) || is_digit(input[i])) {
        lemma_word_end(input, i + 1);
    }
}

pub proof fn lemma_number_end(input: Seq<char>, i: int)
    requires
        0 <= i <= input.len(),
    ensures
        i <= number_end(input, i) <= input.len(),
    decreases input.len() - i,
{
    if i < input.len() && (is_digit(input[i]) || input[i] == '.') {
        lemma_number_end(input, i + 1);
    }
}

pub proof fn lemma_string_scan(input: Seq<char>, i: int)
    requires
        0 <= i <= input.len(),
    ensures
        i <= string_scan(input, i).1 <= input.len(),
        string_scan(input, i).2 ==> string_scan(input, i).1 < input.len() && input[string_scan(
            input,
            i,
        ).1] == '"',
        !string_scan(input, i).2 ==> string_scan(input, i).1 == input.len(),
    decreases input.len() - i,
{
    if i < input.len() && input[i] != '"' {
        if input[i] == '\\' {
            if i + 1 < input.len() {
                lemma_string_scan(input, i + 2);
            }
        } else {
            lemma_string_scan(input, i + 1);
        }
    }
}

/// A scan leaves a cursor that can stand over the input and never moves back;
/// it moves forward unless it yields the end-of-file token.
pub proof fn lemma_scan(input: Seq<char>, c: Cursor)
    requires
        cursor_wf(input, c),
    ensures
        cursor_wf(input, scan(input, c).1),
        c.read_position <= scan(input, c).1.read_position <= input.len() + 1,
        !(scan(input, c).0 is EOF) ==> c.read_position < scan(input, c).1.read_position,
{
    reveal(scan_at);
    let c1 = skip_ws(input, c);
    let p = c1.position as int;
    assert(cursor_wf(input, c1));
    if c1.ch == '"' {
        lemma_string_scan(input, p + 1);
    } else if is_letter(c1.ch) {
        lemma_word_end(input, p);
        if c1.ch != '\0' && c1 != start_cursor() {
            lemma_word_end(input, p + 1);
        }
    } else if is_digit(c1.ch) {
        lemma_number_end(input, p);
        if c1.ch != '\0' && c1 != start_cursor() {
            lemma_number_end(input, p + 1);
        }
    }
}

pub proof fn lemma_lex_next(input: Seq<char>, c: Cursor)
    requires
        cursor_wf(input, c),
    ensures
        cursor_wf(input, lex_next(input, c).1),
        c.read_position <= lex_next(input, c).1.read_position <= input.len() + 1,
        !(lex_next(input, c).0 is EOF) ==> c.read_position < lex_next(input, c).1.read_position,
        !(lex_next(input, c).0 is Whitespace),
    decreases input.len() + 2 - c.read_position,
{
    reveal(lex_next);
    lemma_scan(input, c);
    let r = scan(input, c);
    if r.0 is Whitespace {
        lemma_lex_next(input, r.1);
    }
}

/// Without NUL characters in the input, the end-of-file token comes only at
/// the end of input, and the cursor then stands there.
pub proof fn lemma_lex_next_eof(input: Seq<char>, c: Cursor)
    requires
        cursor_wf(input, c),
        forall|i: int| 0 <= i < input.len() ==> input[i] != '\0',
        lex_next(input, c).0 is EOF,
    ensures
        lex_next(input, c).1.position == input.len(),
    decreases input.len() + 2 - c.read_position,
{
    reveal(lex_next);
    lemma_scan(input, c);
    let r = scan(input, c);
    if r.0 is Whitespace {
        lemma_lex_next_eof(input, r.1);
    } else {
        lemma_scan_eof(input, c);
    }
}

/// Without NUL characters in the input, a scan that yields the end-of-file
/// token leaves the cursor on the end of input.
pub proof fn lemma_scan_eof(input: Seq<char>, c: Cursor)
    requires
        cursor_wf(input, c),
        forall|i: int| 0 <= i < input.len() ==> input[i] != '\0',
        scan(input, c).0 is EOF,
    ensures
        scan(input, c).1.position == input.len(),
{
    reveal(scan_at);
    let c1 = skip_ws(input, c);
    assert(cursor_wf(input, c1));
}

/// Peeking leaves the cursor where it was, and `next_token` from there yields
/// the very token that the peek returned.
pub proof fn law_peek_then_next(input: Seq<char>, c: Cursor)
    requires
        cursor_wf(input, c),
    ensures
        peek_next(input, c).1 == c,
        lex_next(input, peek_next(input, c).1).0 == peek_next(input, c).0,
{
}

/// Lexing an input that holds no NUL character ends with the cursor on the
/// end of input: the whole input is consumed.
pub proof fn law_lex_consumes_input(input: Seq<char>, c: Cursor)
    requires
        cursor_wf(input, c),
        forall|i: int| 0 <= i < input.len() ==> input[i] != '\0',
    ensures
        lex_from(input, c).2.position == input.len(),
    decreases input.len() + 2 - c.read_position,
{
    lemma_scan(input, c);
    let r = scan(input, c);
    if r.0 is EOF {
        lemma_scan_eof(input, c);
    } else {
        law_lex_consumes_input(input, r.1);
    }
}

/// A string literal without its closing quote: the scan from its opening
/// quote ends at the end of input with the `Unkown` token, and the next scan
/// yields end of file.
pub proof fn law_unterminated_string(input: Seq<char>, c: Cursor)
    requires
        cursor_wf(input, c),
        c.position < input.len(),
        c == cursor_at(input, c.position as int),
        c.ch == '"',
        forall|i: int| c.position < i < input.len() ==> input[i] != '"',
    ensures
        scan(input, c) == (TokenView::Unkown, cursor_at(input, input.len() as int)),
        scan(input, scan(input, c).1).0 is EOF,
{
    reveal(scan_at);
    assert(skip_ws(input, c) == c);
    lemma_string_scan_unclosed(input, c.position + 1);
}

proof fn lemma_string_scan_unclosed(input: Seq<char>, i: int)
    requires
        0 <= i <= input.len(),
        forall|j: int| i <= j < input.len() ==> input[j] != '"',
    ensures
        !string_scan(input, i).2,
    decreases input.len() - i,
{
    if i < input.len() {
        if input[i] == '\\' {
            if i + 1 < input.len() {
                lemma_string_scan_unclosed(input, i + 2);
            }
        } else {
            lemma_string_scan_unclosed(input, i + 1);
        }
    }
}

impl Lexer {
    /// The cursor stands over the input.
    pub open spec fn wf(&self) -> bool {
        cursor_wf(self.input@, self.cursor)
    }

    /// A lexer at the start of `source_code`. Its current character is a blank,
    /// so the first scan steps onto the first character.
    pub fn new(source_code: Vec<char>) -> (r: Self)
        requires
            source_code@.len() < usize::MAX,
        ensures
            r.input@ == source_code@,
            r.cursor == start_cursor(),
            r.wf(),
    {
        Lexer { input: source_code, cursor: Cursor { position: 0, read_position: 0, ch: ' ' } }
    }

    /// Moves the cursor onto index `i`.
    fn set_position(&mut self, i: usize)
        requires
            old(self).wf(),
            i <= old(self).input@.len(),
        ensures
            final(self).input == old(self).input,
            final(self).cursor == cursor_at(old(self).input@, i as int),
            final(self).wf(),
    {
        self.cursor.ch = if i < self.input.len() {
            self.input[i]
        } else {
            '\0'
        };
        self.cursor.position = i;
        self.cursor.read_position = i + 1;
    }

    /// Steps to the next character; past the end the current character is
    /// `'\0'`, and once there the cursor no longer moves.
    pub fn read_char(&mut self)
        requires
            old(self).wf(),
        ensures
            final(self).input == old(self).input,
            final(self).cursor == advance(old(self).input@, old(self).cursor),
            final(self).wf(),
    {
        if self.cursor.read_position <= self.input.len() {
            let rp = self.cursor.read_position;
            self.set_position(rp);
        }
    }

    /// Steps past the current character if it is whitespace (one at most).
    pub fn skip_whitespace(&mut self)
        requires
            old(self).wf(),
        ensures
            final(self).input == old(self).input,
            final(self).cursor == skip_ws(old(self).input@, old(self).cursor),
            final(self).wf(),
            final(self).cursor.position <= old(self).input@.len(),
            final(self).cursor == cursor_at(old(self).input@, final(self).cursor.position as int),
    {
        if is_whitespace(self.cursor.ch) {
            self.read_char();
        }
    }

    /// Reads the run of alphanumeric characters from the current index.
    fn read_identifier(&mut self) -> (r: Vec<char>)
        requires
            old(self).wf(),
            old(self).cursor.position <= old(self).input@.len(),
        ensures
            final(self).input == old(self).input,
            final(self).wf(),
            r@ == old(self).input@.subrange(
                old(self).cursor.position as int,
                word_end(old(self).input@, old(self).cursor.position as int),
            ),
            final(self).cursor == cursor_at(
                old(self).input@,
                word_end(old(self).input@, old(self).cursor.position as int),
            ),
    {
        let ghost input = self.input@;
        let start = self.cursor.position;
        let mut i: usize = start;
        let mut w: Vec<char> = Vec::new();
        while i < self.input.len() && is_alphanumeric(self.input[i])
            invariant
                self.input@ == input,
                self.wf(),
                start <= i <= input.len(),
                word_end(input, start as int) == word_end(input, i as int),
                w@ == input.subrange(start as int, i as int),
            decreases input.len() - i,
        {
            w.push(self.input[i]);
            assert(w@ == input.subrange(start as int, i + 1));
            i = i + 1;
        }
        self.set_position(i);
        w
    }

    /// Reads the run of numeric characters and dots from the current index.
    fn read_number(&mut self) -> (r: Vec<char>)
        requires
            old(self).wf(),
            old(self).cursor.position <= old(self).input@.len(),
        ensures
            final(self).input == old(self).input,
            final(self).wf(),
            r@ == old(self).input@.subrange(
                old(self).cursor.position as int,
                number_end(old(self).input@, old(self).cursor.position as int),
            ),
            final(self).cursor == cursor_at(
                old(self).input@,
                number_end(old(self).input@, old(self).cursor.position as int),
            ),
    {
        let ghost input = self.input@;
        let start = self.cursor.position;
        let mut i: usize = start;
        let mut w: Vec<char> = Vec::new();
        while i < self.input.len() && (is_numeric(self.input[i]) || self.input[i] == '.')
            invariant
                self.input@ == input,
                self.wf(),
                start <= i <= input.len(),
                number_end(input, start as int) == number_end(input, i as int),
                w@ == input.subrange(start as int, i as int),
            decreases input.len() - i,
        {
            w.push(self.input[i]);
            assert(w@ == input.subrange(start as int, i + 1));
            i = i + 1;
        }
        self.set_position(i);
        w
    }

    /// Reads a string literal whose opening quote is the current character.
    /// One without a closing quote runs to the end of input and gives `Unkown`.
    fn read_string(&mut self) -> (r: Token)
        requires
            old(self).wf(),
            old(self).cursor.position < old(self).input@.len(),
        ensures
            final(self).input == old(self).input,
            final(self).wf(),
            ({
                let s = string_scan(old(self).input@, old(self).cursor.position + 1);
                if s.2 {
                    r@ == TokenView::Str(s.0) && final(self).cursor == cursor_at(
                        old(self).input@,
                        s.1 + 1,
                    )
                } else {
                    r@ == TokenView::Unkown && final(self).cursor == cursor_at(
                        old(self).input@,
                        old(self).input@.len() as int,
                    )
                }
            }),
    {
        let ghost input = self.input@;
        let len = self.input.len();
        let start = self.cursor.position + 1;
        let mut i: usize = start;
        let mut body: Vec<char> = Vec::new();
        proof {
            lemma_string_scan(input, start as int);
        }
        while i < len && self.input[i] != '"'
            invariant
                self.input@ == input,
                len == input.len(),
                self.wf(),
                start <= i <= len,
                body@ + string_scan(input, i as int).0 == string_scan(input, start as int).0,
                string_scan(input, i as int).1 == string_scan(input, start as int).1,
                string_scan(input, i as int).2 == string_scan(input, start as int).2,
            decreases len - i,
        {
            if self.input[i] == '\\' {
                if i + 1 < len {
                    let c = self.input[i + 1];
                    assert(body@.push(c) + string_scan(input, i + 2).0 == body@ + string_scan(
                        input,
                        i as int,
                    ).0);
                    body.push(c);
                    i = i + 2;
                } else {
                    i = len;
                }
            } else {
                let c = self.input[i];
                assert(body@.push(c) + string_scan(input, i + 1).0 == body@ + string_scan(
                    input,
                    i as int,
                ).0);
                body.push(c);
                i = i + 1;
            }
        }
        assert(body@ == string_scan(input, start as int).0);
        if i < len {
            self.set_position(i + 1);
            Token::String { val: body }
        } else {
            self.set_position(len);
            Token::Unkown
        }
    }

    /// Reads the rest of a type annotation that follows a name directly:
    /// the run of letters, digits, `_`, `[` and `]` from the current index.
    pub fn read_type_suffix(&mut self) -> (r: Vec<char>)
        requires
            old(self).wf(),
            old(self).cursor.position <= old(self).input@.len(),
        ensures
            final(self).input == old(self).input,
            final(self).wf(),
            r@ == old(self).input@.subrange(
                old(self).cursor.position as int,
                type_suffix_end(old(self).input@, old(self).cursor.position as int),
            ),
            final(self).cursor == cursor_at(
                old(self).input@,
                type_suffix_end(old(self).input@, old(self).cursor.position as int),
            ),
    {
        let ghost input = self.input@;
        let start = self.cursor.position;
        let mut i: usize = start;
        let mut w: Vec<char> = Vec::new();
        while i < self.input.len() && is_type_text_char(self.input[i])
            invariant
                self.input@ == input,
                self.wf(),
                start <= i <= input.len(),
                type_suffix_end(input, start as int) == type_suffix_end(input, i as int),
                w@ == input.subrange(start as int, i as int),
            decreases input.len() - i,
        {
            w.push(self.input[i]);
            assert(w@ == input.subrange(start as int, i + 1));
            i = i + 1;
        }
        self.set_position(i);
        w
    }

    /// One low-level scan: steps past at most one whitespace character and
    /// reads one token, which may be `Whitespace` or `Unkown`.
    pub fn token_match(&mut self) -> (t: Token)
        requires
            old(self).wf(),
        ensures
            final(self).input == old(self).input,
            final(self).wf(),
            (t@, final(self).cursor) == scan(old(self).input@, old(self).cursor),
            ({
                let c = old(self).cursor;
                let input = old(self).input@;
                c.position < input.len() && c == cursor_at(input, c.position as int) && c.ch == '"'
                    && (forall|i: int| c.position < i < input.len() ==> input[i] != '"') ==> t
                    == Token::Unkown && final(self).cursor == cursor_at(input, input.len() as int)
            }),
    {
        proof {
            let c = self.cursor;
            let input = self.input@;
            if c.position < input.len() && c == cursor_at(input, c.position as int) && c.ch == '"'
                && (forall|i: int| c.position < i < input.len() ==> input[i] != '"') {
                law_unterminated_string(input, c);
            }
        }
        self.skip_whitespace();
        self.match_at()
    }

    /// Reads the token that starts at the current character.
    fn match_at(&mut self) -> (t: Token)
        requires
            old(self).wf(),
            old(self).cursor.position <= old(self).input@.len(),
            old(self).cursor == cursor_at(old(self).input@, old(self).cursor.position as int),
        ensures
            final(self).input == old(self).input,
            final(self).wf(),
            (t@, final(self).cursor) == scan_at(old(self).input@, old(self).cursor),
    {
        reveal(scan_at);
        let ghost input = self.input@;
        let ch = self.cursor.ch;
        if let Some(tok) = punct(ch) {
            self.read_char();
            return tok;
        }
        if ch == '-' {
            self.read_char();
            if self.cursor.ch == '>' {
                self.read_char();
                let arrow = "->".to_owned();
                proof {
                    reveal_strlit("->");
                    assert(arrow@ =~= seq!['-', '>']);
                }
                return Token::Arrow { val: arrow };
            }
            return Token::Minus { val: '-' };
        }
        if ch == '\0' {
            self.read_char();
            return Token::EOF;
        }
        assert(self.cursor.position < input.len());
        if ch == '"' {
            return self.read_string();
        }
        if is_alphabetic(ch) {
            let ident = self.read_identifier();
            return match get_keyword_token(&ident) {
                Ok(keyword) => keyword,
                Err(_) => Token::Identifier { val: ident },
            };
        }
        if is_numeric(ch) {
            let num = self.read_number();
            if contains_dot(&num) {
                return Token::Float { val: num };
            }
            return Token::Int { val: num };
        }
        let tok = if is_whitespace(ch) {
            Token::Whitespace
        } else {
            Token::Unkown
        };
        self.read_char();
        tok
    }

    /// The next token, past any whitespace.
    pub fn next_token(&mut self) -> (t: Token)
        requires
            old(self).wf(),
        ensures
            final(self).input == old(self).input,
            final(self).wf(),
            (t@, final(self).cursor) == lex_next(old(self).input@, old(self).cursor),
    {
        reveal(lex_next);
        let ghost input = self.input@;
        let ghost input_vec = self.input;
        let ghost c0 = self.cursor;
        let ghost mut prev = self.cursor;
        proof {
            lemma_scan(input, prev);
        }
        let mut t = self.token_match();
        while matches!(t, Token::Whitespace)
            invariant
                self.input == input_vec,
                input_vec@ == input,
                cursor_wf(input, prev),
                self.wf(),
                (t@, self.cursor) == scan(input, prev),
                lex_next(input, prev) == lex_next(input, c0),
                prev.read_position <= self.cursor.read_position <= input.len() + 1,
                !(t is EOF) ==> prev.read_position < self.cursor.read_position,
            decreases input.len() + 2 - self.cursor.read_position + (if t is Whitespace {
                1int
            } else {
                0
            }),
        {
            proof {
                reveal(lex_next);
                prev = self.cursor;
                lemma_scan(input, prev);
            }
            t = self.token_match();
        }
        t
    }

    /// The token that `next_token` would yield, with the lexer left as it was.
    pub fn peak_next_token(&mut self) -> (t: Token)
        requires
            old(self).wf(),
        ensures
            *final(self) == *old(self),
            (t@, final(self).cursor) == peek_next(old(self).input@, old(self).cursor),
    {
        let saved = self.cursor;
        let t = self.next_token();
        self.cursor = saved;
        t
    }

    /// Steps onto the first character and reads every token up to the end of
    /// file. Whitespace is left out; unknown tokens are left out too, and the
    /// index of the first character of each is returned beside the tokens.
    pub fn lex(&mut self) -> (r: (Vec<Token>, Vec<usize>))
        requires
            old(self).wf(),
        ensures
            final(self).input == old(self).input,
            final(self).wf(),
            ({
                let l = lex_from(old(self).input@, advance(old(self).input@, old(self).cursor));
                &&& r.0@.map_values(|t: Token| t@) == l.0
                &&& r.1@ == l.1
                &&& final(self).cursor == l.2
            }),
    {
        let ghost input = self.input@;
        let ghost input_vec = self.input;
        let mut tokens: Vec<Token> = Vec::new();
        let mut unknown: Vec<usize> = Vec::new();
        self.read_char();
        let ghost c0 = self.cursor;
        loop
            invariant
                self.input == input_vec,
                input_vec == old(self).input,
                input_vec@ == input,
                c0 == advance(input, old(self).cursor),
                self.wf(),
                tokens@.map_values(|t: Token| t@) + lex_from(input, self.cursor).0 == lex_from(
                    input,
                    c0,
                ).0,
                unknown@ + lex_from(input, self.cursor).1 == lex_from(input, c0).1,
                lex_from(input, self.cursor).2 == lex_from(input, c0).2,
            decreases input.len() + 2 - self.cursor.read_position,
        {
            let ghost before = self.cursor;
            proof {
                lemma_scan(input, before);
            }
            self.skip_whitespace();
            let start = self.cursor.position;
            let token = self.match_at();
            let ghost old_tokens = tokens@;
            let ghost old_unknown = unknown@;
            if matches!(token, Token::EOF) {
                assert(tokens@.map_values(|t: Token| t@) + Seq::<TokenView>::empty() =~= tokens@.map_values(
                    |t: Token| t@,
                ));
                assert(unknown@ + Seq::<usize>::empty() =~= unknown@);
                return (tokens, unknown);
            } else if matches!(token, Token::Unkown) {
                unknown.push(start);
                assert(unknown@ + lex_from(input, self.cursor).1 =~= old_unknown + lex_from(
                    input,
                    before,
                ).1);
            } else if !matches!(token, Token::Whitespace) {
                tokens.push(token);
                assert(tokens@.map_values(|t: Token| t@) =~= old_tokens.map_values(|t: Token| t@).push(
                    token@,
                ));
                assert(tokens@.map_values(|t: Token| t@) + lex_from(input, self.cursor).0
                    =~= old_tokens.map_values(|t: Token| t@) + lex_from(input, before).0);
            }
        }
    }
}

/// The token of a character that stands for itself.
fn punct(ch: char) -> (r: Option<Token>)
    ensures
        match punct_token(ch) {
            Some(v) => r matches Some(t) && t@ == v,
            None => r is None,
        },
{
    if ch == '=' {
        Some(Token::Assign { val: ch })
    } else if ch == '+' {
        Some(Token::Plus { val: ch })
    } else if ch == '!' {
        Some(Token::Bang { val: ch })
    } else if ch == '/' {
        Some(Token::Division { val: ch })
    } else if ch == '*' {
        Some(Token::Multiplication { val: ch })
    } else if ch == '<' {
        Some(Token::Lt { val: ch })
    } else if ch == '>' {
        Some(Token::Gt { val: ch })
    } else if ch == ';' {
        Some(Token::Semicolon { val: ch })
    } else if ch == ':' {
        Some(Token::Colon { val: ch })
    } else if ch == '(' {
        Some(Token::LParen { val: ch })
    } else if ch == ')' {
        Some(Token::RParen { val: ch })
    } else if ch == ',' {
        Some(Token::Comma { val: ch })
    } else if ch == '{' {
        Some(Token::LBrace { val: ch })
    } else if ch == '}' {
        Some(Token::RBrace { val: ch })
    } else {
        None
    }
}

/// Whether `c` may stand in a type annotation.
fn is_type_text_char(c: char) -> (r: bool)
    ensures
        r == type_text_char(c),
{
    ('a' <= c && c <= 'z') || ('A' <= c && c <= 'Z') || ('0' <= c && c <= '9') || c == '_' || c
        == '[' || c == ']'
}

/// Whether `v` holds a dot.
fn contains_dot(v: &Vec<char>) -> (r: bool)
    ensures
        r == v@.contains('.'),
{
    let mut i: usize = 0;
    while i < v.len()
        invariant
            i <= v@.len(),
            forall|j: int| 0 <= j < i ==> v@[j] != '.',
        decreases v@.len() - i,
    {
        if v[i] == '.' {
            assert(v@[i as int] == '.');
            return true;
        }
        i = i + 1;
    }
    false
}

} // verus!
