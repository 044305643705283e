//! Errors of the driving program and the position text of diagnostics.
use vstd::prelude::*;

use crate::chars::string_from_chars;
use crate::lexer::Lexer;

verus! {

/// What went wrong in the driving program.
#[derive(Debug, Clone, Copy, PartialEq, Eq, Structural)]
pub enum CompilerErrorKind {
    CommandLineError,
}

/// An error of the driving program.
#[derive(Debug)]
pub struct CompilerError {
    pub code: usize,
    pub kind: CompilerErrorKind,
    pub message: String,
}

/// The number of line feeds in `s`.
pub open spec fn newlines(s: Seq<char>) -> nat
    decreases s.len(),
{
    if s.len() == 0 {
        0
    } else {
        newlines(s.drop_last()) + if s.last() == '\n' {
            1nat
        } else {
            0nat
        }
    }
}

/// The line, counted from one, of the character at index `pos`.
pub open spec fn line_of(input: Seq<char>, pos: int) -> nat {
    1 + newlines(input.subrange(0, if pos < input.len() { pos } else { input.len() as int }))
}

/// The decimal digit of `d`, for `d` below ten.
pub open spec fn digit_char(d: nat) -> char {
    seq!['0', '1', '2', '3', '4', '5', '6', '7', '8', '9'][d as int]
}

/// The decimal notation of `n`, without leading zeros.
pub open spec fn decimal_text(n: nat) -> Seq<char>
    decreases n,
{
    if n < 10 {
        seq![digit_char(n)]
    } else {
        decimal_text(n / 10).push(digit_char(n % 10))
    }
}

/// Appends the decimal notation of `n`.
fn push_decimal(out: &mut Vec<char>, n: usize)
    ensures
        final(out)@ == old(out)@ + decimal_text(n as nat),
    decreases n,
{
    let digits: [char; 10] = ['0', '1', '2', '3', '4', '5', '6', '7', '8', '9'];
    assert(digits@ == seq!['0', '1', '2', '3', '4', '5', '6', '7', '8', '9']);
    if n >= 10 {
        push_decimal(out, n / 10);
    }
    out.push(digits[n % 10]);
    assert(out@ == old(out)@ + decimal_text(n as nat));
}

/// Appends the characters of `s`.
fn push_str(out: &mut Vec<char>, s: &str)
    ensures
        final(out)@ == old(out)@ + s@,
{
    let n = s.unicode_len();
    let mut i: usize = 0;
    while i < n
        invariant
            n == s@.len(),
            i <= n,
            out@ == old(out)@ + s@.subrange(0, i as int),
        decreases n - i,
    {
        out.push(s.get_char(i));
        assert(s@.subrange(0, i + 1) == s@.subrange(0, i as int).push(s@[i as int]));
        i = i + 1;
    }
    assert(s@.subrange(0, i as int) == s@);
}

/// `error`, then a blank, then the line of the lexer's cursor and its read
/// position, as `line:read_position`.
pub fn print_error(error: &str, lexer: &Lexer) -> (r: String)
    requires
        lexer.wf(),
    ensures
        r@ == error@ + seq![' '] + decimal_text(
            line_of(lexer.input@, lexer.cursor.position as int),
        ) + seq![':'] + decimal_text(lexer.cursor.read_position as nat),
{
    let ghost input = lexer.input@;
    let end = if lexer.cursor.position < lexer.input.len() {
        lexer.cursor.position
    } else {
        lexer.input.len()
    };
    let mut count: usize = 0;
    let mut i: usize = 0;
    while i < end
        invariant
            end <= input.len(),
            input == lexer.input@,
            i <= end,
            count <= i,
            count == newlines(input.subrange(0, i as int)),
        decreases end - i,
    {
        assert(input.subrange(0, i + 1).drop_last() == input.subrange(0, i as int));
        if lexer.input[i] == '\n' {
            count = count + 1;
        }
        i = i + 1;
    }
    let mut out: Vec<char> = Vec::new();
    push_str(&mut out, error);
    out.push(' ');
    push_decimal(&mut out, count + 1);
    out.push(':');
    push_decimal(&mut out, lexer.cursor.read_position);
    string_from_chars(&out)
}

} // verus!
