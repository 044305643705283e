//! The recursive-descent parser: statements, function bodies and
//! expressions, over the tokens of a lexer. What it yields is stated as a
//! grammar over the token stream of the input.
use vstd::prelude::*;

use crate::ast::{
    clone_stmt, exports_view, expr_view, exprs_view, lemma_call_view, lemma_fn_decl_view,
    params_view, stmt_view, stmts_view, Export, ExportType, ExprView, Expression, FuncParam,
    Statements, StmtView,
};
use crate::chars::string_from_chars;
use crate::error::print_error;
use crate::lexer::{
    cursor_at, cursor_wf, lemma_lex_next, lemma_lex_next_eof, lemma_type_suffix_end, lex_next,
    type_suffix_end, Cursor, Lexer,
};
use crate::tokens::{Token, TokenView};
use crate::types::{type_of_text, Type, TypeView};

verus! {

/// What went wrong while parsing.
#[derive(Debug, Clone, Copy, PartialEq, Eq, Structural)]
pub enum ErrorKind {
    /// A malformed or incomplete expression: a token that cannot start one,
    /// the end of file inside the argument list of a call, or numeric
    /// literal text that is no valid number.
    ExpressionError,
    /// No statement is left: the end of file.
    EndOfFile,
    /// A name was expected after `let` or `fn`.
    ExpectedIdentifier,
    /// `:` was expected before a type.
    ExpectedColon,
    /// A type name was expected.
    ExpectedType,
    /// `=` was expected before the value of a variable.
    ExpectedAssign,
    /// A name was expected after `module`.
    ExpectedModuleName,
    /// `(` was expected after the name of a function.
    ExpectedLParen,
    /// A parameter name was expected.
    ExpectedParameter,
    /// A statement starts with a token that begins nothing known.
    UnknownKeyword,
}

/// A parse error: a short code, its kind, a message with the position, and
/// the offending token where one is to blame.
#[derive(Debug)]
pub struct Error {
    pub code: String,
    pub kind: ErrorKind,
    pub message: String,
    pub token: Option<Token>,
}

/// A parse error as a value: its kind, its code and the offending token.
pub struct Fault {
    pub kind: ErrorKind,
    pub code: Seq<char>,
    pub token: Option<TokenView>,
}

/// An error with no token to blame.
pub open spec fn fault(kind: ErrorKind, code: Seq<char>) -> Fault {
    Fault { kind, code, token: None }
}

/// The value of an error.
pub open spec fn error_view(e: Error) -> Fault {
    Fault {
        kind: e.kind,
        code: e.code@,
        token: match e.token {
            Some(t) => Some(t@),
            None => None,
        },
    }
}

/// No end-of-file error.
pub open spec fn not_eof<T>(r: Result<T, Fault>) -> bool {
    !(r matches Err(f) && f.kind is EndOfFile)
}

/// An ASCII decimal digit.
pub open spec fn ascii_digit(c: char) -> bool {
    '0' <= c <= '9'
}

/// The value of the decimal digits `s`.
pub open spec fn decimal_value(s: Seq<char>) -> int
    decreases s.len(),
{
    if s.len() == 0 {
        0
    } else {
        decimal_value(s.drop_last()) * 10 + (s.last() as int - '0' as int)
    }
}

/// Integer literal text: one or more ASCII digits whose value fits in `i64`.
pub open spec fn int_text_ok(s: Seq<char>) -> bool {
    &&& s.len() > 0
    &&& forall|i: int| 0 <= i < s.len() ==> ascii_digit(#[trigger] s[i])
    &&& decimal_value(s) <= i64::MAX
}

/// The number of dots in `s`.
pub open spec fn dot_count(s: Seq<char>) -> nat
    decreases s.len(),
{
    if s.len() == 0 {
        0
    } else {
        dot_count(s.drop_last()) + if s.last() == '.' {
            1nat
        } else {
            0nat
        }
    }
}

/// Float literal text: an ASCII digit first, then ASCII digits and exactly
/// one dot in all.
pub open spec fn float_text_ok(s: Seq<char>) -> bool {
    &&& s.len() > 0
    &&& ascii_digit(s[0])
    &&& forall|i: int| 0 <= i < s.len() ==> ascii_digit(#[trigger] s[i]) || s[i] == '.'
    &&& dot_count(s) == 1
}

pub proof fn lemma_decimal_grows(s: Seq<char>, k: int)
    requires
        0 <= k <= s.len(),
        forall|i: int| 0 <= i < s.len() ==> ascii_digit(#[trigger] s[i]),
    ensures
        0 <= decimal_value(s.subrange(0, k)) <= decimal_value(s),
    decreases s.len(),
{
    if k < s.len() {
        let t = s.drop_last();
        assert(t.subrange(0, k) == s.subrange(0, k));
        assert forall|i: int| 0 <= i < t.len() implies ascii_digit(#[trigger] t[i]) by {
            assert(t[i] == s[i]);
        }
        lemma_decimal_grows(t, k);
        assert(ascii_digit(s[s.len() - 1]));
    } else {
        assert(s.subrange(0, k) == s);
        if s.len() > 0 {
            let t = s.drop_last();
            assert forall|i: int| 0 <= i < t.len() implies ascii_digit(#[trigger] t[i]) by {
                assert(t[i] == s[i]);
            }
            lemma_decimal_grows(t, t.len() as int);
            assert(t.subrange(0, t.len() as int) == t);
            assert(ascii_digit(s[s.len() - 1]));
        }
    }
}

/// The value of integer literal text, if it is valid.
pub fn parse_int_text(v: &Vec<char>) -> (r: Option<i64>)
    ensures
        r is Some <==> int_text_ok(v@),
        r matches Some(x) ==> x as int == decimal_value(v@),
{
    if v.len() == 0 {
        return None;
    }
    let mut acc: i64 = 0;
    let mut i: usize = 0;
    while i < v.len()
        invariant
            i <= v@.len(),
            forall|j: int| 0 <= j < i ==> ascii_digit(#[trigger] v@[j]),
            acc as int == decimal_value(v@.subrange(0, i as int)),
            0 <= acc,
        decreases v@.len() - i,
    {
        let c = v[i];
        if !('0' <= c && c <= '9') {
            assert(!ascii_digit(v@[i as int]));
            return None;
        }
        let d = (c as u32 - '0' as u32) as i64;
        assert(v@.subrange(0, i + 1).drop_last() == v@.subrange(0, i as int));
        let next = match acc.checked_mul(10) {
            Some(m) => m.checked_add(d),
            None => None,
        };
        match next {
            Some(n) => {
                acc = n;
            },
            None => {
                proof {
                    assert(decimal_value(v@.subrange(0, i + 1)) > i64::MAX);
                    let ghost all_digits = forall|j: int|
                        0 <= j < v@.len() ==> ascii_digit(#[trigger] v@[j]);
                    if all_digits {
                        lemma_decimal_grows(v@, i + 1);
                    }
                }
                return None;
            },
        }
        i = i + 1;
    }
    assert(v@.subrange(0, i as int) == v@);
    Some(acc)
}

/// Whether float literal text is valid.
pub fn float_text_valid(v: &Vec<char>) -> (r: bool)
    ensures
        r == float_text_ok(v@),
{
    if v.len() == 0 {
        return false;
    }
    if !('0' <= v[0] && v[0] <= '9') {
        return false;
    }
    let mut dots: usize = 0;
    let mut i: usize = 0;
    while i < v.len()
        invariant
            i <= v@.len(),
            forall|j: int| 0 <= j < i ==> ascii_digit(#[trigger] v@[j]) || v@[j] == '.',
            dots == dot_count(v@.subrange(0, i as int)),
            dots <= i,
        decreases v@.len() - i,
    {
        let c = v[i];
        if !(('0' <= c && c <= '9') || c == '.') {
            assert(!(ascii_digit(v@[i as int]) || v@[i as int] == '.'));
            return false;
        }
        assert(v@.subrange(0, i + 1).drop_last() == v@.subrange(0, i as int));
        if c == '.' {
            dots = dots + 1;
        }
        i = i + 1;
    }
    assert(v@.subrange(0, i as int) == v@);
    dots == 1
}


/// How far a cursor still is from the end: what every recursion of the
/// parser consumes.
pub open spec fn measure(input: Seq<char>, c: Cursor) -> int {
    input.len() + 2 - c.read_position
}

/// `b` lies strictly after `a` and within the input.
pub open spec fn fwd(input: Seq<char>, a: Cursor, b: Cursor) -> bool {
    a.read_position < b.read_position <= input.len() + 1
}

/// A token that can begin an expression.
pub open spec fn starts_expr(t: TokenView) -> bool {
    t is Str || t is Int || t is Float || t is True || t is False || t is Identifier
}

/// The expression that begins with the token `t`, read with the cursor `c`
/// just after it, and the cursor after the expression. A name followed by `(`
/// is a call, whose arguments run up to `)`.
pub open spec fn expr_from(input: Seq<char>, t: TokenView, c: Cursor) -> (
    Result<ExprView, Fault>,
    Cursor,
)
    decreases measure(input, c), 0int
        when cursor_wf(input, c)
{
    match t {
        TokenView::Str(s) => (Ok(ExprView::StringLiteral(s)), c),
        TokenView::Int(s) => if int_text_ok(s) {
            (Ok(ExprView::IntLiteral(decimal_value(s))), c)
        } else {
            (Err(fault(ErrorKind::ExpressionError, "AUR7001"@)), c)
        },
        TokenView::Float(s) => if float_text_ok(s) {
            (Ok(ExprView::FloatLiteral(s)), c)
        } else {
            (Err(fault(ErrorKind::ExpressionError, "AUR7001"@)), c)
        },
        TokenView::True => (Ok(ExprView::BooleanLiteral(true)), c),
        TokenView::False => (Ok(ExprView::BooleanLiteral(false)), c),
        TokenView::Identifier(s) => {
            let p = lex_next(input, c);
            if !(p.0 is LParen) {
                (Ok(ExprView::Identifier(s)), c)
            } else {
                proof {
                    lemma_lex_next(input, c);
                }
                let a = args_from(input, p.1, seq![]);
                (
                    match a.0 {
                        Ok(args) => Ok(ExprView::FunctionCall(s, args)),
                        Err(k) => Err(k),
                    },
                    a.1,
                )
            }
        },
        _ => (Err(Fault { kind: ErrorKind::ExpressionError, code: "AUR7000"@, token: Some(t) }), c),
    }
}

/// The arguments of a call from `c` up to and with the closing `)`, after
/// the arguments `acc` already read; arguments may be separated by commas.
pub open spec fn args_from(input: Seq<char>, c: Cursor, acc: Seq<ExprView>) -> (
    Result<Seq<ExprView>, Fault>,
    Cursor,
)
    decreases measure(input, c), 1int
        when cursor_wf(input, c)
{
    let p = lex_next(input, c);
    if p.0 is EOF {
        (Err(fault(ErrorKind::ExpressionError, "AUR3000"@)), c)
    } else if p.0 is RParen {
        (Ok(acc), p.1)
    } else {
        let c1 = if p.0 is Comma {
            p.1
        } else {
            c
        };
        let f = lex_next(input, c1);
        if f.0 is EOF {
            (Err(fault(ErrorKind::ExpressionError, "AUR3000"@)), c1)
        } else {
            proof {
                lemma_lex_next(input, c);
                lemma_lex_next(input, c1);
            }
            let e = expr_from(input, f.0, f.1);
            match e.0 {
                // `e.1` lies after `c` (`lemma_expr_from`); the test keeps the
                // termination of the recursion evident.
                Ok(v) => if fwd(input, c, e.1) {
                    args_from(input, e.1, acc.push(v))
                } else {
                    (Err(fault(ErrorKind::ExpressionError, "AUR3000"@)), e.1)
                },
                Err(k) => (Err(k), e.1),
            }
        }
    }
}

/// `r` is the outcome `s` of the grammar, with the code that its error
/// kind has.
pub open spec fn expr_result(r: Result<Expression, Error>, s: Result<ExprView, Fault>) -> bool {
    match r {
        Ok(e) => s == Ok::<ExprView, Fault>(e@),
        Err(err) => s == Err::<ExprView, Fault>(error_view(err)),
    }
}

pub open spec fn args_result(
    r: Result<Vec<Expression>, Error>,
    s: Result<Seq<ExprView>, Fault>,
) -> bool {
    match r {
        Ok(v) => s == Ok::<Seq<ExprView>, Fault>(exprs_view(v@)),
        Err(err) => s == Err::<Seq<ExprView>, Fault>(error_view(err)),
    }
}

/// The type of an annotation that begins with the name `word`, whose token
/// ended at `c`: the name and the annotation characters right after it. Also
/// the cursor after the annotation.
pub open spec fn type_after(input: Seq<char>, word: Seq<char>, c: Cursor) -> (TypeView, Cursor) {
    let e = type_suffix_end(input, c.position as int);
    (type_of_text(word + input.subrange(c.position as int, e)), cursor_at(input, e))
}

/// The rest of `let name : type = value` after `let`.
pub open spec fn let_spec(input: Seq<char>, c: Cursor) -> (Result<StmtView, Fault>, Cursor) {
    let p = lex_next(input, c);
    if !(p.0 is Identifier) {
        (Err(fault(ErrorKind::ExpectedIdentifier, "AUR2001"@)), c)
    } else {
        let q = lex_next(input, p.1);
        if !(q.0 is Colon) {
            (Err(fault(ErrorKind::ExpectedColon, "AUR2002"@)), p.1)
        } else {
            let r = lex_next(input, q.1);
            if !(r.0 is Identifier) {
                (Err(fault(ErrorKind::ExpectedType, "AUR2003"@)), q.1)
            } else {
                let ty = type_after(input, r.0->Identifier_0, r.1);
                let s = lex_next(input, ty.1);
                if !(s.0 is Assign) {
                    (Err(fault(ErrorKind::ExpectedAssign, "AUR2004"@)), ty.1)
                } else {
                    let f = lex_next(input, s.1);
                    let e = expr_from(input, f.0, f.1);
                    (
                        match e.0 {
                            Ok(v) => Ok(StmtView::VariableDeclaration(p.0->Identifier_0, v, ty.0)),
                            Err(k) => Err(k),
                        },
                        e.1,
                    )
                }
            }
        }
    }
}

/// The rest of `module name` after `module`.
pub open spec fn module_spec(input: Seq<char>, c: Cursor) -> (Result<StmtView, Fault>, Cursor) {
    let p = lex_next(input, c);
    if p.0 is Identifier {
        (Ok(StmtView::ModuleDeclaration(p.0->Identifier_0)), p.1)
    } else {
        (Err(fault(ErrorKind::ExpectedModuleName, "AUR2005"@)), c)
    }
}

/// The parameters `name : type`, separated by commas, from `c` up to and with
/// the closing `)`, after the parameters `acc` already read.
pub open spec fn params_spec(input: Seq<char>, c: Cursor, acc: Seq<(Seq<char>, TypeView)>) -> (
    Result<Seq<(Seq<char>, TypeView)>, Fault>,
    Cursor,
)
    decreases measure(input, c)
        when cursor_wf(input, c)
{
    let t = lex_next(input, c);
    if t.0 is RParen {
        (Ok(acc), t.1)
    } else {
        let u = if t.0 is Comma {
            lex_next(input, t.1)
        } else {
            t
        };
        if !(u.0 is Identifier) {
            (Err(fault(ErrorKind::ExpectedParameter, "AUR2007"@)), u.1)
        } else {
            let q = lex_next(input, u.1);
            if !(q.0 is Colon) {
                (Err(fault(ErrorKind::ExpectedColon, "AUR2002"@)), u.1)
            } else {
                let r = lex_next(input, q.1);
                if !(r.0 is Identifier) {
                    (Err(fault(ErrorKind::ExpectedType, "AUR2003"@)), q.1)
                } else {
                    proof {
                        lemma_lex_next(input, c);
                        lemma_lex_next(input, t.1);
                        lemma_lex_next(input, u.1);
                        lemma_lex_next(input, q.1);
                        lemma_type_after(input, r.0->Identifier_0, r.1);
                    }
                    let ty = type_after(input, r.0->Identifier_0, r.1);
                    params_spec(input, ty.1, acc.push((u.0->Identifier_0, ty.0)))
                }
            }
        }
    }
}

/// The rest of a function declaration after `fn`: its name, `(`, its
/// parameters, an optional `->`, an optional return type (else `void`), and
/// its body up to `end`. `exps` are the exports collected before it; the
/// result holds those collected after it, the function itself last when it
/// is public.
pub open spec fn fn_spec(
    input: Seq<char>,
    c: Cursor,
    public: bool,
    exps: Seq<(ExportType, StmtView)>,
) -> (Result<StmtView, Fault>, Seq<(ExportType, StmtView)>, Cursor)
    decreases measure(input, c), 0int
        when cursor_wf(input, c)
{
    let p = lex_next(input, c);
    if !(p.0 is Identifier) {
        (Err(fault(ErrorKind::ExpectedIdentifier, "AUR2001"@)), exps, c)
    } else {
        let q = lex_next(input, p.1);
        if !(q.0 is LParen) {
            (Err(fault(ErrorKind::ExpectedLParen, "AUR2006"@)), exps, q.1)
        } else {
            let ps = params_spec(input, q.1, seq![]);
            match ps.0 {
                Err(k) => (Err(k), exps, ps.1),
                Ok(params) => {
                    let a = lex_next(input, ps.1);
                    let c2 = if a.0 is Arrow {
                        a.1
                    } else {
                        ps.1
                    };
                    let t = lex_next(input, c2);
                    let rt = if t.0 is Identifier {
                        type_after(input, t.0->Identifier_0, t.1)
                    } else {
                        (TypeView::Void, c2)
                    };
                    proof {
                        lemma_lex_next(input, c);
                        lemma_lex_next(input, p.1);
                        lemma_params_spec(input, q.1, seq![]);
                        lemma_lex_next(input, ps.1);
                        lemma_lex_next(input, c2);
                        if t.0 is Identifier {
                            lemma_type_after(input, t.0->Identifier_0, t.1);
                        }
                    }
                    let b = block_spec(input, rt.1, seq![], exps);
                    let decl = StmtView::FunctionDeclaration(p.0->Identifier_0, params, b.0, rt.0);
                    (
                        Ok(decl),
                        if public {
                            b.1.push((ExportType::Function, decl))
                        } else {
                            b.1
                        },
                        b.2,
                    )
                },
            }
        }
    }
}

/// One statement from `c`: the end of file, an optional `pub`, then a
/// variable, module or function declaration, or else an expression.
pub open spec fn stmt_spec(input: Seq<char>, c: Cursor, exps: Seq<(ExportType, StmtView)>) -> (
    Result<StmtView, Fault>,
    Seq<(ExportType, StmtView)>,
    Cursor,
)
    decreases measure(input, c), 1int
        when cursor_wf(input, c)
{
    let a = lex_next(input, c);
    if a.0 is EOF {
        (Err(fault(ErrorKind::EndOfFile, "AUR1000"@)), exps, a.1)
    } else {
        let public = a.0 is Public;
        let b = if public {
            lex_next(input, a.1)
        } else {
            a
        };
        proof {
            lemma_lex_next(input, c);
            lemma_lex_next(input, a.1);
        }
        if b.0 is Let {
            let r = let_spec(input, b.1);
            (r.0, exps, r.1)
        } else if b.0 is Module {
            let r = module_spec(input, b.1);
            (r.0, exps, r.1)
        } else if b.0 is Function {
            fn_spec(input, b.1, public, exps)
        } else if starts_expr(b.0) {
            let e = expr_from(input, b.0, b.1);
            (
                match e.0 {
                    Ok(v) => Ok(StmtView::ExpressionStatement(v)),
                    Err(k) => Err(k),
                },
                exps,
                e.1,
            )
        } else {
            (Err(Fault { kind: ErrorKind::UnknownKeyword, code: "AUR2008"@, token: Some(b.0) }), exps, b.1)
        }
    }
}

/// The statements of a block from `c` up to and with `end`, after the
/// statements `acc`. A statement that fails ends the block, without `end`.
pub open spec fn block_spec(
    input: Seq<char>,
    c: Cursor,
    acc: Seq<StmtView>,
    exps: Seq<(ExportType, StmtView)>,
) -> (Seq<StmtView>, Seq<(ExportType, StmtView)>, Cursor)
    decreases measure(input, c), 2int,
{
    let p = lex_next(input, c);
    if p.0 is End {
        (acc, exps, p.1)
    } else {
        let s = stmt_spec(input, c, exps);
        match s.0 {
            // A statement that is read moves the cursor (`lemma_stmt_spec`);
            // the test keeps the termination of the recursion evident.
            Ok(v) => if fwd(input, c, s.2) {
                block_spec(input, s.2, acc.push(v), s.1)
            } else {
                (acc.push(v), s.1, s.2)
            },
            Err(_) => (acc, s.1, s.2),
        }
    }
}

/// The statements of a program from `c` after the statements `acc`: the
/// statements up to the end of file, or the first error.
pub open spec fn program_spec(
    input: Seq<char>,
    c: Cursor,
    acc: Seq<StmtView>,
    exps: Seq<(ExportType, StmtView)>,
) -> (Result<Seq<StmtView>, Fault>, Seq<(ExportType, StmtView)>, Cursor)
    decreases measure(input, c)
        when cursor_wf(input, c)
{
    let s = stmt_spec(input, c, exps);
    match s.0 {
        Err(k) => (
            if k.kind is EndOfFile {
                Ok(acc)
            } else {
                Err(k)
            },
            s.1,
            s.2,
        ),
        Ok(v) => {
            proof {
                lemma_stmt_spec(input, c, exps);
            }
            program_spec(input, s.2, acc.push(v), s.1)
        },
    }
}

pub open spec fn stmt_result(r: Result<Statements, Error>, s: Result<StmtView, Fault>) -> bool {
    match r {
        Ok(v) => s == Ok::<StmtView, Fault>(v@),
        Err(err) => s == Err::<StmtView, Fault>(error_view(err)),
    }
}

pub open spec fn params_result(
    r: Result<Vec<FuncParam>, Error>,
    s: Result<Seq<(Seq<char>, TypeView)>, Fault>,
) -> bool {
    match r {
        Ok(v) => s == Ok::<Seq<(Seq<char>, TypeView)>, Fault>(params_view(v@)),
        Err(err) => s == Err::<Seq<(Seq<char>, TypeView)>, Fault>(error_view(err)),
    }
}

pub open spec fn program_result(
    r: Result<Vec<Statements>, Error>,
    s: Result<Seq<StmtView>, Fault>,
) -> bool {
    match r {
        Ok(v) => s == Ok::<Seq<StmtView>, Fault>(stmts_view(v@)),
        Err(err) => s == Err::<Seq<StmtView>, Fault>(error_view(err)),
    }
}


pub proof fn lemma_type_after(input: Seq<char>, w: Seq<char>, c: Cursor)
    requires
        cursor_wf(input, c),
    ensures
        cursor_wf(input, type_after(input, w, c).1),
        c.read_position <= type_after(input, w, c).1.read_position,
{
    lemma_type_suffix_end(input, c.position as int);
}

/// Reading an expression never moves the cursor back, leaves it over the
/// input, and never reports the end of file as such.
pub proof fn lemma_expr_from(input: Seq<char>, t: TokenView, c: Cursor)
    requires
        cursor_wf(input, c),
    ensures
        cursor_wf(input, expr_from(input, t, c).1),
        c.read_position <= expr_from(input, t, c).1.read_position,
        not_eof(expr_from(input, t, c).0),
    decreases measure(input, c), 0int,
{
    if t is Identifier {
        lemma_lex_next(input, c);
        let p = lex_next(input, c);
        if p.0 is LParen {
            lemma_args_from(input, p.1, seq![]);
        }
    }
}

pub proof fn lemma_args_from(input: Seq<char>, c: Cursor, acc: Seq<ExprView>)
    requires
        cursor_wf(input, c),
    ensures
        cursor_wf(input, args_from(input, c, acc).1),
        c.read_position <= args_from(input, c, acc).1.read_position,
        not_eof(args_from(input, c, acc).0),
    decreases measure(input, c), 1int,
{
    lemma_lex_next(input, c);
    let p = lex_next(input, c);
    if !(p.0 is EOF) && !(p.0 is RParen) {
        let c1 = if p.0 is Comma {
            p.1
        } else {
            c
        };
        lemma_lex_next(input, c1);
        let f = lex_next(input, c1);
        if !(f.0 is EOF) {
            lemma_expr_from(input, f.0, f.1);
            let e = expr_from(input, f.0, f.1);
            if e.0 is Ok && fwd(input, c, e.1) {
                lemma_args_from(input, e.1, acc.push(e.0->Ok_0));
            }
        }
    }
}

pub proof fn lemma_let_spec(input: Seq<char>, c: Cursor)
    requires
        cursor_wf(input, c),
    ensures
        cursor_wf(input, let_spec(input, c).1),
        c.read_position <= let_spec(input, c).1.read_position,
        not_eof(let_spec(input, c).0),
{
    lemma_lex_next(input, c);
    let p = lex_next(input, c);
    lemma_lex_next(input, p.1);
    let q = lex_next(input, p.1);
    lemma_lex_next(input, q.1);
    let r = lex_next(input, q.1);
    if r.0 is Identifier {
        lemma_type_after(input, r.0->Identifier_0, r.1);
        let ty = type_after(input, r.0->Identifier_0, r.1);
        lemma_lex_next(input, ty.1);
        let a = lex_next(input, ty.1);
        lemma_lex_next(input, a.1);
        let f = lex_next(input, a.1);
        lemma_expr_from(input, f.0, f.1);
    }
}

pub proof fn lemma_params_spec(input: Seq<char>, c: Cursor, acc: Seq<(Seq<char>, TypeView)>)
    requires
        cursor_wf(input, c),
    ensures
        cursor_wf(input, params_spec(input, c, acc).1),
        c.read_position <= params_spec(input, c, acc).1.read_position,
        not_eof(params_spec(input, c, acc).0),
    decreases measure(input, c),
{
    lemma_lex_next(input, c);
    let t = lex_next(input, c);
    lemma_lex_next(input, t.1);
    let u = if t.0 is Comma {
        lex_next(input, t.1)
    } else {
        t
    };
    lemma_lex_next(input, u.1);
    let q = lex_next(input, u.1);
    lemma_lex_next(input, q.1);
    let r = lex_next(input, q.1);
    if r.0 is Identifier {
        lemma_type_after(input, r.0->Identifier_0, r.1);
        let ty = type_after(input, r.0->Identifier_0, r.1);
        if !(t.0 is RParen) && u.0 is Identifier && q.0 is Colon && fwd(input, c, ty.1) {
            lemma_params_spec(input, ty.1, acc.push((u.0->Identifier_0, ty.0)));
        }
    }
}

pub proof fn lemma_fn_spec(
    input: Seq<char>,
    c: Cursor,
    public: bool,
    exps: Seq<(ExportType, StmtView)>,
)
    requires
        cursor_wf(input, c),
    ensures
        cursor_wf(input, fn_spec(input, c, public, exps).2),
        c.read_position <= fn_spec(input, c, public, exps).2.read_position,
        not_eof(fn_spec(input, c, public, exps).0),
    decreases measure(input, c), 0int,
{
    lemma_lex_next(input, c);
    let p = lex_next(input, c);
    lemma_lex_next(input, p.1);
    let q = lex_next(input, p.1);
    lemma_params_spec(input, q.1, seq![]);
    let ps = params_spec(input, q.1, seq![]);
    lemma_lex_next(input, ps.1);
    let a = lex_next(input, ps.1);
    let c2 = if a.0 is Arrow {
        a.1
    } else {
        ps.1
    };
    lemma_lex_next(input, c2);
    let t = lex_next(input, c2);
    if t.0 is Identifier {
        lemma_type_after(input, t.0->Identifier_0, t.1);
    }
    let rt = if t.0 is Identifier {
        type_after(input, t.0->Identifier_0, t.1)
    } else {
        (TypeView::Void, c2)
    };
    if p.0 is Identifier && q.0 is LParen && ps.0 is Ok && fwd(input, c, rt.1) {
        lemma_block_spec(input, rt.1, seq![], exps);
    }
}

/// A statement never moves the cursor back and leaves it over the input; one
/// that is read moves it forward; the end of file is reported only when the
/// next token is the end-of-file token.
pub proof fn lemma_stmt_spec(input: Seq<char>, c: Cursor, exps: Seq<(ExportType, StmtView)>)
    requires
        cursor_wf(input, c),
    ensures
        cursor_wf(input, stmt_spec(input, c, exps).2),
        c.read_position <= stmt_spec(input, c, exps).2.read_position,
        stmt_spec(input, c, exps).0 is Ok ==> c.read_position < stmt_spec(input, c, exps).2.read_position,
        !not_eof(stmt_spec(input, c, exps).0) ==> lex_next(input, c).0 is EOF && stmt_spec(input, c, exps).2 == lex_next(input, c).1,
    decreases measure(input, c), 1int,
{
    lemma_lex_next(input, c);
    let a = lex_next(input, c);
    if !(a.0 is EOF) {
        lemma_lex_next(input, a.1);
        let b = if a.0 is Public {
            lex_next(input, a.1)
        } else {
            a
        };
        if fwd(input, c, b.1) {
            if b.0 is Let {
                lemma_let_spec(input, b.1);
            } else if b.0 is Module {
                lemma_lex_next(input, b.1);
            } else if b.0 is Function {
                lemma_fn_spec(input, b.1, a.0 is Public, exps);
            } else if starts_expr(b.0) {
                lemma_expr_from(input, b.0, b.1);
            }
        }
    }
}

pub proof fn lemma_block_spec(
    input: Seq<char>,
    c: Cursor,
    acc: Seq<StmtView>,
    exps: Seq<(ExportType, StmtView)>,
)
    requires
        cursor_wf(input, c),
    ensures
        cursor_wf(input, block_spec(input, c, acc, exps).2),
        c.read_position <= block_spec(input, c, acc, exps).2.read_position,
    decreases measure(input, c), 2int,
{
    lemma_lex_next(input, c);
    let p = lex_next(input, c);
    if !(p.0 is End) {
        lemma_stmt_spec(input, c, exps);
        let s = stmt_spec(input, c, exps);
        if s.0 is Ok && fwd(input, c, s.2) {
            lemma_block_spec(input, s.2, acc.push(s.0->Ok_0), s.1);
        }
    }
}

/// A parse of an input that holds no NUL character, when it succeeds, has
/// read the whole input: the cursor ends on the end of input.
pub proof fn law_parse_consumes_input(
    input: Seq<char>,
    c: Cursor,
    acc: Seq<StmtView>,
    exps: Seq<(ExportType, StmtView)>,
)
    requires
        cursor_wf(input, c),
        forall|i: int| 0 <= i < input.len() ==> input[i] != '\0',
        program_spec(input, c, acc, exps).0 is Ok,
    ensures
        program_spec(input, c, acc, exps).2.position == input.len(),
    decreases measure(input, c),
{
    lemma_stmt_spec(input, c, exps);
    let s = stmt_spec(input, c, exps);
    if s.0 is Ok {
        law_parse_consumes_input(input, s.2, acc.push(s.0->Ok_0), s.1);
    } else {
        lemma_lex_next_eof(input, c);
    }
}

/// A literal token that reads as an expression on its own: a string, a
/// valid number, a boolean, or a name.
pub open spec fn literal_token(t: TokenView) -> bool {
    match t {
        TokenView::Str(_) | TokenView::True | TokenView::False | TokenView::Identifier(_) => true,
        TokenView::Int(s) => int_text_ok(s),
        TokenView::Float(s) => float_text_ok(s),
        _ => false,
    }
}

/// From `c` on, the tokens are literal tokens up to the end of file, and no
/// name is followed by `(`.
pub open spec fn literal_stream(input: Seq<char>, c: Cursor) -> bool
    decreases measure(input, c),
{
    let a = lex_next(input, c);
    ||| a.0 is EOF
    ||| {
        &&& literal_token(a.0)
        &&& (a.0 is Identifier ==> !(lex_next(input, a.1).0 is LParen))
        &&& fwd(input, c, a.1)
        &&& literal_stream(input, a.1)
    }
}

/// An input made of literal tokens and separators, without NUL characters,
/// parses without error into one expression statement per token, and the
/// parse reads the whole input.
pub proof fn law_literal_input_parses(
    input: Seq<char>,
    c: Cursor,
    acc: Seq<StmtView>,
    exps: Seq<(ExportType, StmtView)>,
)
    requires
        cursor_wf(input, c),
        forall|i: int| 0 <= i < input.len() ==> input[i] != '\0',
        literal_stream(input, c),
    ensures
        program_spec(input, c, acc, exps).0 is Ok,
        program_spec(input, c, acc, exps).2.position == input.len(),
    decreases measure(input, c),
{
    lemma_lex_next(input, c);
    let a = lex_next(input, c);
    if a.0 is EOF {
        lemma_lex_next_eof(input, c);
    } else {
        let s = stmt_spec(input, c, exps);
        assert(s.2 == a.1);
        assert(s.0 is Ok);
        law_literal_input_parses(input, a.1, acc.push(s.0->Ok_0), s.1);
    }
}

/// The parser: a lexer it drives, and the exports it has collected.
pub struct Parser {
    pub lexer: Lexer,
    pub exports: Vec<Export>,
}

impl Parser {
    /// The lexer's cursor stands over its input.
    pub open spec fn wf(&self) -> bool {
        self.lexer.wf()
    }

    /// The input that the parser reads.
    pub open spec fn input(&self) -> Seq<char> {
        self.lexer.input@
    }

    /// The cursor of the parser's lexer.
    pub open spec fn cursor(&self) -> Cursor {
        self.lexer.cursor
    }

    /// A parser over `lexer`, with no exports yet.
    pub fn new(lexer: Lexer) -> (r: Self)
        ensures
            r.lexer == lexer,
            r.exports@ == Seq::<Export>::empty(),
    {
        Parser { lexer, exports: Vec::new() }
    }

    /// An error of `kind` with `code`, the message `text` followed by the
    /// position of the cursor, and the offending token if any.
    fn fail(&self, kind: ErrorKind, code: &str, text: &str, token: Option<Token>) -> (r: Error)
        requires
            self.wf(),
        ensures
            error_view(r) == (Fault {
                kind,
                code: code@,
                token: match token {
                    Some(t) => Some(t@),
                    None => None,
                },
            }),
    {
        Error { code: code.to_owned(), kind, message: print_error(text, &self.lexer), token }
    }

    /// Parses one expression: reads its first token and goes on from there.
    pub fn parse_expr(&mut self) -> (r: Result<Expression, Error>)
        requires
            old(self).wf(),
        ensures
            final(self).wf(),
            final(self).lexer.input == old(self).lexer.input,
            final(self).exports == old(self).exports,
            ({
                let t = lex_next(old(self).input(), old(self).cursor());
                let e = expr_from(old(self).input(), t.0, t.1);
                expr_result(r, e.0) && final(self).cursor() == e.1
            }),
    {
        let t = self.lexer.next_token();
        self.parse_expr_from(t)
    }

    /// Parses the expression that begins with the token `t`, already read.
    pub fn parse_expr_from(&mut self, t: Token) -> (r: Result<Expression, Error>)
        requires
            old(self).wf(),
        ensures
            final(self).wf(),
            final(self).lexer.input == old(self).lexer.input,
            final(self).exports == old(self).exports,
            expr_result(r, expr_from(old(self).input(), t@, old(self).cursor()).0),
            final(self).cursor() == expr_from(old(self).input(), t@, old(self).cursor()).1,
        decreases measure(self.input(), self.cursor()), 0int,
    {
        match t {
            Token::String { val } => Ok(Expression::StringLiteral { val: string_from_chars(&val) }),
            Token::Int { val } => match parse_int_text(&val) {
                Some(x) => Ok(Expression::IntLiteral { val: x }),
                None => Err(self.fail(ErrorKind::ExpressionError, "AUR7001", "malformed numeric literal", None)),
            },
            Token::Float { val } => if float_text_valid(&val) {
                Ok(Expression::FloatLiteral { val: string_from_chars(&val) })
            } else {
                Err(self.fail(ErrorKind::ExpressionError, "AUR7001", "malformed numeric literal", None))
            },
            Token::True => Ok(Expression::BooleanLiteral { val: true }),
            Token::False => Ok(Expression::BooleanLiteral { val: false }),
            Token::Identifier { val } => {
                let name = string_from_chars(&val);
                let ghost input = self.input();
                proof {
                    lemma_lex_next(input, self.cursor());
                }
                let peeked = self.lexer.peak_next_token();
                if !matches!(peeked, Token::LParen { .. }) {
                    return Ok(Expression::Identifier { val: name });
                }
                self.lexer.next_token();
                match self.parse_args() {
                    Ok(params) => {
                        let r = Expression::FunctionCall { name, params };
                        proof {
                            lemma_call_view(val@, params, r);
                        }
                        Ok(r)
                    },
                    Err(e) => Err(e),
                }
            },
            _ => Err(self.fail(ErrorKind::ExpressionError, "AUR7000", "can not parse this token", Some(t))),
        }
    }

    /// Parses the arguments of a call after its `(`, up to and with its `)`.
    fn parse_args(&mut self) -> (r: Result<Vec<Expression>, Error>)
        requires
            old(self).wf(),
        ensures
            final(self).wf(),
            final(self).lexer.input == old(self).lexer.input,
            final(self).exports == old(self).exports,
            args_result(r, args_from(old(self).input(), old(self).cursor(), seq![]).0),
            final(self).cursor() == args_from(old(self).input(), old(self).cursor(), seq![]).1,
        decreases measure(self.input(), self.cursor()), 1int,
    {
        let ghost input = self.input();
        let ghost c0 = self.cursor();
        let mut params: Vec<Expression> = Vec::new();
        assert(exprs_view(params@) =~= Seq::<ExprView>::empty());
        loop
            invariant
                self.wf(),
                self.input() == input,
                self.lexer.input == old(self).lexer.input,
                self.exports == old(self).exports,
                input == old(self).input(),
                c0 == old(self).cursor(),
                c0.read_position <= self.cursor().read_position,
                args_from(input, self.cursor(), exprs_view(params@)) == args_from(
                    input,
                    c0,
                    seq![],
                ),
            decreases measure(input, self.cursor()),
        {
            let ghost c = self.cursor();
            proof {
                lemma_lex_next(input, c);
            }
            let peeked = self.lexer.peak_next_token();
            if matches!(peeked, Token::EOF) {
                return Err(self.fail(ErrorKind::ExpressionError, "AUR3000", "unexpected end of file", None));
            }
            if matches!(peeked, Token::RParen { .. }) {
                self.lexer.next_token();
                return Ok(params);
            }
            if matches!(peeked, Token::Comma { .. }) {
                self.lexer.next_token();
            }
            let ghost c1 = self.cursor();
            proof {
                lemma_lex_next(input, c1);
            }
            if matches!(self.lexer.peak_next_token(), Token::EOF) {
                return Err(self.fail(ErrorKind::ExpressionError, "AUR3000", "unexpected end of file", None));
            }
            let first = self.lexer.next_token();
            proof {
                lemma_expr_from(input, first@, self.cursor());
            }
            match self.parse_expr_from(first) {
                Ok(e) => {
                    let ghost old_params = params@;
                    params.push(e);
                    assert(exprs_view(params@) =~= exprs_view(old_params).push(e@));
                },
                Err(err) => {
                    return Err(err);
                },
            }
        }
    }

    /// Reads the rest of a type annotation that begins with the name `word`,
    /// whose token has just been read, and resolves it.
    fn read_type(&mut self, word: Vec<char>) -> (r: Type)
        requires
            old(self).wf(),
        ensures
            final(self).wf(),
            final(self).lexer.input == old(self).lexer.input,
            final(self).exports == old(self).exports,
            (r@, final(self).cursor()) == type_after(old(self).input(), word@, old(self).cursor()),
    {
        let suffix = self.lexer.read_type_suffix();
        let mut text = word;
        let ghost start = text@;
        let mut i: usize = 0;
        while i < suffix.len()
            invariant
                i <= suffix@.len(),
                text@ == start + suffix@.subrange(0, i as int),
            decreases suffix@.len() - i,
        {
            text.push(suffix[i]);
            assert(suffix@.subrange(0, i + 1) == suffix@.subrange(0, i as int).push(suffix@[i as int]));
            i = i + 1;
        }
        assert(suffix@.subrange(0, i as int) == suffix@);
        Type::parse_type(string_from_chars(&text))
    }

    /// Parses the rest of a variable declaration after `let`.
    fn parse_let(&mut self) -> (r: Result<Statements, Error>)
        requires
            old(self).wf(),
        ensures
            final(self).wf(),
            final(self).lexer.input == old(self).lexer.input,
            final(self).exports == old(self).exports,
            stmt_result(r, let_spec(old(self).input(), old(self).cursor()).0),
            final(self).cursor() == let_spec(old(self).input(), old(self).cursor()).1,
    {
        let ghost input = self.input();
        proof {
            lemma_lex_next(input, self.cursor());
        }
        let name = match self.lexer.peak_next_token() {
            Token::Identifier { val } => val,
            _ => {
                return Err(self.fail(ErrorKind::ExpectedIdentifier, "AUR2001", "Expected an identifier", None));
            },
        };
        self.lexer.next_token();
        proof {
            lemma_lex_next(input, self.cursor());
        }
        if !matches!(self.lexer.peak_next_token(), Token::Colon { .. }) {
            return Err(self.fail(ErrorKind::ExpectedColon, "AUR2002", "Expected ':'", None));
        }
        self.lexer.next_token();
        proof {
            lemma_lex_next(input, self.cursor());
        }
        let annotation = match self.lexer.peak_next_token() {
            Token::Identifier { val } => val,
            _ => {
                return Err(self.fail(ErrorKind::ExpectedType, "AUR2003", "expected type", None));
            },
        };
        self.lexer.next_token();
        let ty = self.read_type(annotation);
        proof {
            lemma_lex_next(input, self.cursor());
        }
        if !matches!(self.lexer.peak_next_token(), Token::Assign { .. }) {
            return Err(self.fail(ErrorKind::ExpectedAssign, "AUR2004", "Expected assignment operator '='", None));
        }
        self.lexer.next_token();
        match self.parse_expr() {
            Ok(value) => Ok(Statements::VariableDeclaration { name: string_from_chars(&name), value, ty }),
            Err(e) => Err(e),
        }
    }

    /// Parses the rest of a module declaration after `module`.
    fn parse_module(&mut self) -> (r: Result<Statements, Error>)
        requires
            old(self).wf(),
        ensures
            final(self).wf(),
            final(self).lexer.input == old(self).lexer.input,
            final(self).exports == old(self).exports,
            stmt_result(r, module_spec(old(self).input(), old(self).cursor()).0),
            final(self).cursor() == module_spec(old(self).input(), old(self).cursor()).1,
    {
        match self.lexer.peak_next_token() {
            Token::Identifier { val } => {
                self.lexer.next_token();
                Ok(Statements::ModuleDeclaration { name: string_from_chars(&val) })
            },
            _ => Err(self.fail(ErrorKind::ExpectedModuleName, "AUR2005", "Expected module name", None)),
        }
    }

    /// Parses the parameters of a function after its `(`, up to and with `)`.
    fn parse_params(&mut self) -> (r: Result<Vec<FuncParam>, Error>)
        requires
            old(self).wf(),
        ensures
            final(self).wf(),
            final(self).lexer.input == old(self).lexer.input,
            final(self).exports == old(self).exports,
            params_result(r, params_spec(old(self).input(), old(self).cursor(), seq![]).0),
            final(self).cursor() == params_spec(old(self).input(), old(self).cursor(), seq![]).1,
    {
        let ghost input = self.input();
        let ghost c0 = self.cursor();
        let mut params: Vec<FuncParam> = Vec::new();
        assert(params_view(params@) =~= Seq::<(Seq<char>, TypeView)>::empty());
        loop
            invariant
                self.wf(),
                self.input() == input,
                self.lexer.input == old(self).lexer.input,
                self.exports == old(self).exports,
                input == old(self).input(),
                c0 == old(self).cursor(),
                params_spec(input, self.cursor(), params_view(params@)) == params_spec(
                    input,
                    c0,
                    seq![],
                ),
            decreases measure(input, self.cursor()),
        {
            let ghost before = self.cursor();
            proof {
                lemma_lex_next(input, self.cursor());
            }
            let mut t = self.lexer.next_token();
            if matches!(t, Token::RParen { .. }) {
                return Ok(params);
            }
            if matches!(t, Token::Comma { .. }) {
                proof {
                    lemma_lex_next(input, self.cursor());
                }
                t = self.lexer.next_token();
            }
            let name = match t {
                Token::Identifier { val } => val,
                _ => {
                    return Err(self.fail(ErrorKind::ExpectedParameter, "AUR2007", "Expected a parameter name", None));
                },
            };
            proof {
                lemma_lex_next(input, self.cursor());
            }
            if !matches!(self.lexer.peak_next_token(), Token::Colon { .. }) {
                return Err(self.fail(ErrorKind::ExpectedColon, "AUR2002", "Expected ':'", None));
            }
            self.lexer.next_token();
            proof {
                lemma_lex_next(input, self.cursor());
            }
            let annotation = match self.lexer.peak_next_token() {
                Token::Identifier { val } => val,
                _ => {
                    return Err(self.fail(ErrorKind::ExpectedType, "AUR2003", "expected type", None));
                },
            };
            self.lexer.next_token();
            let ghost at = self.cursor();
            let ghost word = annotation@;
            let ty = self.read_type(annotation);
            proof {
                lemma_type_after(input, word, at);
            }
            assert(fwd(input, before, self.cursor()));
            let ghost old_params = params@;
            let param = FuncParam { name: string_from_chars(&name), ty };
            params.push(param);
            assert(params_view(params@) =~= params_view(old_params).push((name@, ty@)));
        }
    }

    /// Parses the rest of a function declaration after `fn`; a public one is
    /// also added to the exports, after those of its body.
    fn parse_function(&mut self, public: bool) -> (r: Result<Statements, Error>)
        requires
            old(self).wf(),
        ensures
            final(self).wf(),
            final(self).lexer.input == old(self).lexer.input,
            ({
                let f = fn_spec(
                    old(self).input(),
                    old(self).cursor(),
                    public,
                    exports_view(old(self).exports@),
                );
                &&& stmt_result(r, f.0)
                &&& exports_view(final(self).exports@) == f.1
                &&& final(self).cursor() == f.2
            }),
        decreases measure(self.input(), self.cursor()), 0int,
    {
        let ghost input = self.input();
        let ghost entry = self.cursor();
        proof {
            lemma_lex_next(input, self.cursor());
        }
        let name = match self.lexer.peak_next_token() {
            Token::Identifier { val } => val,
            _ => {
                return Err(self.fail(ErrorKind::ExpectedIdentifier, "AUR2001", "Expected an identifier", None));
            },
        };
        self.lexer.next_token();
        proof {
            lemma_lex_next(input, self.cursor());
        }
        if !matches!(self.lexer.next_token(), Token::LParen { .. }) {
            return Err(self.fail(ErrorKind::ExpectedLParen, "AUR2006", "expected '('", None));
        }
        proof {
            lemma_params_spec(input, self.cursor(), seq![]);
        }
        let params = match self.parse_params() {
            Ok(params) => params,
            Err(e) => {
                return Err(e);
            },
        };
        proof {
            lemma_lex_next(input, self.cursor());
        }
        if matches!(self.lexer.peak_next_token(), Token::Arrow { .. }) {
            self.lexer.next_token();
        }
        proof {
            lemma_lex_next(input, self.cursor());
        }
        let return_type = match self.lexer.peak_next_token() {
            Token::Identifier { val } => {
                self.lexer.next_token();
                proof {
                    lemma_type_after(input, val@, self.cursor());
                }
                self.read_type(val)
            },
            _ => Type::Void,
        };
        assert(fwd(input, entry, self.cursor()));
        let body = self.parse_block();
        let ghost body_seq = body@;
        let ghost params_seq = params@;
        let func = Statements::FunctionDeclaration {
            name: string_from_chars(&name),
            params,
            body,
            return_type,
        };
        proof {
            lemma_fn_decl_view(params, body, func);
        }
        if public {
            let ghost old_exports = self.exports@;
            self.exports.push(Export { kind: ExportType::Function, statement: clone_stmt(&func) });
            assert(exports_view(self.exports@) =~= exports_view(old_exports).push(
                (ExportType::Function, func@),
            ));
        }
        Ok(func)
    }

    /// Parses one statement: the end of file gives the `EndOfFile` error; an
    /// optional `pub` marks a function as exported.
    pub fn parse_statement(&mut self) -> (r: Result<Statements, Error>)
        requires
            old(self).wf(),
        ensures
            final(self).wf(),
            final(self).lexer.input == old(self).lexer.input,
            ({
                let s = stmt_spec(
                    old(self).input(),
                    old(self).cursor(),
                    exports_view(old(self).exports@),
                );
                &&& stmt_result(r, s.0)
                &&& exports_view(final(self).exports@) == s.1
                &&& final(self).cursor() == s.2
            }),
        decreases measure(self.input(), self.cursor()), 1int,
    {
        let ghost input = self.input();
        let ghost entry = self.cursor();
        proof {
            lemma_lex_next(input, self.cursor());
        }
        let mut t = self.lexer.next_token();
        if matches!(t, Token::EOF) {
            return Err(self.fail(ErrorKind::EndOfFile, "AUR1000", "Reached end of file", None));
        }
        let mut public = false;
        if matches!(t, Token::Public) {
            public = true;
            proof {
                lemma_lex_next(input, self.cursor());
            }
            t = self.lexer.next_token();
        }
        assert(fwd(input, entry, self.cursor()));
        match t {
            Token::Let => self.parse_let(),
            Token::Module => self.parse_module(),
            Token::Function => self.parse_function(public),
            Token::String { .. } | Token::Int { .. } | Token::Float { .. } | Token::True
            | Token::False | Token::Identifier { .. } => match self.parse_expr_from(t) {
                Ok(expr) => Ok(Statements::ExpressionStatement { expr }),
                Err(e) => Err(e),
            },
            _ => Err(self.fail(ErrorKind::UnknownKeyword, "AUR2008", "Unknown keyword found", Some(t))),
        }
    }

    /// Parses the statements of a function body up to and with `end`. A
    /// statement that fails ends the body with what was read before it.
    pub fn parse_block(&mut self) -> (r: Vec<Statements>)
        requires
            old(self).wf(),
        ensures
            final(self).wf(),
            final(self).lexer.input == old(self).lexer.input,
            block_spec(old(self).input(), old(self).cursor(), seq![], exports_view(old(self).exports@))
                == (stmts_view(r@), exports_view(final(self).exports@), final(self).cursor()),
        decreases measure(self.input(), self.cursor()), 2int,
    {
        let ghost input = self.input();
        let ghost c0 = self.cursor();
        let mut block: Vec<Statements> = Vec::new();
        assert(stmts_view(block@) =~= Seq::<StmtView>::empty());
        loop
            invariant
                self.wf(),
                self.input() == input,
                self.lexer.input == old(self).lexer.input,
                input == old(self).input(),
                c0 == old(self).cursor(),
                c0.read_position <= self.cursor().read_position,
                block_spec(input, self.cursor(), stmts_view(block@), exports_view(self.exports@))
                    == block_spec(input, c0, seq![], exports_view(old(self).exports@)),
            decreases measure(input, self.cursor()),
        {
            proof {
                lemma_lex_next(input, self.cursor());
                lemma_stmt_spec(input, self.cursor(), exports_view(self.exports@));
            }
            if matches!(self.lexer.peak_next_token(), Token::End) {
                self.lexer.next_token();
                return block;
            }
            match self.parse_statement() {
                Ok(statement) => {
                    let ghost old_block = block@;
                    block.push(statement);
                    assert(stmts_view(block@) =~= stmts_view(old_block).push(statement@));
                },
                Err(_) => {
                    return block;
                },
            }
        }
    }

    /// Parses a whole program: statements up to the end of file, or the
    /// first error.
    pub fn parse(&mut self) -> (r: Result<Vec<Statements>, Error>)
        requires
            old(self).wf(),
        ensures
            final(self).wf(),
            final(self).lexer.input == old(self).lexer.input,
            ({
                let p = program_spec(
                    old(self).input(),
                    old(self).cursor(),
                    seq![],
                    exports_view(old(self).exports@),
                );
                &&& program_result(r, p.0)
                &&& exports_view(final(self).exports@) == p.1
                &&& final(self).cursor() == p.2
            }),
    {
        let ghost input = self.input();
        let ghost c0 = self.cursor();
        let mut program: Vec<Statements> = Vec::new();
        assert(stmts_view(program@) =~= Seq::<StmtView>::empty());
        loop
            invariant
                self.wf(),
                self.input() == input,
                self.lexer.input == old(self).lexer.input,
                input == old(self).input(),
                c0 == old(self).cursor(),
                program_spec(input, self.cursor(), stmts_view(program@), exports_view(self.exports@))
                    == program_spec(input, c0, seq![], exports_view(old(self).exports@)),
            decreases measure(input, self.cursor()),
        {
            proof {
                lemma_stmt_spec(input, self.cursor(), exports_view(self.exports@));
            }
            match self.parse_statement() {
                Ok(statement) => {
                    let ghost old_program = program@;
                    program.push(statement);
                    assert(stmts_view(program@) =~= stmts_view(old_program).push(statement@));
                },
                Err(e) => {
                    if matches!(e.kind, ErrorKind::EndOfFile) {
                        return Ok(program);
                    }
                    return Err(e);
                },
            }
        }
    }
}

} // verus!
