//! The syntax tree that the parser builds.
use vstd::prelude::*;

use crate::types::{Type, TypeView};

verus! {

/// An expression: a literal, a reference to a name, or a call.
#[derive(Debug, PartialEq)]
pub enum Expression {
    StringLiteral { val: String },
    Identifier { val: String },
    IntLiteral { val: i64 },
    BooleanLiteral { val: bool },
    /// A float literal, kept as its checked source text.
    FloatLiteral { val: String },
    FunctionCall { name: String, params: Vec<Expression> },
}

/// An expression as a mathematical value.
pub enum ExprView {
    StringLiteral(Seq<char>),
    Identifier(Seq<char>),
    IntLiteral(int),
    BooleanLiteral(bool),
    FloatLiteral(Seq<char>),
    FunctionCall(Seq<char>, Seq<ExprView>),
}

pub open spec fn expr_view(e: Expression) -> ExprView
    decreases e,
{
    match e {
        Expression::StringLiteral { val } => ExprView::StringLiteral(val@),
        Expression::Identifier { val } => ExprView::Identifier(val@),
        Expression::IntLiteral { val } => ExprView::IntLiteral(val as int),
        Expression::BooleanLiteral { val } => ExprView::BooleanLiteral(val),
        Expression::FloatLiteral { val } => ExprView::FloatLiteral(val@),
        Expression::FunctionCall { name, params } => ExprView::FunctionCall(
            name@,
            Seq::new(
                params@.len(),
                |i: int|
                    if 0 <= i < params.len() {
                        expr_view(params[i])
                    } else {
                        ExprView::BooleanLiteral(false)
                    },
            ),
        ),
    }
}

impl View for Expression {
    type V = ExprView;

    open spec fn view(&self) -> ExprView {
        expr_view(*self)
    }
}


/// A parameter of a function: its name and its declared type.
#[derive(Debug, PartialEq)]
pub struct FuncParam {
    pub name: String,
    pub ty: Type,
}

pub open spec fn param_view(p: FuncParam) -> (Seq<char>, TypeView) {
    (p.name@, p.ty@)
}

/// A statement of the language.
#[derive(Debug, PartialEq)]
pub enum Statements {
    VariableDeclaration { name: String, value: Expression, ty: Type },
    ModuleDeclaration { name: String },
    FunctionDeclaration {
        name: String,
        params: Vec<FuncParam>,
        body: Vec<Statements>,
        return_type: Type,
    },
    ExpressionStatement { expr: Expression },
}

/// A statement as a mathematical value.
pub enum StmtView {
    VariableDeclaration(Seq<char>, ExprView, TypeView),
    ModuleDeclaration(Seq<char>),
    FunctionDeclaration(Seq<char>, Seq<(Seq<char>, TypeView)>, Seq<StmtView>, TypeView),
    ExpressionStatement(ExprView),
}

pub open spec fn stmt_view(s: Statements) -> StmtView
    decreases s,
{
    match s {
        Statements::VariableDeclaration { name, value, ty } => StmtView::VariableDeclaration(
            name@,
            value@,
            ty@,
        ),
        Statements::ModuleDeclaration { name } => StmtView::ModuleDeclaration(name@),
        Statements::FunctionDeclaration { name, params, body, return_type } =>
            StmtView::FunctionDeclaration(
                name@,
                params@.map_values(|p: FuncParam| param_view(p)),
                Seq::new(
                    body@.len(),
                    |i: int|
                        if 0 <= i < body.len() {
                            stmt_view(body[i])
                        } else {
                            StmtView::ModuleDeclaration(seq![])
                        },
                ),
                return_type@,
            ),
        Statements::ExpressionStatement { expr } => StmtView::ExpressionStatement(expr@),
    }
}

impl View for Statements {
    type V = StmtView;

    open spec fn view(&self) -> StmtView {
        stmt_view(*self)
    }
}

/// The views of a list of statements.
pub open spec fn stmts_view(v: Seq<Statements>) -> Seq<StmtView> {
    v.map_values(|s: Statements| stmt_view(s))
}

/// The views of a list of expressions.
pub open spec fn exprs_view(v: Seq<Expression>) -> Seq<ExprView> {
    v.map_values(|e: Expression| expr_view(e))
}

/// The views of a list of parameters.
pub open spec fn params_view(v: Seq<FuncParam>) -> Seq<(Seq<char>, TypeView)> {
    v.map_values(|p: FuncParam| param_view(p))
}

/// The view of a call, with its arguments as a list of views.
pub proof fn lemma_call_view(name: Seq<char>, params: Vec<Expression>, e: Expression)
    requires
        e matches Expression::FunctionCall { name: n, params: p } && n@ == name && p == params,
    ensures
        expr_view(e) == ExprView::FunctionCall(name, exprs_view(params@)),
{
    let args = expr_view(e)->FunctionCall_1;
    assert(args =~= exprs_view(params@));
}

/// The view of a function declaration, with its parameters and its body as
/// lists of views.
pub proof fn lemma_fn_decl_view(params: Vec<FuncParam>, body: Vec<Statements>, s: Statements)
    requires
        s matches Statements::FunctionDeclaration { params: p, body: b, .. } && p == params && b
            == body,
    ensures
        s matches Statements::FunctionDeclaration { name, return_type, .. } && stmt_view(s)
            == StmtView::FunctionDeclaration(
            name@,
            params_view(params@),
            stmts_view(body@),
            return_type@,
        ),
{
    let v = stmt_view(s);
    assert(v->FunctionDeclaration_2 =~= stmts_view(body@));
    assert(v->FunctionDeclaration_1 =~= params_view(params@));
}

/// What an exported declaration is.
#[derive(Debug, Clone, Copy, PartialEq, Eq, Structural)]
pub enum ExportType {
    Const,
    Function,
}

/// A declaration marked public, handed to the back end beside the program.
#[derive(Debug, PartialEq)]
pub struct Export {
    pub kind: ExportType,
    pub statement: Statements,
}

pub open spec fn export_view(e: Export) -> (ExportType, StmtView) {
    (e.kind, e.statement@)
}

/// The views of a list of exports.
pub open spec fn exports_view(v: Seq<Export>) -> Seq<(ExportType, StmtView)> {
    v.map_values(|e: Export| export_view(e))
}

/// The finished syntax tree: the top-level statements and the exports.
#[derive(Debug, PartialEq)]
pub struct Program {
    pub statements: Vec<Statements>,
    pub exports: Vec<Export>,
}

impl Program {
    /// Assembles a program from its statements and its exports.
    pub fn compile(app: (Vec<Statements>, Vec<Export>)) -> (r: Self)
        ensures
            r.statements == app.0,
            r.exports == app.1,
    {
        Program { statements: app.0, exports: app.1 }
    }
}

/// A copy of an expression.
pub fn clone_expr(e: &Expression) -> (r: Expression)
    ensures
        expr_view(r) == expr_view(*e),
    decreases e,
{
    match e {
        Expression::StringLiteral { val } => Expression::StringLiteral { val: val.clone() },
        Expression::Identifier { val } => Expression::Identifier { val: val.clone() },
        Expression::IntLiteral { val } => Expression::IntLiteral { val: *val },
        Expression::BooleanLiteral { val } => Expression::BooleanLiteral { val: *val },
        Expression::FloatLiteral { val } => Expression::FloatLiteral { val: val.clone() },
        Expression::FunctionCall { name, params } => {
            let copied = clone_exprs(params);
            let r = Expression::FunctionCall { name: name.clone(), params: copied };
            proof {
                lemma_call_view(name@, *params, *e);
                lemma_call_view(name@, copied, r);
                assert(exprs_view(copied@) =~= exprs_view(params@));
            }
            r
        },
    }
}

/// A copy of a list of expressions.
pub fn clone_exprs(v: &Vec<Expression>) -> (r: Vec<Expression>)
    ensures
        r@.len() == v@.len(),
        forall|i: int| 0 <= i < v@.len() ==> #[trigger] expr_view(r@[i]) == expr_view(v@[i]),
    decreases v,
{
    let mut r: Vec<Expression> = Vec::new();
    let mut i: usize = 0;
    while i < v.len()
        invariant
            i <= v@.len(),
            r@.len() == i,
            forall|j: int| 0 <= j < i ==> #[trigger] expr_view(r@[j]) == expr_view(v@[j]),
        decreases v@.len() - i,
    {
        proof {
            assert(decreases_to!(v => v[i as int]));
        }
        r.push(clone_expr(&v[i]));
        i = i + 1;
    }
    r
}

/// A copy of a statement.
pub fn clone_stmt(s: &Statements) -> (r: Statements)
    ensures
        stmt_view(r) == stmt_view(*s),
    decreases s,
{
    match s {
        Statements::VariableDeclaration { name, value, ty } => Statements::VariableDeclaration {
            name: name.clone(),
            value: clone_expr(value),
            ty: ty.clone(),
        },
        Statements::ModuleDeclaration { name } => Statements::ModuleDeclaration {
            name: name.clone(),
        },
        Statements::FunctionDeclaration { name, params, body, return_type } => {
            let copied_params = clone_params(params);
            let copied_body = clone_stmts(body);
            let r = Statements::FunctionDeclaration {
                name: name.clone(),
                params: copied_params,
                body: copied_body,
                return_type: return_type.clone(),
            };
            proof {
                lemma_fn_decl_view(*params, *body, *s);
                lemma_fn_decl_view(copied_params, copied_body, r);
                assert(params_view(copied_params@) =~= params_view(params@));
                assert(stmts_view(copied_body@) =~= stmts_view(body@));
            }
            r
        },
        Statements::ExpressionStatement { expr } => Statements::ExpressionStatement {
            expr: clone_expr(expr),
        },
    }
}

/// A copy of a list of statements.
pub fn clone_stmts(v: &Vec<Statements>) -> (r: Vec<Statements>)
    ensures
        r@.len() == v@.len(),
        forall|i: int| 0 <= i < v@.len() ==> #[trigger] stmt_view(r@[i]) == stmt_view(v@[i]),
    decreases v,
{
    let mut r: Vec<Statements> = Vec::new();
    let mut i: usize = 0;
    while i < v.len()
        invariant
            i <= v@.len(),
            r@.len() == i,
            forall|j: int| 0 <= j < i ==> #[trigger] stmt_view(r@[j]) == stmt_view(v@[j]),
        decreases v@.len() - i,
    {
        proof {
            assert(decreases_to!(v => v[i as int]));
        }
        r.push(clone_stmt(&v[i]));
        i = i + 1;
    }
    r
}

/// A copy of a list of parameters.
pub fn clone_params(v: &Vec<FuncParam>) -> (r: Vec<FuncParam>)
    ensures
        r@.len() == v@.len(),
        forall|i: int| 0 <= i < v@.len() ==> #[trigger] param_view(r@[i]) == param_view(v@[i]),
{
    let mut r: Vec<FuncParam> = Vec::new();
    let mut i: usize = 0;
    while i < v.len()
        invariant
            i <= v@.len(),
            r@.len() == i,
            forall|j: int| 0 <= j < i ==> #[trigger] param_view(r@[j]) == param_view(v@[j]),
        decreases v@.len() - i,
    {
        r.push(FuncParam { name: v[i].name.clone(), ty: v[i].ty.clone() });
        i = i + 1;
    }
    r
}

} // verus!
