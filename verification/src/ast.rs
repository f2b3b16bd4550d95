//! The surface syntax tree.
//!
//! Every syntax element is wrapped in a [`Node`] that pairs it with a
//! metadata payload `M` (a source location, an annotation, ...). The
//! metadata carries no meaning for lowering or subtyping, so the
//! mathematical view of a tree ([`ExprView`] and friends) drops it and
//! keeps only the element structure.

pub mod helpers;

use crate::node::{Node, NodeMeta};
use vstd::prelude::*;

verus! {

/// A structure literal: an ordered list of fields.
#[derive(Debug, PartialEq, Eq)]
pub struct Struct<M: NodeMeta> {
    pub fields: Vec<Node<Field<M>, M>>,
}

/// The argument list of a call.
#[derive(Debug, PartialEq, Eq)]
pub struct Args<M: NodeMeta> {
    pub args: Vec<Node<Arg<M>, M>>,
}

/// One call argument; `is_mut` marks arguments passed as mutable aliases.
#[derive(Debug, PartialEq, Eq)]
pub struct Arg<M: NodeMeta> {
    pub expr: Node<Expr<M>, M>,
    pub is_mut: bool,
}

/// The parameter list of a function literal.
#[derive(Debug, PartialEq, Eq)]
pub struct Params<M: NodeMeta> {
    pub params: Vec<Node<Param<M>, M>>,
}

/// One function parameter: its name, its declared type expression, and
/// whether the parameter is a mutable alias of the caller's binding.
#[derive(Debug, PartialEq, Eq)]
pub struct Param<M: NodeMeta> {
    pub ident: Ident,
    pub expr: Node<Expr<M>, M>,
    pub is_mut: bool,
}

/// One field of a structure literal: a named field, an inline
/// composition (splicing another structure's fields in), or a purely
/// cosmetic spacer.
#[derive(Debug, PartialEq, Eq)]
pub enum Field<M: NodeMeta> {
    Field(Ident, Node<Expr<M>, M>),
    Inline(Expr<M>),
    Spacer,
}

/// A named parameter as written in source, before it is turned into a [`Param`].
#[derive(Debug, PartialEq, Eq)]
pub struct NamedParam<M: NodeMeta> {
    pub is_mut: bool,
    pub name: Ident,
    pub value: Node<Expr<M>, M>,
}

/// A bare-identifier parameter as written in source.
#[derive(Debug, Clone, PartialEq, Eq)]
pub struct IdentParam {
    pub is_mut: bool,
    pub name: Ident,
}

/// A surface identifier.
///
/// `is_type` selects the type namespace over the value namespace;
/// `is_void` marks the anonymous placeholder, which is never bound;
/// `nshadow` is the shadow depth: how many enclosing scopes a reference
/// skips before ordinary lookup begins. Identity (for binding and
/// collision purposes) is `(name, is_type)`; the shadow depth is
/// resolution metadata only.
#[derive(Debug, Clone, PartialEq, Eq, Hash)]
pub struct Ident {
    pub name: String,
    pub is_type: bool,
    pub is_void: bool,
    pub nshadow: usize,
}

/// A surface expression.
#[derive(Debug, PartialEq, Eq)]
pub enum Expr<M: NodeMeta> {
    Ident(Ident),
    Prim(Prim),
    Struct(Struct<M>),
    Block(Block<M>),
    Unop(Unop<M>),
    Binop(Binop<M>),
    Func(Func<M>),
    Call(Call<M>),
    Constructor(Constructor<M>),
    Project(Project<M>),
}

/// A unary operation.
#[derive(Debug, PartialEq, Eq)]
pub struct Unop<M: NodeMeta> {
    pub op: UnopKind,
    pub expr: Box<Node<Expr<M>, M>>,
}

/// A binary operation.
#[derive(Debug, PartialEq, Eq)]
pub struct Binop<M: NodeMeta> {
    pub lhs: Box<Node<Expr<M>, M>>,
    pub op: BinopKind,
    pub rhs: Box<Node<Expr<M>, M>>,
}

/// A constructor application: a type name plus a structure literal.
#[derive(Debug, PartialEq, Eq)]
pub struct Constructor<M: NodeMeta> {
    pub name: Ident,
    pub fields: Struct<M>,
}

/// A field projection `expr.field`.
#[derive(Debug, PartialEq, Eq)]
pub struct Project<M: NodeMeta> {
    pub expr: Box<Node<Expr<M>, M>>,
    pub field: Ident,
}

/// A function literal: parameters and a body.
#[derive(Debug, PartialEq, Eq)]
pub struct Func<M: NodeMeta> {
    pub params: Node<Params<M>, M>,
    pub body: Box<Node<Expr<M>, M>>,
}

/// A call; `method_syntax` records postfix `receiver.method(...)` form,
/// which is semantically identical to prefix form.
#[derive(Debug, PartialEq, Eq)]
pub struct Call<M: NodeMeta> {
    pub func: Box<Node<Expr<M>, M>>,
    pub args: Node<Args<M>, M>,
    pub method_syntax: bool,
}

/// A block of statements.
#[derive(Debug, PartialEq, Eq)]
pub struct Block<M: NodeMeta> {
    pub stmts: Vec<Node<Stmt<M>, M>>,
}

/// A plain binding `name = value`.
#[derive(Debug, PartialEq, Eq)]
pub struct Bind<M: NodeMeta> {
    pub name: Ident,
    pub value: Node<Expr<M>, M>,
}

/// A mutable binding with its declared type and initial value.
#[derive(Debug, PartialEq, Eq)]
pub struct BindMut<M: NodeMeta> {
    pub name: Ident,
    pub initial: Node<Expr<M>, M>,
    pub update: Node<Expr<M>, M>,
}

/// An assignment to an existing binding.
#[derive(Debug, PartialEq, Eq)]
pub struct Write<M: NodeMeta> {
    pub target: Node<Expr<M>, M>,
    pub value: Node<Expr<M>, M>,
}

/// A compound assignment `target OP= value`.
#[derive(Debug, PartialEq, Eq)]
pub struct Update<M: NodeMeta> {
    pub target: Node<Expr<M>, M>,
    pub op: BinopKind,
    pub value: Node<Expr<M>, M>,
}

/// A primitive literal: a 32-bit integer, a string, or an 8-bit character.
#[derive(Debug, Clone, PartialEq, Eq)]
pub enum Prim {
    I32(i32),
    String(String),
    Char(u8),
}

/// A statement.
#[derive(Debug, PartialEq, Eq)]
pub enum Stmt<M: NodeMeta> {
    Bind(Bind<M>),
    BindMut(BindMut<M>),
    Write(Write<M>),
    Update(Update<M>),
    Expr(Node<Expr<M>, M>),
    Spacer,
}

/// The binary operators.
#[derive(Debug, Clone, Copy, PartialEq, Eq, Hash, Structural)]
pub enum BinopKind {
    Add,
    Sub,
    Mul,
    Div,
    Pow,
    Concat,
}

/// The unary operators.
#[derive(Debug, Clone, Copy, PartialEq, Eq, Hash, Structural)]
pub enum UnopKind {
    Copy,
    Neg,
}

// ---------------------------------------------------------------------
// Mathematical views of the syntax tree. The node metadata is dropped;
// everything else is kept structurally.
// ---------------------------------------------------------------------

/// The view of a surface identifier.
pub ghost struct IdentView {
    pub name: Seq<char>,
    pub is_type: bool,
    pub is_void: bool,
    pub nshadow: nat,
}

/// The view of a primitive literal.
pub ghost enum PrimView {
    I32(i32),
    String(Seq<char>),
    Char(u8),
}

/// The view of a surface expression.
pub ghost enum ExprView {
    Ident(IdentView),
    Prim(PrimView),
    Struct(Seq<FieldView>),
    Block(Seq<StmtView>),
    Unop(UnopKind, Box<ExprView>),
    Binop(Box<ExprView>, BinopKind, Box<ExprView>),
    Func(Seq<ParamView>, Box<ExprView>),
    Call(Box<ExprView>, Seq<ArgView>, bool),
    Constructor(IdentView, Seq<FieldView>),
    Project(Box<ExprView>, IdentView),
}

/// The view of a structure field.
pub ghost enum FieldView {
    Field(IdentView, Box<ExprView>),
    Inline(Box<ExprView>),
    Spacer,
}

/// The view of a function parameter.
pub ghost struct ParamView {
    pub ident: IdentView,
    pub expr: Box<ExprView>,
    pub is_mut: bool,
}

/// The view of a call argument.
pub ghost struct ArgView {
    pub expr: Box<ExprView>,
    pub is_mut: bool,
}

/// The view of a statement.
pub ghost enum StmtView {
    Bind(IdentView, Box<ExprView>),
    BindMut(IdentView, Box<ExprView>, Box<ExprView>),
    Write(Box<ExprView>, Box<ExprView>),
    Update(Box<ExprView>, BinopKind, Box<ExprView>),
    Expr(Box<ExprView>),
    Spacer,
}

impl View for Ident {
    type V = IdentView;

    open spec fn view(&self) -> IdentView {
        IdentView {
            name: self.name@,
            is_type: self.is_type,
            is_void: self.is_void,
            nshadow: self.nshadow as nat,
        }
    }
}

impl View for Prim {
    type V = PrimView;

    open spec fn view(&self) -> PrimView {
        match self {
            Prim::I32(n) => PrimView::I32(*n),
            Prim::String(s) => PrimView::String(s@),
            Prim::Char(c) => PrimView::Char(*c),
        }
    }
}

/// The view of an expression.
pub open spec fn expr_view<M: NodeMeta>(e: Expr<M>) -> ExprView
    decreases e,
{
    match e {
        Expr::Ident(id) => ExprView::Ident(id@),
        Expr::Prim(p) => ExprView::Prim(p@),
        Expr::Struct(s) => ExprView::Struct(fields_view(s.fields@)),
        Expr::Block(b) => ExprView::Block(stmts_view(b.stmts@)),
        Expr::Unop(u) => ExprView::Unop(u.op, Box::new(expr_view(u.expr.elt))),
        Expr::Binop(b) => ExprView::Binop(
            Box::new(expr_view(b.lhs.elt)),
            b.op,
            Box::new(expr_view(b.rhs.elt)),
        ),
        Expr::Func(f) => ExprView::Func(
            params_view(f.params.elt.params@),
            Box::new(expr_view(f.body.elt)),
        ),
        Expr::Call(c) => ExprView::Call(
            Box::new(expr_view(c.func.elt)),
            call_args_view(c.args.elt.args@),
            c.method_syntax,
        ),
        Expr::Constructor(c) => ExprView::Constructor(c.name@, fields_view(c.fields.fields@)),
        Expr::Project(p) => ExprView::Project(Box::new(expr_view(p.expr.elt)), p.field@),
    }
}

/// The view of one structure field.
pub open spec fn field_view<M: NodeMeta>(f: Field<M>) -> FieldView
    decreases f,
{
    match f {
        Field::Field(id, e) => FieldView::Field(id@, Box::new(expr_view(e.elt))),
        Field::Inline(e) => FieldView::Inline(Box::new(expr_view(e))),
        Field::Spacer => FieldView::Spacer,
    }
}

/// The view of a field list, in order.
pub open spec fn fields_view<M: NodeMeta>(fs: Seq<Node<Field<M>, M>>) -> Seq<FieldView>
    decreases fs,
{
    if fs.len() == 0 {
        Seq::empty()
    } else {
        seq![field_view(fs[0].elt)] + fields_view(fs.drop_first())
    }
}

/// The view of one statement.
pub open spec fn stmt_view<M: NodeMeta>(s: Stmt<M>) -> StmtView
    decreases s,
{
    match s {
        Stmt::Bind(b) => StmtView::Bind(b.name@, Box::new(expr_view(b.value.elt))),
        Stmt::BindMut(b) => StmtView::BindMut(
            b.name@,
            Box::new(expr_view(b.initial.elt)),
            Box::new(expr_view(b.update.elt)),
        ),
        Stmt::Write(w) => StmtView::Write(
            Box::new(expr_view(w.target.elt)),
            Box::new(expr_view(w.value.elt)),
        ),
        Stmt::Update(u) => StmtView::Update(
            Box::new(expr_view(u.target.elt)),
            u.op,
            Box::new(expr_view(u.value.elt)),
        ),
        Stmt::Expr(e) => StmtView::Expr(Box::new(expr_view(e.elt))),
        Stmt::Spacer => StmtView::Spacer,
    }
}

/// The view of a statement list, in order.
pub open spec fn stmts_view<M: NodeMeta>(ss: Seq<Node<Stmt<M>, M>>) -> Seq<StmtView>
    decreases ss,
{
    if ss.len() == 0 {
        Seq::empty()
    } else {
        seq![stmt_view(ss[0].elt)] + stmts_view(ss.drop_first())
    }
}

/// The view of one parameter.
pub open spec fn param_view<M: NodeMeta>(p: Param<M>) -> ParamView
    decreases p,
{
    ParamView { ident: p.ident@, expr: Box::new(expr_view(p.expr.elt)), is_mut: p.is_mut }
}

/// The view of a parameter list, in order.
pub open spec fn params_view<M: NodeMeta>(ps: Seq<Node<Param<M>, M>>) -> Seq<ParamView>
    decreases ps,
{
    if ps.len() == 0 {
        Seq::empty()
    } else {
        seq![param_view(ps[0].elt)] + params_view(ps.drop_first())
    }
}

/// The view of one call argument.
pub open spec fn call_arg_view<M: NodeMeta>(a: Arg<M>) -> ArgView
    decreases a,
{
    ArgView { expr: Box::new(expr_view(a.expr.elt)), is_mut: a.is_mut }
}

/// The view of a call argument list, in order.
pub open spec fn call_args_view<M: NodeMeta>(args: Seq<Node<Arg<M>, M>>) -> Seq<ArgView>
    decreases args,
{
    if args.len() == 0 {
        Seq::empty()
    } else {
        seq![call_arg_view(args[0].elt)] + call_args_view(args.drop_first())
    }
}

/// An expression's view is an identifier or structure literal exactly
/// when the expression is one.
pub proof fn lemma_expr_view_shape<M: NodeMeta>(e: Expr<M>)
    ensures
        (e is Ident) <==> (expr_view(e) is Ident),
        (e is Struct) <==> (expr_view(e) is Struct),
{
    match e {
        Expr::Ident(_) => {},
        Expr::Prim(_) => {},
        Expr::Struct(_) => {},
        Expr::Block(_) => {},
        Expr::Unop(_) => {},
        Expr::Binop(_) => {},
        Expr::Func(_) => {},
        Expr::Call(_) => {},
        Expr::Constructor(_) => {},
        Expr::Project(_) => {},
    }
}

} // verus!
