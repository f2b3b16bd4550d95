//! Shorthand constructors for building syntax trees by hand, used by the
//! driver program and by tests. Each wraps its result in a [`Node`] with
//! default metadata; the contracts pin the element that is built.

use super::{Args, Arg, Bind, BindMut, Binop, BinopKind, Block, Call, Constructor, Expr, ExprView, Field, Func, Ident, IdentView, Param, Params, Prim, PrimView, Project, Stmt, Struct, Unop, UnopKind, Update, Write, expr_view};
use crate::node::{Node, NodeMeta};
use vstd::prelude::*;

verus! {

/// A parameter list node.
pub fn params<M: NodeMeta>(list: Vec<Node<Param<M>, M>>) -> (r: Node<Params<M>, M>)
    ensures
        r.elt == (Params::<M> { params: list }),
{
    Node::new(Params { params: list }, M::default())
}

/// A call argument list node.
pub fn args<M: NodeMeta>(list: Vec<Node<Arg<M>, M>>) -> (r: Node<Args<M>, M>)
    ensures
        r.elt == (Args::<M> { args: list }),
{
    Node::new(Args { args: list }, M::default())
}

/// A structure literal expression.
pub fn estruct<M: NodeMeta>(fields: Vec<Node<Field<M>, M>>) -> (r: Node<Expr<M>, M>)
    ensures
        r.elt == (Expr::<M>::Struct(Struct { fields })),
{
    Node::new(Expr::Struct(Struct { fields }), M::default())
}

/// A string literal expression.
pub fn estring<M: NodeMeta>(string: &str) -> (r: Node<Expr<M>, M>)
    ensures
        expr_view(r.elt) == ExprView::Prim(PrimView::String(string@)),
{
    Node::new(Expr::Prim(Prim::String(string.to_owned())), M::default())
}

/// A character literal expression; the surface language has 8-bit characters.
pub fn echar<M: NodeMeta>(char: char) -> (r: Node<Expr<M>, M>)
    requires
        char as u32 <= 255,
    ensures
        r.elt == (Expr::<M>::Prim(Prim::Char(char as u8))),
{
    Node::new(Expr::Prim(Prim::Char(char as u8)), M::default())
}

/// An inline field holding a nested structure literal.
pub fn istruct<M: NodeMeta>(fields: Vec<Node<Field<M>, M>>) -> (r: Node<Field<M>, M>)
    ensures
        r.elt == (Field::<M>::Inline(Expr::Struct(Struct { fields }))),
{
    Node::new(Field::Inline(Expr::Struct(Struct { fields })), M::default())
}

/// A named field.
pub fn field<M: NodeMeta>(ident: Ident, expr: Node<Expr<M>, M>) -> (r: Node<Field<M>, M>)
    ensures
        r.elt == (Field::<M>::Field(ident, expr)),
{
    Node::new(Field::Field(ident, expr), M::default())
}

/// A cosmetic spacer field.
pub fn fspacer<M: NodeMeta>() -> (r: Node<Field<M>, M>)
    ensures
        r.elt == (Field::<M>::Spacer),
{
    Node::new(Field::Spacer, M::default())
}

/// An inline field.
pub fn inline<M: NodeMeta>(expr: Expr<M>) -> (r: Node<Field<M>, M>)
    ensures
        r.elt == (Field::<M>::Inline(expr)),
{
    Node::new(Field::Inline(expr), M::default())
}

/// An identifier expression.
pub fn eident<M: NodeMeta>(ident: Ident) -> (r: Node<Expr<M>, M>)
    ensures
        r.elt == (Expr::<M>::Ident(ident)),
{
    Node::new(Expr::Ident(ident), M::default())
}

/// A value-namespace identifier. Value names do not start with an
/// ASCII upper-case letter.
pub fn vid(name: &str) -> (r: Ident)
    requires
        name@.len() > 0,
        !('A' <= name@[0] <= 'Z'),
    ensures
        r@ == (IdentView { name: name@, is_type: false, is_void: false, nshadow: 0 }),
{
    Ident { name: name.to_owned(), is_type: false, is_void: false, nshadow: 0 }
}

/// A type-namespace identifier. Type names do not start with an
/// ASCII lower-case letter.
pub fn tid(name: &str) -> (r: Ident)
    requires
        name@.len() > 0,
        !('a' <= name@[0] <= 'z'),
    ensures
        r@ == (IdentView { name: name@, is_type: true, is_void: false, nshadow: 0 }),
{
    Ident { name: name.to_owned(), is_type: true, is_void: false, nshadow: 0 }
}

/// The anonymous placeholder identifier, which is never bound.
pub fn void() -> (r: Ident)
    ensures
        r@ == (IdentView { name: "_"@, is_type: false, is_void: true, nshadow: 0 }),
{
    Ident { name: "_".to_owned(), is_type: false, is_void: true, nshadow: 0 }
}

/// The same identifier with its shadow depth set to `by`.
pub fn unshadow(ident: Ident, by: usize) -> (r: Ident)
    ensures
        r@ == (IdentView { nshadow: by as nat, ..ident@ }),
{
    Ident { name: ident.name, is_type: ident.is_type, is_void: ident.is_void, nshadow: by }
}

/// A value-namespace identifier expression.
pub fn evid<M: NodeMeta>(name: &str) -> (r: Node<Expr<M>, M>)
    requires
        name@.len() > 0,
        !('A' <= name@[0] <= 'Z'),
    ensures
        expr_view(r.elt) == ExprView::Ident(
            IdentView { name: name@, is_type: false, is_void: false, nshadow: 0 },
        ),
{
    Node::new(Expr::Ident(vid(name)), M::default())
}

/// A type-namespace identifier expression.
pub fn etid<M: NodeMeta>(name: &str) -> (r: Node<Expr<M>, M>)
    requires
        name@.len() > 0,
        !('a' <= name@[0] <= 'z'),
    ensures
        expr_view(r.elt) == ExprView::Ident(
            IdentView { name: name@, is_type: true, is_void: false, nshadow: 0 },
        ),
{
    Node::new(Expr::Ident(tid(name)), M::default())
}

/// A 32-bit integer literal expression.
pub fn ei32<M: NodeMeta>(n: i32) -> (r: Node<Expr<M>, M>)
    ensures
        r.elt == (Expr::<M>::Prim(Prim::I32(n))),
{
    Node::new(Expr::Prim(Prim::I32(n)), M::default())
}

/// A copy operation.
pub fn copy<M: NodeMeta>(expr: Node<Expr<M>, M>) -> (r: Node<Expr<M>, M>)
    ensures
        r.elt == (Expr::<M>::Unop(Unop { op: UnopKind::Copy, expr: Box::new(expr) })),
{
    Node::new(Expr::Unop(Unop { op: UnopKind::Copy, expr: Box::new(expr) }), M::default())
}

/// A negation.
pub fn neg<M: NodeMeta>(expr: Node<Expr<M>, M>) -> (r: Node<Expr<M>, M>)
    ensures
        r.elt == (Expr::<M>::Unop(Unop { op: UnopKind::Neg, expr: Box::new(expr) })),
{
    Node::new(Expr::Unop(Unop { op: UnopKind::Neg, expr: Box::new(expr) }), M::default())
}

/// An addition.
pub fn add<M: NodeMeta>(lhs: Node<Expr<M>, M>, rhs: Node<Expr<M>, M>) -> (r: Node<Expr<M>, M>)
    ensures
        r.elt == (Expr::<M>::Binop(Binop { lhs: Box::new(lhs), op: BinopKind::Add, rhs: Box::new(rhs) })),
{
    Node::new(Expr::Binop(Binop { lhs: Box::new(lhs), op: BinopKind::Add, rhs: Box::new(rhs) }), M::default())
}

/// A subtraction.
pub fn sub<M: NodeMeta>(lhs: Node<Expr<M>, M>, rhs: Node<Expr<M>, M>) -> (r: Node<Expr<M>, M>)
    ensures
        r.elt == (Expr::<M>::Binop(Binop { lhs: Box::new(lhs), op: BinopKind::Sub, rhs: Box::new(rhs) })),
{
    Node::new(Expr::Binop(Binop { lhs: Box::new(lhs), op: BinopKind::Sub, rhs: Box::new(rhs) }), M::default())
}

/// A multiplication.
pub fn mul<M: NodeMeta>(lhs: Node<Expr<M>, M>, rhs: Node<Expr<M>, M>) -> (r: Node<Expr<M>, M>)
    ensures
        r.elt == (Expr::<M>::Binop(Binop { lhs: Box::new(lhs), op: BinopKind::Mul, rhs: Box::new(rhs) })),
{
    Node::new(Expr::Binop(Binop { lhs: Box::new(lhs), op: BinopKind::Mul, rhs: Box::new(rhs) }), M::default())
}

/// A division.
pub fn div<M: NodeMeta>(lhs: Node<Expr<M>, M>, rhs: Node<Expr<M>, M>) -> (r: Node<Expr<M>, M>)
    ensures
        r.elt == (Expr::<M>::Binop(Binop { lhs: Box::new(lhs), op: BinopKind::Div, rhs: Box::new(rhs) })),
{
    Node::new(Expr::Binop(Binop { lhs: Box::new(lhs), op: BinopKind::Div, rhs: Box::new(rhs) }), M::default())
}

/// An exponentiation.
pub fn pow<M: NodeMeta>(lhs: Node<Expr<M>, M>, rhs: Node<Expr<M>, M>) -> (r: Node<Expr<M>, M>)
    ensures
        r.elt == (Expr::<M>::Binop(Binop { lhs: Box::new(lhs), op: BinopKind::Pow, rhs: Box::new(rhs) })),
{
    Node::new(Expr::Binop(Binop { lhs: Box::new(lhs), op: BinopKind::Pow, rhs: Box::new(rhs) }), M::default())
}

/// A concatenation.
pub fn concat<M: NodeMeta>(lhs: Node<Expr<M>, M>, rhs: Node<Expr<M>, M>) -> (r: Node<Expr<M>, M>)
    ensures
        r.elt == (Expr::<M>::Binop(Binop { lhs: Box::new(lhs), op: BinopKind::Concat, rhs: Box::new(rhs) })),
{
    Node::new(Expr::Binop(Binop { lhs: Box::new(lhs), op: BinopKind::Concat, rhs: Box::new(rhs) }), M::default())
}

/// A bare block.
pub fn block<M: NodeMeta>(stmts: Vec<Node<Stmt<M>, M>>) -> (r: Block<M>)
    ensures
        r == (Block::<M> { stmts }),
{
    Block { stmts }
}

/// A block expression.
pub fn eblock<M: NodeMeta>(stmts: Vec<Node<Stmt<M>, M>>) -> (r: Node<Expr<M>, M>)
    ensures
        r.elt == (Expr::<M>::Block(Block { stmts })),
{
    Node::new(Expr::Block(Block { stmts }), M::default())
}

/// A function literal expression.
pub fn efunc<M: NodeMeta>(params: Node<Params<M>, M>, body: Node<Expr<M>, M>) -> (r: Node<
    Expr<M>,
    M,
>)
    ensures
        r.elt == (Expr::<M>::Func(Func { params, body: Box::new(body) })),
{
    Node::new(Expr::Func(Func { params, body: Box::new(body) }), M::default())
}

/// A field projection expression.
pub fn eproj<M: NodeMeta>(expr: Node<Expr<M>, M>, field: Ident) -> (r: Node<Expr<M>, M>)
    ensures
        r.elt == (Expr::<M>::Project(Project { expr: Box::new(expr), field })),
{
    Node::new(Expr::Project(Project { expr: Box::new(expr), field }), M::default())
}

/// A bare prefix-form call.
pub fn call<M: NodeMeta>(func: Node<Expr<M>, M>, args: Node<Args<M>, M>) -> (r: Call<M>)
    ensures
        r == (Call::<M> { func: Box::new(func), args, method_syntax: false }),
{
    Call { func: Box::new(func), args, method_syntax: false }
}

/// A prefix-form call expression.
pub fn ecall<M: NodeMeta>(func: Node<Expr<M>, M>, args: Node<Args<M>, M>) -> (r: Node<Expr<M>, M>)
    ensures
        r.elt == (Expr::<M>::Call(Call { func: Box::new(func), args, method_syntax: false })),
{
    Node::new(Expr::Call(Call { func: Box::new(func), args, method_syntax: false }), M::default())
}

/// A postfix-form (method syntax) call expression.
pub fn emethod<M: NodeMeta>(func: Node<Expr<M>, M>, args: Node<Args<M>, M>) -> (r: Node<
    Expr<M>,
    M,
>)
    ensures
        r.elt == (Expr::<M>::Call(Call { func: Box::new(func), args, method_syntax: true })),
{
    Node::new(Expr::Call(Call { func: Box::new(func), args, method_syntax: true }), M::default())
}

/// A call argument list node.
pub fn eargs<M: NodeMeta>(list: Vec<Node<Arg<M>, M>>) -> (r: Node<Args<M>, M>)
    ensures
        r.elt == (Args::<M> { args: list }),
{
    Node::new(Args { args: list }, M::default())
}

/// A parameter list node.
pub fn eparams<M: NodeMeta>(list: Vec<Node<Param<M>, M>>) -> (r: Node<Params<M>, M>)
    ensures
        r.elt == (Params::<M> { params: list }),
{
    Node::new(Params { params: list }, M::default())
}

/// An immutable call argument.
pub fn arg<M: NodeMeta>(expr: Node<Expr<M>, M>) -> (r: Node<Arg<M>, M>)
    ensures
        r.elt == (Arg { expr, is_mut: false }),
{
    Node::new(Arg { expr, is_mut: false }, M::default())
}

/// An immutable parameter.
pub fn param<M: NodeMeta>(ident: Ident, expr: Node<Expr<M>, M>) -> (r: Node<Param<M>, M>)
    ensures
        r.elt == (Param { ident, expr, is_mut: false }),
{
    Node::new(Param { ident, expr, is_mut: false }, M::default())
}

/// A mutable call argument.
pub fn arg_mut<M: NodeMeta>(expr: Node<Expr<M>, M>) -> (r: Node<Arg<M>, M>)
    ensures
        r.elt == (Arg { expr, is_mut: true }),
{
    Node::new(Arg { expr, is_mut: true }, M::default())
}

/// A mutable parameter.
pub fn param_mut<M: NodeMeta>(ident: Ident, expr: Node<Expr<M>, M>) -> (r: Node<Param<M>, M>)
    ensures
        r.elt == (Param { ident, expr, is_mut: true }),
{
    Node::new(Param { ident, expr, is_mut: true }, M::default())
}

/// A constructor expression.
pub fn econstructor<M: NodeMeta>(ident: Ident, fields: Vec<Node<Field<M>, M>>) -> (r: Node<
    Expr<M>,
    M,
>)
    ensures
        r.elt == (Expr::<M>::Constructor(Constructor { name: ident, fields: Struct { fields } })),
{
    Node::new(
        Expr::Constructor(Constructor { name: ident, fields: Struct { fields } }),
        M::default(),
    )
}

/// A plain binding statement.
pub fn sbind<M: NodeMeta>(ident: Ident, expr: Node<Expr<M>, M>) -> (r: Node<Stmt<M>, M>)
    ensures
        r.elt == (Stmt::<M>::Bind(Bind { name: ident, value: expr })),
{
    Node::new(Stmt::Bind(Bind { name: ident, value: expr }), M::default())
}

/// A mutable binding statement.
pub fn sbindmut<M: NodeMeta>(
    ident: Ident,
    ty: Node<Expr<M>, M>,
    expr: Node<Expr<M>, M>,
) -> (r: Node<Stmt<M>, M>)
    ensures
        r.elt == (Stmt::<M>::BindMut(BindMut { name: ident, initial: ty, update: expr })),
{
    Node::new(Stmt::BindMut(BindMut { name: ident, initial: ty, update: expr }), M::default())
}

/// An assignment statement.
pub fn swrite<M: NodeMeta>(lhs: Node<Expr<M>, M>, rhs: Node<Expr<M>, M>) -> (r: Node<Stmt<M>, M>)
    ensures
        r.elt == (Stmt::<M>::Write(Write { target: lhs, value: rhs })),
{
    Node::new(Stmt::Write(Write { target: lhs, value: rhs }), M::default())
}

/// A compound addition statement.
pub fn sadd<M: NodeMeta>(lhs: Node<Expr<M>, M>, rhs: Node<Expr<M>, M>) -> (r: Node<Stmt<M>, M>)
    ensures
        r.elt == (Stmt::<M>::Update(Update { target: lhs, op: BinopKind::Add, value: rhs })),
{
    Node::new(Stmt::Update(Update { target: lhs, op: BinopKind::Add, value: rhs }), M::default())
}

/// A compound subtraction statement.
pub fn ssub<M: NodeMeta>(lhs: Node<Expr<M>, M>, rhs: Node<Expr<M>, M>) -> (r: Node<Stmt<M>, M>)
    ensures
        r.elt == (Stmt::<M>::Update(Update { target: lhs, op: BinopKind::Sub, value: rhs })),
{
    Node::new(Stmt::Update(Update { target: lhs, op: BinopKind::Sub, value: rhs }), M::default())
}

/// A compound multiplication statement.
pub fn smul<M: NodeMeta>(lhs: Node<Expr<M>, M>, rhs: Node<Expr<M>, M>) -> (r: Node<Stmt<M>, M>)
    ensures
        r.elt == (Stmt::<M>::Update(Update { target: lhs, op: BinopKind::Mul, value: rhs })),
{
    Node::new(Stmt::Update(Update { target: lhs, op: BinopKind::Mul, value: rhs }), M::default())
}

/// A compound division statement.
pub fn sdiv<M: NodeMeta>(lhs: Node<Expr<M>, M>, rhs: Node<Expr<M>, M>) -> (r: Node<Stmt<M>, M>)
    ensures
        r.elt == (Stmt::<M>::Update(Update { target: lhs, op: BinopKind::Div, value: rhs })),
{
    Node::new(Stmt::Update(Update { target: lhs, op: BinopKind::Div, value: rhs }), M::default())
}

/// A compound exponentiation statement.
pub fn spow<M: NodeMeta>(lhs: Node<Expr<M>, M>, rhs: Node<Expr<M>, M>) -> (r: Node<Stmt<M>, M>)
    ensures
        r.elt == (Stmt::<M>::Update(Update { target: lhs, op: BinopKind::Pow, value: rhs })),
{
    Node::new(Stmt::Update(Update { target: lhs, op: BinopKind::Pow, value: rhs }), M::default())
}

/// A compound concatenation statement.
pub fn sconcat<M: NodeMeta>(lhs: Node<Expr<M>, M>, rhs: Node<Expr<M>, M>) -> (r: Node<Stmt<M>, M>)
    ensures
        r.elt == (Stmt::<M>::Update(Update { target: lhs, op: BinopKind::Concat, value: rhs })),
{
    Node::new(
        Stmt::Update(Update { target: lhs, op: BinopKind::Concat, value: rhs }),
        M::default(),
    )
}

/// A cosmetic spacer statement.
pub fn sspacer<M: NodeMeta>() -> (r: Node<Stmt<M>, M>)
    ensures
        r.elt == (Stmt::<M>::Spacer),
{
    Node::new(Stmt::Spacer, M::default())
}

/// An expression statement.
pub fn sexpr<M: NodeMeta>(expr: Node<Expr<M>, M>) -> (r: Node<Stmt<M>, M>)
    ensures
        r.elt == (Stmt::<M>::Expr(expr)),
{
    Node::new(Stmt::Expr(expr), M::default())
}

} // verus!
