//! Lowering from the surface syntax tree to the scope-resolved IR.
//!
//! Lowering takes a syntax element and an optional enclosing context and
//! produces the corresponding IR element or the first error encountered
//! (fail-fast: a partially built scope is discarded). The whole
//! transformation is specified by the `lower_*_spec` functions over the
//! mathematical views, and every executable entry point returns exactly
//! what its spec function returns — so lowering is deterministic by
//! construction.
//!
//! The rules, in short: a structure literal becomes a struct scope whose
//! fields are lowered under the *enclosing* context (fields do not see
//! their siblings), with collisions rejected; an inline field splices
//! the fields of another structure in, either by resolving an
//! identifier (honouring its shadow depth) or by lowering a nested
//! literal; spacers vanish; a function literal becomes an args scope
//! plus a body lowered under that scope; a binary operation desugars to
//! a call of a synthetic operator identifier; the anonymous placeholder
//! is never bound and collides with nothing.

use crate::ast;
use crate::ir;
use crate::node::NodeMeta;
use vstd::prelude::*;

verus! {

/// A lowering error. Lowering is fail-fast: the first error aborts the
/// walk and propagates.
#[derive(Debug, PartialEq, Eq)]
pub enum LowerError {
    /// A field name repeated within one structure, directly or via
    /// inlining.
    DuplicateField(ir::Ident),
    /// A parameter name repeated within one parameter list.
    DuplicateArgument(ir::Ident),
    /// An inline identifier that the scope chain does not resolve.
    UnresolvedInline(ir::Ident),
    /// An inline expression that is neither an identifier resolving to
    /// a struct scope nor a nested structure literal.
    IllegalInline,
    /// A syntax shape no surface feature lowers yet; a programmer-level
    /// fault, not a user-facing error.
    UnsupportedShape,
}

/// The view of a lowering error.
pub ghost enum LowerErrView {
    DuplicateField(ir::IdentView),
    DuplicateArgument(ir::IdentView),
    UnresolvedInline(ir::IdentView),
    IllegalInline,
    UnsupportedShape,
}

impl View for LowerError {
    type V = LowerErrView;

    open spec fn view(&self) -> LowerErrView {
        match self {
            LowerError::DuplicateField(id) => LowerErrView::DuplicateField(id@),
            LowerError::DuplicateArgument(id) => LowerErrView::DuplicateArgument(id@),
            LowerError::UnresolvedInline(id) => LowerErrView::UnresolvedInline(id@),
            LowerError::IllegalInline => LowerErrView::IllegalInline,
            LowerError::UnsupportedShape => LowerErrView::UnsupportedShape,
        }
    }
}

// ---------------------------------------------------------------------
// The specification of lowering.
// ---------------------------------------------------------------------

/// An identifier resolves to its namespace's tag; the placeholder keeps
/// its own tag. The shadow depth is resolution metadata and is dropped.
pub open spec fn lower_ident(id: ast::IdentView) -> ir::IdentView {
    if id.is_void {
        ir::IdentView::Void
    } else if id.is_type {
        ir::IdentView::TIdent(id.name)
    } else {
        ir::IdentView::VIdent(id.name)
    }
}

/// Primitive literals carry over unchanged.
pub open spec fn lower_prim(p: ast::PrimView) -> ir::PrimView {
    match p {
        ast::PrimView::I32(n) => ir::PrimView::I32(n),
        ast::PrimView::String(s) => ir::PrimView::String(s),
        ast::PrimView::Char(c) => ir::PrimView::Char(c),
    }
}

/// Boxes an optional context for storage as a scope parent.
pub open spec fn opt_box_ctxt(c: Option<ir::CtxtView>) -> Option<Box<ir::CtxtView>> {
    match c {
        Some(c) => Some(Box::new(c)),
        None => None,
    }
}

/// Shadow-depth lookup through an optional context.
pub open spec fn lookup_at_opt(c: Option<ir::CtxtView>, id: ir::IdentView, n: nat) -> Option<
    ir::ExprView,
> {
    match c {
        Some(c) => ir::lookup_at_view(c, id, n),
        None => None,
    }
}

/// Whether a field entry list already binds `id`.
pub open spec fn has_field_key(entries: Seq<(ir::IdentView, ir::ExprView)>, id: ir::IdentView) -> bool {
    exists|i: int| 0 <= i < entries.len() && (#[trigger] entries[i]).0 == id
}

/// Whether a parameter entry list already binds `id`.
pub open spec fn has_arg_key(
    entries: Seq<(ir::IdentView, bool, ir::ExprView)>,
    id: ir::IdentView,
) -> bool {
    exists|i: int| 0 <= i < entries.len() && (#[trigger] entries[i]).0 == id
}

/// Splices `src` onto `acc` in order, rejecting the first key that is
/// already bound.
pub open spec fn merge_entries(
    acc: Seq<(ir::IdentView, ir::ExprView)>,
    src: Seq<(ir::IdentView, ir::ExprView)>,
) -> Result<Seq<(ir::IdentView, ir::ExprView)>, LowerErrView>
    decreases src,
{
    if src.len() == 0 {
        Ok(acc)
    } else if has_field_key(acc, src[0].0) {
        Err(LowerErrView::DuplicateField(src[0].0))
    } else {
        merge_entries(acc.push(src[0]), src.drop_first())
    }
}

/// Lowers one expression under an optional enclosing context.
pub open spec fn lower_expr_spec(e: ast::ExprView, c: Option<ir::CtxtView>) -> Result<
    ir::ExprView,
    LowerErrView,
>
    decreases e,
{
    match e {
        ast::ExprView::Ident(id) => Ok(ir::ExprView::Ident(lower_ident(id))),
        ast::ExprView::Prim(p) => Ok(ir::ExprView::Prim(lower_prim(p))),
        ast::ExprView::Struct(fields) => match lower_fields_spec(fields, c, Seq::empty()) {
            Ok(entries) => Ok(
                ir::ExprView::Struct(
                    Box::new(ir::StructView { fields: entries, parent: opt_box_ctxt(c) }),
                ),
            ),
            Err(er) => Err(er),
        },
        ast::ExprView::Block(stmts) => match lower_stmts_spec(stmts, c, Seq::empty()) {
            Ok(ss) => Ok(ir::ExprView::Block(ss)),
            Err(er) => Err(er),
        },
        ast::ExprView::Unop(_, _) => Err(LowerErrView::UnsupportedShape),
        ast::ExprView::Binop(lhs, op, rhs) => match lower_expr_spec(*lhs, c) {
            Ok(l) => match lower_expr_spec(*rhs, c) {
                Ok(r) => Ok(
                    ir::ExprView::Call(
                        Box::new(ir::ExprView::Ident(ir::IdentView::Binop(op))),
                        seq![l, r],
                    ),
                ),
                Err(er) => Err(er),
            },
            Err(er) => Err(er),
        },
        ast::ExprView::Func(params, body) => match lower_params_spec(params, c, Seq::empty()) {
            Ok(entries) => {
                let scope = ir::ArgsView { args: entries, parent: opt_box_ctxt(c) };
                match lower_expr_spec(*body, Some(ir::CtxtView::Args(Box::new(scope)))) {
                    Ok(b) => Ok(ir::ExprView::Func(Box::new(scope), Box::new(b))),
                    Err(er) => Err(er),
                }
            },
            Err(er) => Err(er),
        },
        ast::ExprView::Call(f, args, _) => match lower_expr_spec(*f, c) {
            Ok(fv) => match lower_call_args_spec(args, c, Seq::empty()) {
                Ok(avs) => Ok(ir::ExprView::Call(Box::new(fv), avs)),
                Err(er) => Err(er),
            },
            Err(er) => Err(er),
        },
        ast::ExprView::Constructor(id, fields) => match lower_fields_spec(fields, c, Seq::empty()) {
            Ok(entries) => Ok(
                ir::ExprView::Constructor(
                    lower_ident(id),
                    Box::new(ir::StructView { fields: entries, parent: opt_box_ctxt(c) }),
                ),
            ),
            Err(er) => Err(er),
        },
        ast::ExprView::Project(e2, id) => match lower_expr_spec(*e2, c) {
            Ok(v) => Ok(ir::ExprView::Project(Box::new(v), lower_ident(id))),
            Err(er) => Err(er),
        },
    }
}

/// Lowers a field list in order onto the accumulated entries. Every
/// field's value is lowered under the enclosing context `c`, never
/// under the scope being built. A named placeholder field is lowered
/// and then discarded (the placeholder is never bound).
pub open spec fn lower_fields_spec(
    fields: Seq<ast::FieldView>,
    c: Option<ir::CtxtView>,
    acc: Seq<(ir::IdentView, ir::ExprView)>,
) -> Result<Seq<(ir::IdentView, ir::ExprView)>, LowerErrView>
    decreases fields,
{
    if fields.len() == 0 {
        Ok(acc)
    } else {
        let rest = fields.drop_first();
        match fields[0] {
            ast::FieldView::Spacer => lower_fields_spec(rest, c, acc),
            ast::FieldView::Field(id, e) => {
                let key = lower_ident(id);
                match lower_expr_spec(*e, c) {
                    Ok(v) => if key is Void {
                        lower_fields_spec(rest, c, acc)
                    } else if has_field_key(acc, key) {
                        Err(LowerErrView::DuplicateField(key))
                    } else {
                        lower_fields_spec(rest, c, acc.push((key, v)))
                    },
                    Err(er) => Err(er),
                }
            },
            ast::FieldView::Inline(e) => match *e {
                ast::ExprView::Ident(id) => {
                    let key = lower_ident(id);
                    match lookup_at_opt(c, key, id.nshadow) {
                        Some(ir::ExprView::Struct(sv)) => match merge_entries(acc, sv.fields) {
                            Ok(acc2) => lower_fields_spec(rest, c, acc2),
                            Err(er) => Err(er),
                        },
                        Some(_) => Err(LowerErrView::IllegalInline),
                        None => Err(LowerErrView::UnresolvedInline(key)),
                    }
                },
                ast::ExprView::Struct(inner) => match lower_fields_spec(inner, c, Seq::empty()) {
                    Ok(src) => match merge_entries(acc, src) {
                        Ok(acc2) => lower_fields_spec(rest, c, acc2),
                        Err(er) => Err(er),
                    },
                    Err(er) => Err(er),
                },
                _ => Err(LowerErrView::IllegalInline),
            },
        }
    }
}

/// Lowers a whole structure literal to a struct scope whose parent is
/// the enclosing context.
pub open spec fn lower_struct_spec(fields: Seq<ast::FieldView>, c: Option<ir::CtxtView>) -> Result<
    ir::StructView,
    LowerErrView,
>
{
    match lower_fields_spec(fields, c, Seq::empty()) {
        Ok(entries) => Ok(ir::StructView { fields: entries, parent: opt_box_ctxt(c) }),
        Err(er) => Err(er),
    }
}

/// Lowers a parameter list in order onto the accumulated entries, like
/// fields: declared types are lowered under the enclosing context,
/// collisions are rejected, the placeholder is skipped.
pub open spec fn lower_params_spec(
    params: Seq<ast::ParamView>,
    c: Option<ir::CtxtView>,
    acc: Seq<(ir::IdentView, bool, ir::ExprView)>,
) -> Result<Seq<(ir::IdentView, bool, ir::ExprView)>, LowerErrView>
    decreases params,
{
    if params.len() == 0 {
        Ok(acc)
    } else {
        let rest = params.drop_first();
        let p = params[0];
        let key = lower_ident(p.ident);
        match lower_expr_spec(*p.expr, c) {
            Ok(v) => if key is Void {
                lower_params_spec(rest, c, acc)
            } else if has_arg_key(acc, key) {
                Err(LowerErrView::DuplicateArgument(key))
            } else {
                lower_params_spec(rest, c, acc.push((key, p.is_mut, v)))
            },
            Err(er) => Err(er),
        }
    }
}

/// Lowers a parameter list to an args scope whose parent is the
/// enclosing context.
pub open spec fn lower_args_scope_spec(params: Seq<ast::ParamView>, c: Option<ir::CtxtView>) -> Result<
    ir::ArgsView,
    LowerErrView,
>
{
    match lower_params_spec(params, c, Seq::empty()) {
        Ok(entries) => Ok(ir::ArgsView { args: entries, parent: opt_box_ctxt(c) }),
        Err(er) => Err(er),
    }
}

/// Lowers a statement list in order. A block threads no scope of its
/// own: every statement is lowered under the unchanged context. Spacer
/// statements vanish; assignments and compound assignments are shapes
/// no surface feature lowers yet.
pub open spec fn lower_stmts_spec(
    stmts: Seq<ast::StmtView>,
    c: Option<ir::CtxtView>,
    acc: Seq<ir::StmtView>,
) -> Result<Seq<ir::StmtView>, LowerErrView>
    decreases stmts,
{
    if stmts.len() == 0 {
        Ok(acc)
    } else {
        let rest = stmts.drop_first();
        match stmts[0] {
            ast::StmtView::Bind(id, e) => match lower_expr_spec(*e, c) {
                Ok(v) => lower_stmts_spec(
                    rest,
                    c,
                    acc.push(ir::StmtView::Bind(lower_ident(id), Box::new(v))),
                ),
                Err(er) => Err(er),
            },
            ast::StmtView::BindMut(id, t, e) => match lower_expr_spec(*t, c) {
                Ok(tv) => match lower_expr_spec(*e, c) {
                    Ok(v) => lower_stmts_spec(
                        rest,
                        c,
                        acc.push(
                            ir::StmtView::BindMut(lower_ident(id), Box::new(tv), Box::new(v)),
                        ),
                    ),
                    Err(er) => Err(er),
                },
                Err(er) => Err(er),
            },
            ast::StmtView::Expr(e) => match lower_expr_spec(*e, c) {
                Ok(v) => lower_stmts_spec(rest, c, acc.push(ir::StmtView::Expr(Box::new(v)))),
                Err(er) => Err(er),
            },
            ast::StmtView::Spacer => lower_stmts_spec(rest, c, acc),
            ast::StmtView::Write(_, _) => Err(LowerErrView::UnsupportedShape),
            ast::StmtView::Update(_, _, _) => Err(LowerErrView::UnsupportedShape),
        }
    }
}

/// Lowers a call argument list in order; the mutability marks on call
/// arguments are surface syntax and drop away.
pub open spec fn lower_call_args_spec(
    args: Seq<ast::ArgView>,
    c: Option<ir::CtxtView>,
    acc: Seq<ir::ExprView>,
) -> Result<Seq<ir::ExprView>, LowerErrView>
    decreases args,
{
    if args.len() == 0 {
        Ok(acc)
    } else {
        match lower_expr_spec(*args[0].expr, c) {
            Ok(v) => lower_call_args_spec(args.drop_first(), c, acc.push(v)),
            Err(er) => Err(er),
        }
    }
}

// ---------------------------------------------------------------------
// Result views: what an executable lowering result means.
// ---------------------------------------------------------------------

/// The view of a lowered-expression result.
pub open spec fn res_expr_view(r: Result<ir::Expr, LowerError>) -> Result<
    ir::ExprView,
    LowerErrView,
> {
    match r {
        Ok(e) => Ok(ir::expr_view(e)),
        Err(e) => Err(e@),
    }
}

/// The view of a lowered-scope result.
pub open spec fn res_struct_view(r: Result<ir::Struct, LowerError>) -> Result<
    ir::StructView,
    LowerErrView,
> {
    match r {
        Ok(s) => Ok(ir::struct_view(s)),
        Err(e) => Err(e@),
    }
}

/// The view of a lowered-args-scope result.
pub open spec fn res_args_view(r: Result<ir::Args, LowerError>) -> Result<
    ir::ArgsView,
    LowerErrView,
> {
    match r {
        Ok(a) => Ok(ir::args_view(a)),
        Err(e) => Err(e@),
    }
}

/// The view of a lowered-block result.
pub open spec fn res_block_view(r: Result<ir::Block, LowerError>) -> Result<
    Seq<ir::StmtView>,
    LowerErrView,
> {
    match r {
        Ok(b) => Ok(ir::stmts_view(b.stmts@)),
        Err(e) => Err(e@),
    }
}

/// The view of a lowered-identifier result.
pub open spec fn res_ident_view(r: Result<ir::Ident, LowerError>) -> Result<
    ir::IdentView,
    LowerErrView,
> {
    match r {
        Ok(id) => Ok(id@),
        Err(e) => Err(e@),
    }
}

/// The view of an accumulated field-entry result.
pub open spec fn res_entries_view(r: Result<Vec<(ir::Ident, ir::Expr)>, LowerError>) -> Result<
    Seq<(ir::IdentView, ir::ExprView)>,
    LowerErrView,
> {
    match r {
        Ok(v) => Ok(ir::fields_entries(v@)),
        Err(e) => Err(e@),
    }
}

/// The view of an accumulated parameter-entry result.
pub open spec fn res_arg_entries_view(
    r: Result<Vec<(ir::Ident, (bool, ir::Expr))>, LowerError>,
) -> Result<Seq<(ir::IdentView, bool, ir::ExprView)>, LowerErrView> {
    match r {
        Ok(v) => Ok(ir::args_entries(v@)),
        Err(e) => Err(e@),
    }
}

/// The view of an accumulated statement result.
pub open spec fn res_stmts_view(r: Result<Vec<ir::Stmt>, LowerError>) -> Result<
    Seq<ir::StmtView>,
    LowerErrView,
> {
    match r {
        Ok(v) => Ok(ir::stmts_view(v@)),
        Err(e) => Err(e@),
    }
}

/// The view of an accumulated call-argument result.
pub open spec fn res_exprs_view(r: Result<Vec<ir::Expr>, LowerError>) -> Result<
    Seq<ir::ExprView>,
    LowerErrView,
> {
    match r {
        Ok(v) => Ok(ir::exprs_view(v@)),
        Err(e) => Err(e@),
    }
}

// ---------------------------------------------------------------------
// The executable lowering. Each function mirrors its spec function and
// returns exactly what the spec function returns.
// ---------------------------------------------------------------------

/// A duplicated context, stored as a scope's parent, views as the
/// given context, boxed.
proof fn lemma_parent_view_box(r: Option<ir::Ctxt>, cv: Option<ir::CtxtView>)
    requires
        ir::opt_ctxt_view(r) == cv,
    ensures
        ir::parent_view(r) == opt_box_ctxt(cv),
{
    match r {
        Some(x) => {
            assert(cv == Some(ir::ctxt_view(x)));
        },
        None => {},
    }
}

/// Resolves a surface identifier to its IR tag.
fn ident_to_ir(id: ast::Ident) -> (r: ir::Ident)
    ensures
        r@ == lower_ident(id@),
{
    if id.is_void {
        ir::Ident::Void
    } else if id.is_type {
        ir::Ident::TIdent(id.name)
    } else {
        ir::Ident::VIdent(id.name)
    }
}

/// Carries a primitive literal over.
fn prim_to_ir(p: ast::Prim) -> (r: ir::Prim)
    ensures
        r@ == lower_prim(p@),
{
    match p {
        ast::Prim::I32(n) => ir::Prim::I32(n),
        ast::Prim::String(s) => ir::Prim::String(s),
        ast::Prim::Char(c) => ir::Prim::Char(c),
    }
}

/// Duplicates an optional context for storage as a scope parent.
fn clone_opt_ctxt(c: &Option<ir::Ctxt>) -> (r: Option<ir::Ctxt>)
    ensures
        ir::opt_ctxt_view(r) == ir::opt_ctxt_view(*c),
{
    match c {
        Some(x) => Some(x.clone()),
        None => None,
    }
}

/// Whether the accumulated fields already bind `key`.
#[verifier::loop_isolation(false)]
fn contains_field_key(entries: &Vec<(ir::Ident, ir::Expr)>, key: &ir::Ident) -> (r: bool)
    ensures
        r == has_field_key(ir::fields_entries(entries@), key@),
{
    let n = entries.len();
    for i in 0..n
        invariant
            forall|j: int| #![trigger entries@[j]] 0 <= j < i ==> entries@[j].0@ != key@,
        decreases n - i,
    {
        if entries[i].0 == *key {
            proof {
                ir::lemma_fields_entries_index(entries@, i as int);
            }
            return true;
        }
    }
    proof {
        ir::lemma_fields_entries_len(entries@);
        assert forall|j: int| 0 <= j < ir::fields_entries(entries@).len() implies (
        #[trigger] ir::fields_entries(entries@)[j]).0 != key@ by {
            ir::lemma_fields_entries_index(entries@, j);
        };
    }
    false
}

/// Whether the accumulated parameters already bind `key`.
#[verifier::loop_isolation(false)]
fn contains_arg_key(entries: &Vec<(ir::Ident, (bool, ir::Expr))>, key: &ir::Ident) -> (r: bool)
    ensures
        r == has_arg_key(ir::args_entries(entries@), key@),
{
    let n = entries.len();
    for i in 0..n
        invariant
            forall|j: int| #![trigger entries@[j]] 0 <= j < i ==> entries@[j].0@ != key@,
        decreases n - i,
    {
        if entries[i].0 == *key {
            proof {
                ir::lemma_args_entries_index(entries@, i as int);
            }
            return true;
        }
    }
    proof {
        ir::lemma_args_entries_len(entries@);
        assert forall|j: int| 0 <= j < ir::args_entries(entries@).len() implies (
        #[trigger] ir::args_entries(entries@)[j]).0 != key@ by {
            ir::lemma_args_entries_index(entries@, j);
        };
    }
    false
}

/// Splices the fields of a resolved scope onto the accumulated
/// entries, in order, rejecting the first already-bound key.
fn merge_fields(acc: Vec<(ir::Ident, ir::Expr)>, src: Vec<(ir::Ident, ir::Expr)>) -> (r: Result<
    Vec<(ir::Ident, ir::Expr)>,
    LowerError,
>)
    ensures
        res_entries_view(r) == merge_entries(
            ir::fields_entries(acc@),
            ir::fields_entries(src@),
        ),
    decreases src@.len(),
{
    if src.len() == 0 {
        return Ok(acc);
    }
    let ghost src0 = src@;
    let mut src = src;
    let entry = src.remove(0);
    proof {
        assert(src@ =~= src0.drop_first());
        ir::lemma_fields_entries_index(src0, 0);
        assert(ir::fields_entries(src0).drop_first() =~= ir::fields_entries(src0.drop_first()));
    }
    if contains_field_key(&acc, &entry.0) {
        Err(LowerError::DuplicateField(entry.0))
    } else {
        let mut acc = acc;
        proof {
            ir::lemma_fields_entries_push(acc@, entry);
        }
        acc.push(entry);
        merge_fields(acc, src)
    }
}

/// Lowers one expression under an optional enclosing context.
fn lower_expr<M: NodeMeta>(e: ast::Expr<M>, c: &Option<ir::Ctxt>) -> (r: Result<
    ir::Expr,
    LowerError,
>)
    ensures
        res_expr_view(r) == lower_expr_spec(ast::expr_view(e), ir::opt_ctxt_view(*c)),
    decreases e,
{
    let ghost ev = ast::expr_view(e);
    let ghost cv = ir::opt_ctxt_view(*c);
    match e {
        ast::Expr::Ident(id) => Ok(ir::Expr::Ident(ident_to_ir(id))),
        ast::Expr::Prim(p) => Ok(ir::Expr::Prim(prim_to_ir(p))),
        ast::Expr::Struct(st) => {
            let ghost fv = ast::fields_view(st.fields@);
            proof {
                assert(ev == ast::ExprView::Struct(fv));
                assert(ir::fields_entries(Seq::<(ir::Ident, ir::Expr)>::empty()) =~= Seq::<
                    (ir::IdentView, ir::ExprView),
                >::empty());
            }
            match lower_fields(st.fields, c, Vec::new()) {
                Ok(entries) => {
                    proof {
                        assert(Ok::<Seq<(ir::IdentView, ir::ExprView)>, LowerErrView>(
                            ir::fields_entries(entries@),
                        ) == lower_fields_spec(fv, cv, Seq::empty()));
                        lemma_lower_struct_step(fv, cv, ir::fields_entries(entries@));
                    }
                    let ghost ent = ir::fields_entries(entries@);
                    let parent = clone_opt_ctxt(c);
                    proof {
                        lemma_parent_view_box(parent, cv);
                    }
                    let sx = ir::Struct { fields: entries, parent };
                    proof {
                        assert(ir::fields_entries(sx.fields@) == ent);
                        assert(ir::struct_view(sx) == (ir::StructView {
                            fields: ent,
                            parent: opt_box_ctxt(cv),
                        }));
                    }
                    let res = ir::Expr::Struct(Box::new(sx));
                    proof {
                        assert(ir::expr_view(res) == ir::ExprView::Struct(
                            Box::new(ir::struct_view(sx)),
                        ));
                        assert(res_expr_view(Ok::<ir::Expr, LowerError>(res)) == lower_expr_spec(
                            ev,
                            cv,
                        ));
                    }
                    Ok(res)
                },
                Err(er) => Err(er),
            }
        },
        ast::Expr::Block(b) => {
            let ghost sv0 = ast::stmts_view(b.stmts@);
            proof {
                assert(ev == ast::ExprView::Block(sv0));
                assert(ir::stmts_view(Seq::<ir::Stmt>::empty()) =~= Seq::<ir::StmtView>::empty());
            }
            match lower_stmts(b.stmts, c, Vec::new()) {
                Ok(stmts) => {
                    let res = ir::Expr::Block(ir::Block { stmts });
                    proof {
                        assert(res_expr_view(Ok::<ir::Expr, LowerError>(res)) == lower_expr_spec(
                            ev,
                            cv,
                        ));
                    }
                    Ok(res)
                },
                Err(er) => Err(er),
            }
        },
        ast::Expr::Unop(_) => Err(LowerError::UnsupportedShape),
        ast::Expr::Binop(b) => {
            let lhs_node = *b.lhs;
            let rhs_node = *b.rhs;
            proof {
                assert(ev == ast::ExprView::Binop(
                    Box::new(ast::expr_view(lhs_node.elt)),
                    b.op,
                    Box::new(ast::expr_view(rhs_node.elt)),
                ));
            }
            match lower_expr(lhs_node.elt, c) {
                Ok(l) => match lower_expr(rhs_node.elt, c) {
                    Ok(rv) => {
                        let ghost lv = ir::expr_view(l);
                        let ghost rvv = ir::expr_view(rv);
                        let mut args: Vec<ir::Expr> = Vec::new();
                        proof {
                            ir::lemma_exprs_view_push(args@, l);
                        }
                        args.push(l);
                        proof {
                            ir::lemma_exprs_view_push(args@, rv);
                        }
                        args.push(rv);
                        proof {
                            assert(ir::exprs_view(args@) =~= seq![lv, rvv]);
                        }
                        let func_box = Box::new(ir::Expr::Ident(ir::Ident::Binop(b.op)));
                        proof {
                            assert(*func_box == ir::Expr::Ident(ir::Ident::Binop(b.op)));
                            assert(ir::expr_view(*func_box) == ir::ExprView::Ident(
                                ir::IdentView::Binop(b.op),
                            ));
                        }
                        let call_struct = ir::Call { func: func_box, args };
                        proof {
                            assert(ir::expr_view(*call_struct.func) == ir::ExprView::Ident(
                                ir::IdentView::Binop(b.op),
                            ));
                            assert(ir::exprs_view(call_struct.args@) == seq![lv, rvv]);
                        }
                        let res = ir::Expr::Call(call_struct);
                        proof {
                            assert(lower_expr_spec(ast::expr_view(lhs_node.elt), cv) == Ok::<
                                ir::ExprView,
                                LowerErrView,
                            >(lv));
                            assert(lower_expr_spec(ast::expr_view(rhs_node.elt), cv) == Ok::<
                                ir::ExprView,
                                LowerErrView,
                            >(rvv));
                            assert(ir::expr_view(res) == ir::ExprView::Call(
                                Box::new(ir::ExprView::Ident(ir::IdentView::Binop(b.op))),
                                seq![lv, rvv],
                            ));
                            assert(lower_expr_spec(ev, cv) == Ok::<ir::ExprView, LowerErrView>(
                                ir::ExprView::Call(
                                    Box::new(ir::ExprView::Ident(ir::IdentView::Binop(b.op))),
                                    seq![lv, rvv],
                                ),
                            ));
                            assert(res_expr_view(Ok::<ir::Expr, LowerError>(res))
                                == lower_expr_spec(ev, cv));
                        }
                        Ok(res)
                    },
                    Err(er) => Err(er),
                },
                Err(er) => Err(er),
            }
        },
        ast::Expr::Func(f) => {
            let body_node = *f.body;
            let params_vec = f.params.elt.params;
            let ghost pv0 = ast::params_view(params_vec@);
            proof {
                assert(ev == ast::ExprView::Func(pv0, Box::new(ast::expr_view(body_node.elt))));
                assert(ir::args_entries(Seq::<(ir::Ident, (bool, ir::Expr))>::empty()) =~= Seq::<
                    (ir::IdentView, bool, ir::ExprView),
                >::empty());
            }
            match lower_params(params_vec, c, Vec::new()) {
                Ok(entries) => {
                    let ghost entv = ir::args_entries(entries@);
                    let parent = clone_opt_ctxt(c);
                    proof {
                        lemma_parent_view_box(parent, cv);
                    }
                    let scope = ir::Args { args: entries, parent };
                    proof {
                        assert(ir::args_view(scope) == (ir::ArgsView {
                            args: entv,
                            parent: opt_box_ctxt(cv),
                        }));
                    }
                    let body_ctxt = Some(ir::Ctxt::Args(Box::new(scope.clone())));
                    proof {
                        assert(ir::opt_ctxt_view(body_ctxt) == Some(
                            ir::CtxtView::Args(Box::new(ir::args_view(scope))),
                        ));
                    }
                    match lower_expr(body_node.elt, &body_ctxt) {
                        Ok(bv) => {
                            let res = ir::Expr::Func(
                                ir::Func { args: Box::new(scope), body: Box::new(bv) },
                            );
                            proof {
                                assert(res_expr_view(Ok::<ir::Expr, LowerError>(res))
                                    == lower_expr_spec(ev, cv));
                            }
                            Ok(res)
                        },
                        Err(er) => Err(er),
                    }
                },
                Err(er) => Err(er),
            }
        },
        ast::Expr::Call(cl) => {
            let func_node = *cl.func;
            let args_vec = cl.args.elt.args;
            let ghost av0 = ast::call_args_view(args_vec@);
            proof {
                assert(ev == ast::ExprView::Call(
                    Box::new(ast::expr_view(func_node.elt)),
                    av0,
                    cl.method_syntax,
                ));
                assert(ir::exprs_view(Seq::<ir::Expr>::empty()) =~= Seq::<ir::ExprView>::empty());
            }
            match lower_expr(func_node.elt, c) {
                Ok(fv) => match lower_call_args(args_vec, c, Vec::new()) {
                    Ok(avs) => {
                        let res = ir::Expr::Call(ir::Call { func: Box::new(fv), args: avs });
                        proof {
                            assert(res_expr_view(Ok::<ir::Expr, LowerError>(res))
                                == lower_expr_spec(ev, cv));
                        }
                        Ok(res)
                    },
                    Err(er) => Err(er),
                },
                Err(er) => Err(er),
            }
        },
        ast::Expr::Constructor(con) => {
            let ghost fv = ast::fields_view(con.fields.fields@);
            let ghost nv = con.name@;
            proof {
                assert(ev == ast::ExprView::Constructor(nv, fv));
                assert(ir::fields_entries(Seq::<(ir::Ident, ir::Expr)>::empty()) =~= Seq::<
                    (ir::IdentView, ir::ExprView),
                >::empty());
            }
            let key = ident_to_ir(con.name);
            match lower_fields(con.fields.fields, c, Vec::new()) {
                Ok(entries) => {
                    let ghost ent = ir::fields_entries(entries@);
                    let parent = clone_opt_ctxt(c);
                    proof {
                        lemma_parent_view_box(parent, cv);
                    }
                    let sx = ir::Struct { fields: entries, parent };
                    proof {
                        assert(ir::struct_view(sx) == (ir::StructView {
                            fields: ent,
                            parent: opt_box_ctxt(cv),
                        }));
                    }
                    let res = ir::Expr::Constructor(key, Box::new(sx));
                    proof {
                        assert(res_expr_view(Ok::<ir::Expr, LowerError>(res)) == lower_expr_spec(
                            ev,
                            cv,
                        ));
                    }
                    Ok(res)
                },
                Err(er) => Err(er),
            }
        },
        ast::Expr::Project(p) => {
            let expr_node = *p.expr;
            let ghost fid = p.field@;
            proof {
                assert(ev == ast::ExprView::Project(
                    Box::new(ast::expr_view(expr_node.elt)),
                    fid,
                ));
            }
            match lower_expr(expr_node.elt, c) {
                Ok(v) => {
                    let res = ir::Expr::Project(
                        ir::Project { expr: Box::new(v), field: ident_to_ir(p.field) },
                    );
                    proof {
                        assert(res_expr_view(Ok::<ir::Expr, LowerError>(res)) == lower_expr_spec(
                            ev,
                            cv,
                        ));
                    }
                    Ok(res)
                },
                Err(er) => Err(er),
            }
        },
    }
}

/// Lowers a field list in order onto the accumulated entries.
fn lower_fields<M: NodeMeta>(
    fields: Vec<crate::node::Node<ast::Field<M>, M>>,
    c: &Option<ir::Ctxt>,
    acc: Vec<(ir::Ident, ir::Expr)>,
) -> (r: Result<Vec<(ir::Ident, ir::Expr)>, LowerError>)
    ensures
        res_entries_view(r) == lower_fields_spec(
            ast::fields_view(fields@),
            ir::opt_ctxt_view(*c),
            ir::fields_entries(acc@),
        ),
    decreases fields@,
{
    if fields.len() == 0 {
        return Ok(acc);
    }
    let ghost fs0 = fields@;
    let mut fields = fields;
    let f = fields.remove(0);
    proof {
        assert(fields@ =~= fs0.drop_first());
        assert(ast::fields_view(fs0).drop_first() =~= ast::fields_view(fs0.drop_first()));
        assert(ast::fields_view(fs0)[0] == ast::field_view(f.elt));
    }
    let ghost cv = ir::opt_ctxt_view(*c);
    let ghost fv = ast::fields_view(fs0);
    let ghost acc0 = ir::fields_entries(acc@);
    match f.elt {
        ast::Field::Spacer => lower_fields(fields, c, acc),
        ast::Field::Field(id, en) => {
            let ghost idv = id@;
            proof {
                assert(fv[0] == ast::FieldView::Field(idv, Box::new(ast::expr_view(en.elt))));
            }
            let key = ident_to_ir(id);
            match lower_expr(en.elt, c) {
                Ok(v) => {
                    if let ir::Ident::Void = key {
                        let r2 = lower_fields(fields, c, acc);
                        proof {
                            assert(res_entries_view(r2) == lower_fields_spec(fv, cv, acc0));
                        }
                        r2
                    } else if contains_field_key(&acc, &key) {
                        let res = Err::<Vec<(ir::Ident, ir::Expr)>, LowerError>(
                            LowerError::DuplicateField(key),
                        );
                        proof {
                            assert(res_entries_view(res) == lower_fields_spec(fv, cv, acc0));
                        }
                        res
                    } else {
                        let mut acc = acc;
                        proof {
                            ir::lemma_fields_entries_push(acc@, (key, v));
                        }
                        acc.push((key, v));
                        let r2 = lower_fields(fields, c, acc);
                        proof {
                            assert(res_entries_view(r2) == lower_fields_spec(fv, cv, acc0));
                        }
                        r2
                    }
                },
                Err(er) => Err(er),
            }
        },
        ast::Field::Inline(e) => {
            proof {
                ast::lemma_expr_view_shape(e);
            }
            match e {
                ast::Expr::Ident(id) => {
                    let ghost idv = id@;
                    proof {
                        assert(fv[0] == ast::FieldView::Inline(
                            Box::new(ast::ExprView::Ident(idv)),
                        ));
                    }
                    let ns = id.nshadow;
                    let key = ident_to_ir(id);
                    let found = match c {
                        Some(cx) => cx.lookup_at(key.clone(), ns),
                        None => None,
                    };
                    proof {
                        assert(ir::opt_expr_view(found) == lookup_at_opt(cv, key@, ns as nat));
                    }
                    match found {
                        None => Err(LowerError::UnresolvedInline(key)),
                        Some(fe) => {
                            let ghost fev = ir::expr_view(fe);
                            proof {
                                ir::lemma_expr_view_struct_shape(fe);
                            }
                            match fe {
                                ir::Expr::Struct(sb) => {
                                    let sv = *sb;
                                    proof {
                                        assert(fev == ir::ExprView::Struct(
                                            Box::new(ir::struct_view(sv)),
                                        ));
                                    }
                                    match merge_fields(acc, sv.fields) {
                                        Ok(acc2) => {
                                            let r2 = lower_fields(fields, c, acc2);
                                            proof {
                                                assert(res_entries_view(r2) == lower_fields_spec(
                                                    fv,
                                                    cv,
                                                    acc0,
                                                ));
                                            }
                                            r2
                                        },
                                        Err(er) => Err(er),
                                    }
                                },
                                _ => Err(LowerError::IllegalInline),
                            }
                        },
                    }
                },
                ast::Expr::Struct(st) => {
                    let ghost iv = ast::fields_view(st.fields@);
                    proof {
                        assert(fv[0] == ast::FieldView::Inline(
                            Box::new(ast::ExprView::Struct(iv)),
                        ));
                        assert(ir::fields_entries(Seq::<(ir::Ident, ir::Expr)>::empty()) =~= Seq::<
                            (ir::IdentView, ir::ExprView),
                        >::empty());
                    }
                    match lower_fields(st.fields, c, Vec::new()) {
                        Ok(src) => match merge_fields(acc, src) {
                            Ok(acc2) => {
                                let r2 = lower_fields(fields, c, acc2);
                                proof {
                                    assert(res_entries_view(r2) == lower_fields_spec(
                                        fv,
                                        cv,
                                        acc0,
                                    ));
                                }
                                r2
                            },
                            Err(er) => Err(er),
                        },
                        Err(er) => Err(er),
                    }
                },
                _ => Err(LowerError::IllegalInline),
            }
        },
    }
}

/// Lowers a parameter list in order onto the accumulated entries.
fn lower_params<M: NodeMeta>(
    params: Vec<crate::node::Node<ast::Param<M>, M>>,
    c: &Option<ir::Ctxt>,
    acc: Vec<(ir::Ident, (bool, ir::Expr))>,
) -> (r: Result<Vec<(ir::Ident, (bool, ir::Expr))>, LowerError>)
    ensures
        res_arg_entries_view(r) == lower_params_spec(
            ast::params_view(params@),
            ir::opt_ctxt_view(*c),
            ir::args_entries(acc@),
        ),
    decreases params@,
{
    if params.len() == 0 {
        return Ok(acc);
    }
    let ghost ps0 = params@;
    let mut params = params;
    let p = params.remove(0);
    proof {
        assert(params@ =~= ps0.drop_first());
        assert(ast::params_view(ps0).drop_first() =~= ast::params_view(ps0.drop_first()));
        assert(ast::params_view(ps0)[0] == ast::param_view(p.elt));
    }
    let param = p.elt;
    let is_mut = param.is_mut;
    let key = ident_to_ir(param.ident);
    match lower_expr(param.expr.elt, c) {
        Ok(v) => {
            if let ir::Ident::Void = key {
                lower_params(params, c, acc)
            } else if contains_arg_key(&acc, &key) {
                Err(LowerError::DuplicateArgument(key))
            } else {
                let mut acc = acc;
                proof {
                    ir::lemma_args_entries_push(acc@, (key, (is_mut, v)));
                }
                acc.push((key, (is_mut, v)));
                lower_params(params, c, acc)
            }
        },
        Err(er) => Err(er),
    }
}

/// Lowers a statement list in order onto the accumulated statements.
fn lower_stmts<M: NodeMeta>(
    stmts: Vec<crate::node::Node<ast::Stmt<M>, M>>,
    c: &Option<ir::Ctxt>,
    acc: Vec<ir::Stmt>,
) -> (r: Result<Vec<ir::Stmt>, LowerError>)
    ensures
        res_stmts_view(r) == lower_stmts_spec(
            ast::stmts_view(stmts@),
            ir::opt_ctxt_view(*c),
            ir::stmts_view(acc@),
        ),
    decreases stmts@,
{
    if stmts.len() == 0 {
        return Ok(acc);
    }
    let ghost ss0 = stmts@;
    let mut stmts = stmts;
    let st = stmts.remove(0);
    proof {
        assert(stmts@ =~= ss0.drop_first());
        assert(ast::stmts_view(ss0).drop_first() =~= ast::stmts_view(ss0.drop_first()));
        assert(ast::stmts_view(ss0)[0] == ast::stmt_view(st.elt));
    }
    match st.elt {
        ast::Stmt::Bind(b) => {
            let key = ident_to_ir(b.name);
            match lower_expr(b.value.elt, c) {
                Ok(v) => {
                    let mut acc = acc;
                    proof {
                        ir::lemma_stmts_view_push(acc@, ir::Stmt::Bind(key, v));
                    }
                    acc.push(ir::Stmt::Bind(key, v));
                    lower_stmts(stmts, c, acc)
                },
                Err(er) => Err(er),
            }
        },
        ast::Stmt::BindMut(b) => {
            let key = ident_to_ir(b.name);
            match lower_expr(b.initial.elt, c) {
                Ok(tv) => match lower_expr(b.update.elt, c) {
                    Ok(v) => {
                        let mut acc = acc;
                        proof {
                            ir::lemma_stmts_view_push(acc@, ir::Stmt::BindMut(key, tv, v));
                        }
                        acc.push(ir::Stmt::BindMut(key, tv, v));
                        lower_stmts(stmts, c, acc)
                    },
                    Err(er) => Err(er),
                },
                Err(er) => Err(er),
            }
        },
        ast::Stmt::Expr(en) => match lower_expr(en.elt, c) {
            Ok(v) => {
                let mut acc = acc;
                proof {
                    ir::lemma_stmts_view_push(acc@, ir::Stmt::Expr(v));
                }
                acc.push(ir::Stmt::Expr(v));
                lower_stmts(stmts, c, acc)
            },
            Err(er) => Err(er),
        },
        ast::Stmt::Spacer => lower_stmts(stmts, c, acc),
        ast::Stmt::Write(_) => Err(LowerError::UnsupportedShape),
        ast::Stmt::Update(_) => Err(LowerError::UnsupportedShape),
    }
}

/// Lowers a call argument list in order onto the accumulated arguments.
fn lower_call_args<M: NodeMeta>(
    args: Vec<crate::node::Node<ast::Arg<M>, M>>,
    c: &Option<ir::Ctxt>,
    acc: Vec<ir::Expr>,
) -> (r: Result<Vec<ir::Expr>, LowerError>)
    ensures
        res_exprs_view(r) == lower_call_args_spec(
            ast::call_args_view(args@),
            ir::opt_ctxt_view(*c),
            ir::exprs_view(acc@),
        ),
    decreases args@,
{
    if args.len() == 0 {
        return Ok(acc);
    }
    let ghost as0 = args@;
    let mut args = args;
    let a = args.remove(0);
    proof {
        assert(args@ =~= as0.drop_first());
        assert(ast::call_args_view(as0).drop_first() =~= ast::call_args_view(as0.drop_first()));
        assert(ast::call_args_view(as0)[0] == ast::call_arg_view(a.elt));
    }
    match lower_expr(a.elt.expr.elt, c) {
        Ok(v) => {
            let mut acc = acc;
            proof {
                ir::lemma_exprs_view_push(acc@, v);
            }
            acc.push(v);
            lower_call_args(args, c, acc)
        },
        Err(er) => Err(er),
    }
}

// ---------------------------------------------------------------------
// The public lowering interface.
// ---------------------------------------------------------------------

/// Lowering into the IR: every syntax element lowers to its IR
/// counterpart, or to the first error met. What each implementation
/// produces is pinned by its `lowers_to` relation, which ties the
/// result to the corresponding `lower_*_spec` function.
pub trait IntoIr: Sized {
    /// The IR element this lowers to.
    type Ir;

    /// The meaning of `into_ir`: relates the input, the context and the
    /// result.
    spec fn lowers_to(&self, ctxt: Option<ir::Ctxt>, r: Result<Self::Ir, LowerError>) -> bool;

    /// Lowers `self` under the given enclosing context.
    fn into_ir(self, ctxt: Option<ir::Ctxt>) -> (r: Result<Self::Ir, LowerError>)
        ensures
            self.lowers_to(ctxt, r),
    ;
}

impl<M: NodeMeta> IntoIr for ast::Struct<M> {
    type Ir = ir::Struct;

    /// The result is exactly what [`lower_struct_spec`] gives.
    open spec fn lowers_to(&self, ctxt: Option<ir::Ctxt>, r: Result<ir::Struct, LowerError>) -> bool {
        res_struct_view(r) == lower_struct_spec(
            ast::fields_view(self.fields@),
            ir::opt_ctxt_view(ctxt),
        )
    }

    fn into_ir(self, ctxt: Option<ir::Ctxt>) -> (r: Result<ir::Struct, LowerError>) {
        match lower_fields(self.fields, &ctxt, Vec::new()) {
            Ok(entries) => Ok(ir::Struct { fields: entries, parent: ctxt }),
            Err(er) => Err(er),
        }
    }
}

impl<M: NodeMeta> IntoIr for ast::Params<M> {
    type Ir = ir::Args;

    /// The result is exactly what [`lower_args_scope_spec`] gives.
    open spec fn lowers_to(&self, ctxt: Option<ir::Ctxt>, r: Result<ir::Args, LowerError>) -> bool {
        res_args_view(r) == lower_args_scope_spec(
            ast::params_view(self.params@),
            ir::opt_ctxt_view(ctxt),
        )
    }

    fn into_ir(self, ctxt: Option<ir::Ctxt>) -> (r: Result<ir::Args, LowerError>) {
        match lower_params(self.params, &ctxt, Vec::new()) {
            Ok(entries) => Ok(ir::Args { args: entries, parent: ctxt }),
            Err(er) => Err(er),
        }
    }
}

impl<M: NodeMeta> IntoIr for ast::Args<M> {
    type Ir = Vec<ir::Expr>;

    /// The result is exactly what [`lower_call_args_spec`] gives.
    open spec fn lowers_to(
        &self,
        ctxt: Option<ir::Ctxt>,
        r: Result<Vec<ir::Expr>, LowerError>,
    ) -> bool {
        res_exprs_view(r) == lower_call_args_spec(
            ast::call_args_view(self.args@),
            ir::opt_ctxt_view(ctxt),
            Seq::empty(),
        )
    }

    fn into_ir(self, ctxt: Option<ir::Ctxt>) -> (r: Result<Vec<ir::Expr>, LowerError>) {
        lower_call_args(self.args, &ctxt, Vec::new())
    }
}

impl IntoIr for ast::Ident {
    type Ir = ir::Ident;

    /// Resolving an identifier never fails; the result is its tag.
    open spec fn lowers_to(&self, ctxt: Option<ir::Ctxt>, r: Result<ir::Ident, LowerError>) -> bool {
        res_ident_view(r) == Ok::<ir::IdentView, LowerErrView>(lower_ident(self@))
    }

    fn into_ir(self, ctxt: Option<ir::Ctxt>) -> (r: Result<ir::Ident, LowerError>) {
        Ok(ident_to_ir(self))
    }
}

impl<M: NodeMeta> IntoIr for ast::Expr<M> {
    type Ir = ir::Expr;

    /// The result is exactly what [`lower_expr_spec`] gives.
    open spec fn lowers_to(&self, ctxt: Option<ir::Ctxt>, r: Result<ir::Expr, LowerError>) -> bool {
        res_expr_view(r) == lower_expr_spec(ast::expr_view(*self), ir::opt_ctxt_view(ctxt))
    }

    fn into_ir(self, ctxt: Option<ir::Ctxt>) -> (r: Result<ir::Expr, LowerError>) {
        lower_expr(self, &ctxt)
    }
}

impl<M: NodeMeta> IntoIr for ast::Block<M> {
    type Ir = ir::Block;

    /// The result is exactly what [`lower_stmts_spec`] gives.
    open spec fn lowers_to(&self, ctxt: Option<ir::Ctxt>, r: Result<ir::Block, LowerError>) -> bool {
        res_block_view(r) == lower_stmts_spec(
            ast::stmts_view(self.stmts@),
            ir::opt_ctxt_view(ctxt),
            Seq::empty(),
        )
    }

    fn into_ir(self, ctxt: Option<ir::Ctxt>) -> (r: Result<ir::Block, LowerError>) {
        match lower_stmts(self.stmts, &ctxt, Vec::new()) {
            Ok(stmts) => Ok(ir::Block { stmts }),
            Err(er) => Err(er),
        }
    }
}


/// Unfolds the structure-literal case of [`lower_expr_spec`]: when the
/// field list lowers to `entries`, the whole literal lowers to a scope
/// holding them whose parent is the enclosing context.
proof fn lemma_lower_struct_step(
    fv: Seq<ast::FieldView>,
    cv: Option<ir::CtxtView>,
    entries: Seq<(ir::IdentView, ir::ExprView)>,
)
    requires
        lower_fields_spec(fv, cv, Seq::empty()) == Ok::<
            Seq<(ir::IdentView, ir::ExprView)>,
            LowerErrView,
        >(entries),
    ensures
        lower_expr_spec(ast::ExprView::Struct(fv), cv) == Ok::<ir::ExprView, LowerErrView>(
            ir::ExprView::Struct(
                Box::new(ir::StructView { fields: entries, parent: opt_box_ctxt(cv) }),
            ),
        ),
{
}


// ---------------------------------------------------------------------
// Laws of lowering.
// ---------------------------------------------------------------------

/// A field that is a spacer or a named, non-placeholder field whose
/// value lowers under `c`.
pub open spec fn named_ok(f: ast::FieldView, c: Option<ir::CtxtView>) -> bool {
    match f {
        ast::FieldView::Spacer => true,
        ast::FieldView::Field(id, e) => !(lower_ident(id) is Void) && lower_expr_spec(*e, c) is Ok,
        ast::FieldView::Inline(_) => false,
    }
}

/// The resolved key of a named field.
pub open spec fn field_key(f: ast::FieldView) -> ir::IdentView {
    match f {
        ast::FieldView::Field(id, _) => lower_ident(id),
        _ => ir::IdentView::Void,
    }
}

/// How many named fields a field list holds.
pub open spec fn count_named(fields: Seq<ast::FieldView>) -> nat
    decreases fields,
{
    if fields.len() == 0 {
        0
    } else {
        (if fields[0] is Field {
            1nat
        } else {
            0nat
        }) + count_named(fields.drop_first())
    }
}

/// Appending an entry binds its key and everything bound before.
proof fn lemma_has_field_key_push(
    acc: Seq<(ir::IdentView, ir::ExprView)>,
    x: (ir::IdentView, ir::ExprView),
    k: ir::IdentView,
)
    ensures
        has_field_key(acc.push(x), k) == (has_field_key(acc, k) || x.0 == k),
{
    if has_field_key(acc, k) {
        let i = choose|i: int| 0 <= i < acc.len() && (#[trigger] acc[i]).0 == k;
        assert(acc.push(x)[i].0 == k);
    }
    if x.0 == k {
        assert(acc.push(x)[acc.len() as int].0 == k);
    }
    if has_field_key(acc.push(x), k) {
        let i = choose|i: int| 0 <= i < acc.push(x).len() && (#[trigger] acc.push(x)[i]).0 == k;
        if i < acc.len() {
            assert(acc[i].0 == k);
        }
    }
}

/// Lowering a list of named fields with pairwise-distinct keys, none
/// already bound, succeeds and binds one entry per named field.
proof fn lemma_lower_fields_named(
    fields: Seq<ast::FieldView>,
    c: Option<ir::CtxtView>,
    acc: Seq<(ir::IdentView, ir::ExprView)>,
)
    requires
        forall|j: int| 0 <= j < fields.len() ==> named_ok(#[trigger] fields[j], c),
        forall|i: int, j: int| #![trigger fields[i], fields[j]]
            0 <= i < j < fields.len() && fields[i] is Field && fields[j] is Field ==> field_key(
                fields[i],
            ) != field_key(fields[j]),
        forall|j: int|
            0 <= j < fields.len() && (#[trigger] fields[j]) is Field ==> !has_field_key(
                acc,
                field_key(fields[j]),
            ),
    ensures
        lower_fields_spec(fields, c, acc) is Ok,
        lower_fields_spec(fields, c, acc)->Ok_0.len() == acc.len() + count_named(fields),
    decreases fields,
{
    if fields.len() > 0 {
        let rest = fields.drop_first();
        assert(fields[0] == fields[0]);
        assert forall|j: int| 0 <= j < rest.len() implies named_ok(#[trigger] rest[j], c) by {
            assert(rest[j] == fields[j + 1]);
        };
        assert forall|i: int, j: int| #![trigger rest[i], rest[j]]
            0 <= i < j < rest.len() && rest[i] is Field && rest[j] is Field implies field_key(
            rest[i],
        ) != field_key(rest[j]) by {
            assert(rest[i] == fields[i + 1] && rest[j] == fields[j + 1]);
        };
        match fields[0] {
            ast::FieldView::Spacer => {
                assert forall|j: int|
                    0 <= j < rest.len() && (#[trigger] rest[j]) is Field implies !has_field_key(
                    acc,
                    field_key(rest[j]),
                ) by {
                    assert(rest[j] == fields[j + 1]);
                };
                lemma_lower_fields_named(rest, c, acc);
            },
            ast::FieldView::Field(id, e) => {
                let key = lower_ident(id);
                let v = lower_expr_spec(*e, c)->Ok_0;
                let acc2 = acc.push((key, v));
                assert forall|j: int|
                    0 <= j < rest.len() && (#[trigger] rest[j]) is Field implies !has_field_key(
                    acc2,
                    field_key(rest[j]),
                ) by {
                    assert(rest[j] == fields[j + 1]);
                    lemma_has_field_key_push(acc, (key, v), field_key(rest[j]));
                };
                lemma_lower_fields_named(rest, c, acc2);
            },
            ast::FieldView::Inline(_) => {
                assert(!named_ok(fields[0], c));
                assert(false);
            },
        }
    }
}

/// For all structure literals of spacers and named fields whose values
/// lower and whose resolved names are pairwise distinct and never the
/// placeholder, lowering succeeds and the scope's field count equals
/// the number of named fields.
pub proof fn lemma_lower_struct_named(fields: Seq<ast::FieldView>, c: Option<ir::CtxtView>)
    requires
        forall|j: int| 0 <= j < fields.len() ==> named_ok(#[trigger] fields[j], c),
        forall|i: int, j: int| #![trigger fields[i], fields[j]]
            0 <= i < j < fields.len() && fields[i] is Field && fields[j] is Field ==> field_key(
                fields[i],
            ) != field_key(fields[j]),
    ensures
        lower_struct_spec(fields, c) is Ok,
        lower_struct_spec(fields, c)->Ok_0.fields.len() == count_named(fields),
{
    let acc = Seq::<(ir::IdentView, ir::ExprView)>::empty();
    assert forall|j: int|
        0 <= j < fields.len() && (#[trigger] fields[j]) is Field implies !has_field_key(
        acc,
        field_key(fields[j]),
    ) by {
        assert(acc.len() == 0);
    };
    lemma_lower_fields_named(fields, c, acc);
}

/// Lowering a list of named fields that repeats a resolved key, or
/// whose key is already bound, fails with a duplicate-binding error.
proof fn lemma_lower_fields_duplicate(
    fields: Seq<ast::FieldView>,
    c: Option<ir::CtxtView>,
    acc: Seq<(ir::IdentView, ir::ExprView)>,
)
    requires
        forall|j: int| 0 <= j < fields.len() ==> named_ok(#[trigger] fields[j], c),
        (exists|i: int, j: int| #![trigger fields[i], fields[j]]
            0 <= i < j < fields.len() && fields[i] is Field && fields[j] is Field && field_key(
                fields[i],
            ) == field_key(fields[j])) || (exists|j: int|
            0 <= j < fields.len() && (#[trigger] fields[j]) is Field && has_field_key(
                acc,
                field_key(fields[j]),
            )),
    ensures
        lower_fields_spec(fields, c, acc) is Err,
        lower_fields_spec(fields, c, acc)->Err_0 is DuplicateField,
    decreases fields,
{
    let rest = fields.drop_first();
    assert(fields.len() > 0);
    assert forall|j: int| 0 <= j < rest.len() implies named_ok(#[trigger] rest[j], c) by {
        assert(rest[j] == fields[j + 1]);
    };
    match fields[0] {
        ast::FieldView::Spacer => {
            if exists|i: int, j: int| #![trigger fields[i], fields[j]]
                0 <= i < j < fields.len() && fields[i] is Field && fields[j] is Field
                && field_key(fields[i]) == field_key(fields[j]) {
                let (i, j) = choose|i: int, j: int| #![trigger fields[i], fields[j]]
                    0 <= i < j < fields.len() && fields[i] is Field && fields[j] is Field
                        && field_key(fields[i]) == field_key(fields[j]);
                assert(rest[i - 1] == fields[i] && rest[j - 1] == fields[j]);
            } else {
                let j = choose|j: int|
                    0 <= j < fields.len() && (#[trigger] fields[j]) is Field && has_field_key(
                        acc,
                        field_key(fields[j]),
                    );
                assert(rest[j - 1] == fields[j]);
            }
            lemma_lower_fields_duplicate(rest, c, acc);
        },
        ast::FieldView::Field(id, e) => {
            let key = lower_ident(id);
            if has_field_key(acc, key) {
            } else {
                let v = lower_expr_spec(*e, c)->Ok_0;
                let acc2 = acc.push((key, v));
                if exists|i: int, j: int| #![trigger fields[i], fields[j]]
                    0 <= i < j < fields.len() && fields[i] is Field && fields[j] is Field
                    && field_key(fields[i]) == field_key(fields[j]) {
                    let (i, j) = choose|i: int, j: int| #![trigger fields[i], fields[j]]
                        0 <= i < j < fields.len() && fields[i] is Field && fields[j] is Field
                            && field_key(fields[i]) == field_key(fields[j]);
                    if i == 0 {
                        assert(rest[j - 1] == fields[j]);
                        lemma_has_field_key_push(acc, (key, v), field_key(fields[j]));
                        assert(has_field_key(acc2, field_key(rest[j - 1])));
                    } else {
                        assert(rest[i - 1] == fields[i] && rest[j - 1] == fields[j]);
                    }
                } else {
                    let j = choose|j: int|
                        0 <= j < fields.len() && (#[trigger] fields[j]) is Field
                            && has_field_key(acc, field_key(fields[j]));
                    assert(j != 0);
                    assert(rest[j - 1] == fields[j]);
                    lemma_has_field_key_push(acc, (key, v), field_key(fields[j]));
                    assert(has_field_key(acc2, field_key(rest[j - 1])));
                }
                lemma_lower_fields_duplicate(rest, c, acc2);
            }
        },
        ast::FieldView::Inline(_) => {
            assert(!named_ok(fields[0], c));
            assert(false);
        },
    }
}

/// For all structure literals of spacers and named, lowerable fields
/// where two fields resolve to the same identifier, lowering fails
/// with a duplicate-binding error.
pub proof fn lemma_lower_struct_duplicate(fields: Seq<ast::FieldView>, c: Option<ir::CtxtView>)
    requires
        forall|j: int| 0 <= j < fields.len() ==> named_ok(#[trigger] fields[j], c),
        exists|i: int, j: int| #![trigger fields[i], fields[j]]
            0 <= i < j < fields.len() && fields[i] is Field && fields[j] is Field && field_key(
                fields[i],
            ) == field_key(fields[j]),
    ensures
        lower_struct_spec(fields, c) is Err,
        lower_struct_spec(fields, c)->Err_0 is DuplicateField,
{
    lemma_lower_fields_duplicate(fields, c, Seq::empty());
}

/// Lowering is deterministic: the same syntax tree under the same
/// context lowers to the same result, as pinned by the contracts of
/// [`IntoIr::into_ir`].
pub proof fn lemma_lower_deterministic(
    e1: ast::ExprView,
    e2: ast::ExprView,
    c1: Option<ir::CtxtView>,
    c2: Option<ir::CtxtView>,
    r1: Result<ir::ExprView, LowerErrView>,
    r2: Result<ir::ExprView, LowerErrView>,
)
    requires
        e1 == e2,
        c1 == c2,
        r1 == lower_expr_spec(e1, c1),
        r2 == lower_expr_spec(e2, c2),
    ensures
        r1 == r2,
{
}

/// Binding a fresh key keeps an entry list collision-free.
proof fn lemma_dup_free_push(
    acc: Seq<(ir::IdentView, ir::ExprView)>,
    x: (ir::IdentView, ir::ExprView),
)
    requires
        ir::fields_dup_free(acc),
        !has_field_key(acc, x.0),
    ensures
        ir::fields_dup_free(acc.push(x)),
{
    let acc2 = acc.push(x);
    assert forall|i: int, j: int| #![trigger acc2[i], acc2[j]]
        0 <= i < j < acc2.len() implies acc2[i].0 != acc2[j].0 by {
        if j < acc.len() {
            assert(acc2[i] == acc[i] && acc2[j] == acc[j]);
        } else {
            assert(acc2[i] == acc[i] && acc2[j] == x);
            assert(!(acc[i].0 == x.0)) by {
                if acc[i].0 == x.0 {
                    assert(has_field_key(acc, x.0));
                }
            };
        }
    };
}

/// Splicing keeps an entry list collision-free: every spliced key is
/// checked against everything bound before it.
proof fn lemma_merge_dup_free(
    acc: Seq<(ir::IdentView, ir::ExprView)>,
    src: Seq<(ir::IdentView, ir::ExprView)>,
)
    requires
        ir::fields_dup_free(acc),
        merge_entries(acc, src) is Ok,
    ensures
        ir::fields_dup_free(merge_entries(acc, src)->Ok_0),
    decreases src,
{
    if src.len() > 0 {
        lemma_dup_free_push(acc, src[0]);
        lemma_merge_dup_free(acc.push(src[0]), src.drop_first());
    }
}

/// Every scope lowering builds is collision-free: no two of its fields
/// resolve to the same identifier.
pub proof fn lemma_lower_struct_dup_free(fields: Seq<ast::FieldView>, c: Option<ir::CtxtView>)
    requires
        lower_struct_spec(fields, c) is Ok,
    ensures
        ir::fields_dup_free(lower_struct_spec(fields, c)->Ok_0.fields),
{
    let acc = Seq::<(ir::IdentView, ir::ExprView)>::empty();
    assert(ir::fields_dup_free(acc));
    lemma_lower_fields_dup_free(fields, c, acc);
}

/// Lowering a field list onto collision-free entries keeps them
/// collision-free.
proof fn lemma_lower_fields_dup_free(
    fields: Seq<ast::FieldView>,
    c: Option<ir::CtxtView>,
    acc: Seq<(ir::IdentView, ir::ExprView)>,
)
    requires
        ir::fields_dup_free(acc),
        lower_fields_spec(fields, c, acc) is Ok,
    ensures
        ir::fields_dup_free(lower_fields_spec(fields, c, acc)->Ok_0),
    decreases fields,
{
    if fields.len() > 0 {
        let rest = fields.drop_first();
        match fields[0] {
            ast::FieldView::Spacer => {
                lemma_lower_fields_dup_free(rest, c, acc);
            },
            ast::FieldView::Field(id, e) => {
                let key = lower_ident(id);
                let v = lower_expr_spec(*e, c)->Ok_0;
                if key is Void {
                    lemma_lower_fields_dup_free(rest, c, acc);
                } else {
                    lemma_dup_free_push(acc, (key, v));
                    lemma_lower_fields_dup_free(rest, c, acc.push((key, v)));
                }
            },
            ast::FieldView::Inline(e) => {
                match *e {
                    ast::ExprView::Ident(id) => {
                        let key = lower_ident(id);
                        match lookup_at_opt(c, key, id.nshadow) {
                            Some(ir::ExprView::Struct(sv)) => {
                                lemma_merge_dup_free(acc, sv.fields);
                                lemma_lower_fields_dup_free(
                                    rest,
                                    c,
                                    merge_entries(acc, sv.fields)->Ok_0,
                                );
                            },
                            Some(_) => {},
                            None => {},
                        }
                    },
                    ast::ExprView::Struct(inner) => {
                        let src = lower_fields_spec(inner, c, Seq::empty())->Ok_0;
                        lemma_merge_dup_free(acc, src);
                        lemma_lower_fields_dup_free(rest, c, merge_entries(acc, src)->Ok_0);
                    },
                    _ => {},
                }
            },
        }
    }
}

/// Every args scope lowering builds is collision-free.
pub proof fn lemma_lower_params_dup_free(params: Seq<ast::ParamView>, c: Option<ir::CtxtView>)
    requires
        lower_args_scope_spec(params, c) is Ok,
    ensures
        ir::args_dup_free(lower_args_scope_spec(params, c)->Ok_0.args),
{
    let acc = Seq::<(ir::IdentView, bool, ir::ExprView)>::empty();
    assert(ir::args_dup_free(acc));
    lemma_lower_params_acc_dup_free(params, c, acc);
}

/// Lowering a parameter list onto collision-free entries keeps them
/// collision-free.
proof fn lemma_lower_params_acc_dup_free(
    params: Seq<ast::ParamView>,
    c: Option<ir::CtxtView>,
    acc: Seq<(ir::IdentView, bool, ir::ExprView)>,
)
    requires
        ir::args_dup_free(acc),
        lower_params_spec(params, c, acc) is Ok,
    ensures
        ir::args_dup_free(lower_params_spec(params, c, acc)->Ok_0),
    decreases params,
{
    if params.len() > 0 {
        let rest = params.drop_first();
        let p = params[0];
        let key = lower_ident(p.ident);
        let v = lower_expr_spec(*p.expr, c)->Ok_0;
        if key is Void {
            lemma_lower_params_acc_dup_free(rest, c, acc);
        } else {
            let x = (key, p.is_mut, v);
            let acc2 = acc.push(x);
            assert forall|i: int, j: int| #![trigger acc2[i], acc2[j]]
                0 <= i < j < acc2.len() implies acc2[i].0 != acc2[j].0 by {
                if j < acc.len() {
                    assert(acc2[i] == acc[i] && acc2[j] == acc[j]);
                } else {
                    assert(acc2[i] == acc[i] && acc2[j] == x);
                    assert(!(acc[i].0 == x.0)) by {
                        if acc[i].0 == x.0 {
                            assert(has_arg_key(acc, x.0));
                        }
                    };
                }
            };
            lemma_lower_params_acc_dup_free(rest, c, acc2);
        }
    }
}

} // verus!
