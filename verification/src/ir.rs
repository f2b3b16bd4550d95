//! The scope-resolved intermediate representation.
//!
//! After lowering, a structure literal becomes a *scope*: a collision-free
//! mapping from resolved identifier to expression plus an optional parent
//! scope, and a function's parameter list becomes an *args* scope whose
//! entries additionally carry a mutability flag. The two shapes are
//! unified behind [`Ctxt`] so that name lookup can walk a chain of either
//! shape transparently.
//!
//! A scope stores its entries as an ordered list of pairs; lowering
//! guarantees that the keys are unique (see [`fields_dup_free`]). The
//! mathematical view keeps the entries in order: name resolution is
//! first-match front to back, and function subtyping pairs parameters
//! by position.

use crate::ast::BinopKind;
use vstd::prelude::*;

verus! {

/// A link in the scope chain: either a struct scope or an args scope.
#[derive(Debug, PartialEq, Eq)]
pub enum Ctxt {
    Struct(Box<Struct>),
    Args(Box<Args>),
}

/// A struct scope: resolved fields plus an optional parent scope.
#[derive(Debug, PartialEq, Eq)]
pub struct Struct {
    pub fields: Vec<(Ident, Expr)>,
    pub parent: Option<Ctxt>,
}

/// An args scope: resolved parameters, each with its mutability flag,
/// plus an optional parent scope.
#[derive(Debug, PartialEq, Eq)]
pub struct Args {
    pub args: Vec<(Ident, (bool, Expr))>,
    pub parent: Option<Ctxt>,
}

/// A resolved identifier: a value-namespace name, a type-namespace name,
/// a synthetic operator name, or the anonymous placeholder. Identity is
/// the variant plus the name; the placeholder is never bound and never
/// found by lookup.
#[derive(Debug, Hash)]
pub enum Ident {
    VIdent(String),
    TIdent(String),
    Binop(BinopKind),
    Void,
}

/// A primitive value.
#[derive(Debug)]
pub enum Prim {
    I32(i32),
    String(String),
    Char(u8),
}

/// A lowered expression.
#[derive(Debug, PartialEq, Eq)]
pub enum Expr {
    Ident(Ident),
    Prim(Prim),
    Struct(Box<Struct>),
    Block(Block),
    Func(Func),
    Call(Call),
    Constructor(Ident, Box<Struct>),
    Project(Project),
}

/// A lowered field projection.
#[derive(Debug, PartialEq, Eq)]
pub struct Project {
    pub expr: Box<Expr>,
    pub field: Ident,
}

/// A lowered block.
#[derive(Debug, PartialEq, Eq)]
pub struct Block {
    pub stmts: Vec<Stmt>,
}

/// A lowered function: its args scope and its body, which was lowered
/// with that scope as its context.
#[derive(Debug, PartialEq, Eq)]
pub struct Func {
    pub args: Box<Args>,
    pub body: Box<Expr>,
}

/// A lowered call: operator applications also take this shape.
#[derive(Debug, PartialEq, Eq)]
pub struct Call {
    pub func: Box<Expr>,
    pub args: Vec<Expr>,
}

/// A lowered statement.
#[derive(Debug, PartialEq, Eq)]
pub enum Stmt {
    Bind(Ident, Expr),
    BindMut(Ident, Expr, Expr),
    Expr(Expr),
}

// ---------------------------------------------------------------------
// Mathematical views.
// ---------------------------------------------------------------------

/// The view of a resolved identifier.
pub ghost enum IdentView {
    VIdent(Seq<char>),
    TIdent(Seq<char>),
    Binop(BinopKind),
    Void,
}

/// The view of a primitive value.
pub ghost enum PrimView {
    I32(i32),
    String(Seq<char>),
    Char(u8),
}

/// The view of a lowered expression.
pub ghost enum ExprView {
    Ident(IdentView),
    Prim(PrimView),
    Struct(Box<StructView>),
    Block(Seq<StmtView>),
    Func(Box<ArgsView>, Box<ExprView>),
    Call(Box<ExprView>, Seq<ExprView>),
    Constructor(IdentView, Box<StructView>),
    Project(Box<ExprView>, IdentView),
}

/// The view of a struct scope: its field entries, in order, plus the
/// parent.
pub ghost struct StructView {
    pub fields: Seq<(IdentView, ExprView)>,
    pub parent: Option<Box<CtxtView>>,
}

/// The view of an args scope. Parameter order is kept, because function
/// subtyping pairs parameters positionally; each entry is
/// `(name, is_mut, expr)`.
pub ghost struct ArgsView {
    pub args: Seq<(IdentView, bool, ExprView)>,
    pub parent: Option<Box<CtxtView>>,
}

/// The view of a scope chain link.
pub ghost enum CtxtView {
    Struct(Box<StructView>),
    Args(Box<ArgsView>),
}

/// The view of a lowered statement.
pub ghost enum StmtView {
    Bind(IdentView, Box<ExprView>),
    BindMut(IdentView, Box<ExprView>, Box<ExprView>),
    Expr(Box<ExprView>),
}

impl View for Ident {
    type V = IdentView;

    open spec fn view(&self) -> IdentView {
        match self {
            Ident::VIdent(n) => IdentView::VIdent(n@),
            Ident::TIdent(n) => IdentView::TIdent(n@),
            Ident::Binop(op) => IdentView::Binop(*op),
            Ident::Void => IdentView::Void,
        }
    }
}

impl View for Prim {
    type V = PrimView;

    open spec fn view(&self) -> PrimView {
        match self {
            Prim::I32(n) => PrimView::I32(*n),
            Prim::String(s) => PrimView::String(s@),
            Prim::Char(c) => PrimView::Char(*c),
        }
    }
}

/// The view of an expression.
pub open spec fn expr_view(e: Expr) -> ExprView
    decreases e,
{
    match e {
        Expr::Ident(id) => ExprView::Ident(id@),
        Expr::Prim(p) => ExprView::Prim(p@),
        Expr::Struct(s) => ExprView::Struct(Box::new(struct_view(*s))),
        Expr::Block(b) => ExprView::Block(stmts_view(b.stmts@)),
        Expr::Func(f) => ExprView::Func(
            Box::new(args_view(*f.args)),
            Box::new(expr_view(*f.body)),
        ),
        Expr::Call(c) => ExprView::Call(Box::new(expr_view(*c.func)), exprs_view(c.args@)),
        Expr::Constructor(id, s) => ExprView::Constructor(id@, Box::new(struct_view(*s))),
        Expr::Project(p) => ExprView::Project(Box::new(expr_view(*p.expr)), p.field@),
    }
}

/// The view of a struct scope.
pub open spec fn struct_view(s: Struct) -> StructView
    decreases s,
{
    StructView { fields: fields_entries(s.fields@), parent: parent_view(s.parent) }
}

/// The view of an args scope.
pub open spec fn args_view(a: Args) -> ArgsView
    decreases a,
{
    ArgsView { args: args_entries(a.args@), parent: parent_view(a.parent) }
}

/// The view of an optional parent context.
pub open spec fn parent_view(p: Option<Ctxt>) -> Option<Box<CtxtView>>
    decreases p,
{
    match p {
        Some(c) => Some(Box::new(ctxt_view(c))),
        None => None,
    }
}

/// The view of a scope chain link.
pub open spec fn ctxt_view(c: Ctxt) -> CtxtView
    decreases c,
{
    match c {
        Ctxt::Struct(s) => CtxtView::Struct(Box::new(struct_view(*s))),
        Ctxt::Args(a) => CtxtView::Args(Box::new(args_view(*a))),
    }
}

/// The ordered view of struct scope entries.
pub open spec fn fields_entries(entries: Seq<(Ident, Expr)>) -> Seq<(IdentView, ExprView)>
    decreases entries,
{
    if entries.len() == 0 {
        Seq::empty()
    } else {
        seq![(entries[0].0@, expr_view(entries[0].1))] + fields_entries(entries.drop_first())
    }
}

/// The ordered view of args scope entries.
pub open spec fn args_entries(entries: Seq<(Ident, (bool, Expr))>) -> Seq<
    (IdentView, bool, ExprView),
>
    decreases entries,
{
    if entries.len() == 0 {
        Seq::empty()
    } else {
        seq![(entries[0].0@, entries[0].1.0, expr_view(entries[0].1.1))] + args_entries(
            entries.drop_first(),
        )
    }
}

/// The view of a statement list, in order.
pub open spec fn stmts_view(ss: Seq<Stmt>) -> Seq<StmtView>
    decreases ss,
{
    if ss.len() == 0 {
        Seq::empty()
    } else {
        seq![stmt_view(ss[0])] + stmts_view(ss.drop_first())
    }
}

/// The view of one statement.
pub open spec fn stmt_view(s: Stmt) -> StmtView
    decreases s,
{
    match s {
        Stmt::Bind(id, e) => StmtView::Bind(id@, Box::new(expr_view(e))),
        Stmt::BindMut(id, t, e) => StmtView::BindMut(
            id@,
            Box::new(expr_view(t)),
            Box::new(expr_view(e)),
        ),
        Stmt::Expr(e) => StmtView::Expr(Box::new(expr_view(e))),
    }
}

/// The view of an expression list, in order.
pub open spec fn exprs_view(es: Seq<Expr>) -> Seq<ExprView>
    decreases es,
{
    if es.len() == 0 {
        Seq::empty()
    } else {
        seq![expr_view(es[0])] + exprs_view(es.drop_first())
    }
}

/// The view of an optional expression, as returned by lookup.
pub open spec fn opt_expr_view(e: Option<Expr>) -> Option<ExprView> {
    match e {
        Some(e) => Some(expr_view(e)),
        None => None,
    }
}

/// The view of an optional context, unboxed.
pub open spec fn opt_ctxt_view(c: Option<Ctxt>) -> Option<CtxtView> {
    match c {
        Some(c) => Some(ctxt_view(c)),
        None => None,
    }
}

// ---------------------------------------------------------------------
// Equality and duplication. Lookup hands out copies of stored
// expressions, so the representation supports view-preserving `clone`
// and an `==` on identifiers that decides view equality.
// ---------------------------------------------------------------------

impl PartialEq for Ident {
    #[verifier::spinoff_prover]
    fn eq(&self, other: &Self) -> (r: bool) {
        match (self, other) {
            (Ident::VIdent(a), Ident::VIdent(b)) => {
                let r = *a == *b;
                proof {
                    assert(self@ == IdentView::VIdent(a@));
                    assert(other@ == IdentView::VIdent(b@));
                    assert((self@ == other@) == (a@ == b@));
                }
                r
            },
            (Ident::TIdent(a), Ident::TIdent(b)) => {
                let r = *a == *b;
                proof {
                    assert((self@ == other@) == (a@ == b@));
                }
                r
            },
            (Ident::Binop(a), Ident::Binop(b)) => {
                let r = *a == *b;
                proof {
                    assert((self@ == other@) == (*a == *b));
                }
                r
            },
            (Ident::Void, Ident::Void) => true,
            _ => {
                proof {
                    assert(self@ != other@);
                }
                false
            },
        }
    }
}

impl vstd::std_specs::cmp::PartialEqSpecImpl for Ident {
    open spec fn obeys_eq_spec() -> bool {
        true
    }

    open spec fn eq_spec(&self, other: &Self) -> bool {
        self@ == other@
    }
}

impl Eq for Ident {

}

impl PartialEq for Prim {
    #[verifier::spinoff_prover]
    fn eq(&self, other: &Self) -> (r: bool) {
        match (self, other) {
            (Prim::I32(a), Prim::I32(b)) => {
                let r = *a == *b;
                proof {
                    assert((self@ == other@) == (*a == *b));
                }
                r
            },
            (Prim::String(a), Prim::String(b)) => {
                let r = *a == *b;
                proof {
                    assert((self@ == other@) == (a@ == b@));
                }
                r
            },
            (Prim::Char(a), Prim::Char(b)) => {
                let r = *a == *b;
                proof {
                    assert((self@ == other@) == (*a == *b));
                }
                r
            },
            _ => {
                proof {
                    assert(self@ != other@);
                }
                false
            },
        }
    }
}

impl vstd::std_specs::cmp::PartialEqSpecImpl for Prim {
    open spec fn obeys_eq_spec() -> bool {
        true
    }

    open spec fn eq_spec(&self, other: &Self) -> bool {
        self@ == other@
    }
}

impl Eq for Prim {

}

impl Clone for Ident {
    fn clone(&self) -> (r: Self)
        ensures
            r@ == self@,
    {
        match self {
            Ident::VIdent(n) => Ident::VIdent(n.clone()),
            Ident::TIdent(n) => Ident::TIdent(n.clone()),
            Ident::Binop(op) => Ident::Binop(*op),
            Ident::Void => Ident::Void,
        }
    }
}

impl Clone for Prim {
    fn clone(&self) -> (r: Self)
        ensures
            r@ == self@,
    {
        match self {
            Prim::I32(n) => Prim::I32(*n),
            Prim::String(s) => Prim::String(s.clone()),
            Prim::Char(c) => Prim::Char(*c),
        }
    }
}

impl Clone for Expr {
    fn clone(&self) -> (r: Self)
        ensures
            expr_view(r) == expr_view(*self),
        decreases self,
    {
        match self {
            Expr::Ident(id) => Expr::Ident(id.clone()),
            Expr::Prim(p) => Expr::Prim(p.clone()),
            Expr::Struct(s) => Expr::Struct(Box::new((**s).clone())),
            Expr::Block(b) => Expr::Block(b.clone()),
            Expr::Func(f) => Expr::Func(f.clone()),
            Expr::Call(c) => Expr::Call(c.clone()),
            Expr::Constructor(id, s) => Expr::Constructor(id.clone(), Box::new((**s).clone())),
            Expr::Project(p) => Expr::Project(p.clone()),
        }
    }
}

impl Clone for Struct {
    fn clone(&self) -> (r: Self)
        ensures
            struct_view(r) == struct_view(*self),
        decreases self,
    {
        let mut fields: Vec<(Ident, Expr)> = Vec::new();
        let n = self.fields.len();
        for i in 0..n
            invariant
                n == self.fields.len(),
                fields.len() == i,
                forall|j: int| #![trigger fields@[j]]
                    0 <= j < i ==> fields@[j].0@ == self.fields@[j].0@ && expr_view(
                        fields@[j].1,
                    ) == expr_view(self.fields@[j].1),
            decreases n - i,
        {
            let entry = &self.fields[i];
            fields.push((entry.0.clone(), entry.1.clone()));
        }
        let parent = match &self.parent {
            Some(c) => Some(c.clone()),
            None => None,
        };
        proof {
            lemma_fields_entries_congruence(fields@, self.fields@);
        }
        Struct { fields, parent }
    }
}

impl Clone for Args {
    fn clone(&self) -> (r: Self)
        ensures
            args_view(r) == args_view(*self),
        decreases self,
    {
        let mut args: Vec<(Ident, (bool, Expr))> = Vec::new();
        let n = self.args.len();
        for i in 0..n
            invariant
                n == self.args.len(),
                args.len() == i,
                forall|j: int| #![trigger args@[j]]
                    0 <= j < i ==> args@[j].0@ == self.args@[j].0@ && args@[j].1.0
                        == self.args@[j].1.0 && expr_view(args@[j].1.1) == expr_view(
                        self.args@[j].1.1,
                    ),
            decreases n - i,
        {
            let entry = &self.args[i];
            args.push((entry.0.clone(), (entry.1.0, entry.1.1.clone())));
        }
        let parent = match &self.parent {
            Some(c) => Some(c.clone()),
            None => None,
        };
        proof {
            lemma_args_entries_congruence(args@, self.args@);
        }
        Args { args, parent }
    }
}

impl Clone for Ctxt {
    fn clone(&self) -> (r: Self)
        ensures
            ctxt_view(r) == ctxt_view(*self),
        decreases self,
    {
        match self {
            Ctxt::Struct(s) => Ctxt::Struct(Box::new((**s).clone())),
            Ctxt::Args(a) => Ctxt::Args(Box::new((**a).clone())),
        }
    }
}

impl Clone for Block {
    fn clone(&self) -> (r: Self)
        ensures
            stmts_view(r.stmts@) == stmts_view(self.stmts@),
        decreases self,
    {
        let mut stmts: Vec<Stmt> = Vec::new();
        let n = self.stmts.len();
        for i in 0..n
            invariant
                n == self.stmts.len(),
                stmts.len() == i,
                forall|j: int| #![trigger stmts@[j]]
                    0 <= j < i ==> stmt_view(stmts@[j]) == stmt_view(self.stmts@[j]),
            decreases n - i,
        {
            let s = &self.stmts[i];
            stmts.push(s.clone());
        }
        proof {
            lemma_stmts_view_congruence(stmts@, self.stmts@);
        }
        Block { stmts }
    }
}

impl Clone for Func {
    fn clone(&self) -> (r: Self)
        ensures
            args_view(*r.args) == args_view(*self.args),
            expr_view(*r.body) == expr_view(*self.body),
        decreases self,
    {
        Func { args: Box::new((*self.args).clone()), body: Box::new((*self.body).clone()) }
    }
}

impl Clone for Call {
    fn clone(&self) -> (r: Self)
        ensures
            expr_view(*r.func) == expr_view(*self.func),
            exprs_view(r.args@) == exprs_view(self.args@),
        decreases self,
    {
        let mut args: Vec<Expr> = Vec::new();
        let n = self.args.len();
        for i in 0..n
            invariant
                n == self.args.len(),
                args.len() == i,
                forall|j: int| #![trigger args@[j]]
                    0 <= j < i ==> expr_view(args@[j]) == expr_view(self.args@[j]),
            decreases n - i,
        {
            let e = &self.args[i];
            args.push(e.clone());
        }
        proof {
            lemma_exprs_view_congruence(args@, self.args@);
        }
        Call { func: Box::new((*self.func).clone()), args }
    }
}

impl Clone for Stmt {
    fn clone(&self) -> (r: Self)
        ensures
            stmt_view(r) == stmt_view(*self),
        decreases self,
    {
        match self {
            Stmt::Bind(id, e) => Stmt::Bind(id.clone(), e.clone()),
            Stmt::BindMut(id, t, e) => Stmt::BindMut(id.clone(), t.clone(), e.clone()),
            Stmt::Expr(e) => Stmt::Expr(e.clone()),
        }
    }
}

impl Clone for Project {
    fn clone(&self) -> (r: Self)
        ensures
            expr_view(*r.expr) == expr_view(*self.expr),
            r.field@ == self.field@,
        decreases self,
    {
        Project { expr: Box::new((*self.expr).clone()), field: self.field.clone() }
    }
}

/// Entry lists with pairwise view-equal entries have the same view.
proof fn lemma_fields_entries_congruence(a: Seq<(Ident, Expr)>, b: Seq<(Ident, Expr)>)
    requires
        a.len() == b.len(),
        forall|j: int| #![trigger a[j]]
            0 <= j < a.len() ==> a[j].0@ == b[j].0@ && expr_view(a[j].1) == expr_view(
                b[j].1,
            ),
    ensures
        fields_entries(a) == fields_entries(b),
    decreases a.len(),
{
    if a.len() > 0 {
        assert(a[0].0@ == b[0].0@ && expr_view(a[0].1) == expr_view(b[0].1));
        lemma_fields_entries_congruence(a.drop_first(), b.drop_first());
    }
}

/// Entry lists with pairwise view-equal entries have the same args view.
proof fn lemma_args_entries_congruence(a: Seq<(Ident, (bool, Expr))>, b: Seq<(Ident, (bool, Expr))>)
    requires
        a.len() == b.len(),
        forall|j: int| #![trigger a[j]]
            0 <= j < a.len() ==> a[j].0@ == b[j].0@ && a[j].1.0 == b[j].1.0 && expr_view(
                a[j].1.1,
            ) == expr_view(b[j].1.1),
    ensures
        args_entries(a) == args_entries(b),
    decreases a.len(),
{
    if a.len() > 0 {
        assert(a[0].0@ == b[0].0@ && a[0].1.0 == b[0].1.0 && expr_view(a[0].1.1) == expr_view(
            b[0].1.1,
        ));
        lemma_args_entries_congruence(a.drop_first(), b.drop_first());
    }
}

/// Statement lists with pairwise view-equal entries have the same view.
proof fn lemma_stmts_view_congruence(a: Seq<Stmt>, b: Seq<Stmt>)
    requires
        a.len() == b.len(),
        forall|j: int| #![trigger a[j]] 0 <= j < a.len() ==> stmt_view(a[j]) == stmt_view(b[j]),
    ensures
        stmts_view(a) == stmts_view(b),
    decreases a.len(),
{
    if a.len() > 0 {
        assert(stmt_view(a[0]) == stmt_view(b[0]));
        lemma_stmts_view_congruence(a.drop_first(), b.drop_first());
    }
}

/// Expression lists with pairwise view-equal entries have the same view.
proof fn lemma_exprs_view_congruence(a: Seq<Expr>, b: Seq<Expr>)
    requires
        a.len() == b.len(),
        forall|j: int| #![trigger a[j]] 0 <= j < a.len() ==> expr_view(a[j]) == expr_view(b[j]),
    ensures
        exprs_view(a) == exprs_view(b),
    decreases a.len(),
{
    if a.len() > 0 {
        assert(expr_view(a[0]) == expr_view(b[0]));
        lemma_exprs_view_congruence(a.drop_first(), b.drop_first());
    }
}

// ---------------------------------------------------------------------
// Well-formedness: a scope never holds two entries with the same
// resolved identifier, and never binds the anonymous placeholder.
// Lookup does not need this (it is first-match front to back); lowering
// establishes it for every scope it builds.
// ---------------------------------------------------------------------

/// No two field entries share a key.
pub open spec fn fields_dup_free(entries: Seq<(IdentView, ExprView)>) -> bool {
    forall|i: int, j: int| #![trigger entries[i], entries[j]]
        0 <= i < j < entries.len() ==> entries[i].0 != entries[j].0
}

/// No two parameter entries share a key.
pub open spec fn args_dup_free(entries: Seq<(IdentView, bool, ExprView)>) -> bool {
    forall|i: int, j: int| #![trigger entries[i], entries[j]]
        0 <= i < j < entries.len() ==> entries[i].0 != entries[j].0
}

// ---------------------------------------------------------------------
// Name lookup.
// ---------------------------------------------------------------------

/// The parent of a scope chain link.
pub open spec fn parent_of(c: CtxtView) -> Option<Box<CtxtView>> {
    match c {
        CtxtView::Struct(s) => s.parent,
        CtxtView::Args(a) => a.parent,
    }
}

/// First-match search of the ordered field entries.
pub open spec fn fields_find(entries: Seq<(IdentView, ExprView)>, id: IdentView) -> Option<
    ExprView,
>
    decreases entries,
{
    if entries.len() == 0 {
        None
    } else if entries[0].0 == id {
        Some(entries[0].1)
    } else {
        fields_find(entries.drop_first(), id)
    }
}

/// First-match search of the ordered parameter entries.
pub open spec fn args_find(entries: Seq<(IdentView, bool, ExprView)>, id: IdentView) -> Option<
    ExprView,
>
    decreases entries,
{
    if entries.len() == 0 {
        None
    } else if entries[0].0 == id {
        Some(entries[0].2)
    } else {
        args_find(entries.drop_first(), id)
    }
}

/// Ordinary nearest-first lookup: check this scope's own mapping, then
/// delegate to the parent. The anonymous placeholder is never found.
pub open spec fn lookup_in(c: CtxtView, id: IdentView) -> Option<ExprView>
    decreases c,
{
    if id is Void {
        None
    } else {
        match c {
            CtxtView::Struct(s) => match fields_find(s.fields, id) {
                Some(e) => Some(e),
                None => match s.parent {
                    Some(p) => lookup_in(*p, id),
                    None => None,
                },
            },
            CtxtView::Args(a) => match args_find(a.args, id) {
                Some(e) => Some(e),
                None => match a.parent {
                    Some(p) => lookup_in(*p, id),
                    None => None,
                },
            },
        }
    }
}

/// Lookup through an optional context.
pub open spec fn lookup_opt_view(c: Option<CtxtView>, id: IdentView) -> Option<ExprView> {
    match c {
        Some(c) => lookup_in(c, id),
        None => None,
    }
}

/// Advances `n` parent links, failing if the chain is shorter than `n`.
pub open spec fn skip_scopes(c: CtxtView, n: nat) -> Option<CtxtView>
    decreases n,
{
    if n == 0 {
        Some(c)
    } else {
        match parent_of(c) {
            Some(p) => skip_scopes(*p, (n - 1) as nat),
            None => None,
        }
    }
}

/// Shadow-depth lookup: skip the nearest `n` scopes, then resolve
/// nearest-first from there outward.
pub open spec fn lookup_at_view(c: CtxtView, id: IdentView, n: nat) -> Option<ExprView> {
    match skip_scopes(c, n) {
        Some(c) => lookup_in(c, id),
        None => None,
    }
}

/// The ordered field view indexes pointwise into the entry list.
pub proof fn lemma_fields_entries_index(entries: Seq<(Ident, Expr)>, i: int)
    requires
        0 <= i < entries.len(),
    ensures
        fields_entries(entries).len() == entries.len(),
        fields_entries(entries)[i] == (entries[i].0@, expr_view(entries[i].1)),
    decreases i,
{
    lemma_fields_entries_len(entries);
    if i > 0 {
        lemma_fields_entries_index(entries.drop_first(), i - 1);
    }
}

/// The ordered field view keeps the entry count.
pub proof fn lemma_fields_entries_len(entries: Seq<(Ident, Expr)>)
    ensures
        fields_entries(entries).len() == entries.len(),
    decreases entries.len(),
{
    if entries.len() > 0 {
        lemma_fields_entries_len(entries.drop_first());
    }
}

/// If entry `i` is the first entry with key `id`, first-match search
/// finds exactly that entry's value.
pub proof fn lemma_fields_find_first_match(entries: Seq<(Ident, Expr)>, i: int)
    requires
        0 <= i < entries.len(),
        forall|j: int| #![trigger entries[j]] 0 <= j < i ==> entries[j].0@ != entries[i].0@,
    ensures
        fields_find(fields_entries(entries), entries[i].0@) == Some(expr_view(entries[i].1)),
    decreases i,
{
    lemma_fields_entries_index(entries, i);
    if i > 0 {
        lemma_fields_find_first_match(entries.drop_first(), i - 1);
        lemma_fields_entries_index(entries, 0);
        assert(fields_entries(entries).drop_first() =~= fields_entries(entries.drop_first()));
    } else {
        lemma_fields_entries_index(entries, 0);
    }
}

/// A key held by no entry is not found by first-match search.
pub proof fn lemma_fields_find_no_match(entries: Seq<(Ident, Expr)>, id: IdentView)
    requires
        forall|j: int| #![trigger entries[j]] 0 <= j < entries.len() ==> entries[j].0@ != id,
    ensures
        fields_find(fields_entries(entries), id) is None,
    decreases entries.len(),
{
    lemma_fields_entries_len(entries);
    if entries.len() > 0 {
        lemma_fields_entries_index(entries, 0);
        lemma_fields_find_no_match(entries.drop_first(), id);
        assert(fields_entries(entries).drop_first() =~= fields_entries(entries.drop_first()));
    }
}

/// The ordered args view indexes pointwise into the entry list.
pub proof fn lemma_args_entries_index(entries: Seq<(Ident, (bool, Expr))>, i: int)
    requires
        0 <= i < entries.len(),
    ensures
        args_entries(entries).len() == entries.len(),
        args_entries(entries)[i] == (entries[i].0@, entries[i].1.0, expr_view(entries[i].1.1)),
    decreases i,
{
    lemma_args_entries_len(entries);
    if i > 0 {
        lemma_args_entries_index(entries.drop_first(), i - 1);
    }
}

/// The ordered args view keeps the entry count.
pub proof fn lemma_args_entries_len(entries: Seq<(Ident, (bool, Expr))>)
    ensures
        args_entries(entries).len() == entries.len(),
    decreases entries.len(),
{
    if entries.len() > 0 {
        lemma_args_entries_len(entries.drop_first());
    }
}

/// If entry `i` is the first entry with key `id`, first-match search
/// finds exactly that entry's value.
pub proof fn lemma_args_find_first_match(entries: Seq<(Ident, (bool, Expr))>, i: int)
    requires
        0 <= i < entries.len(),
        forall|j: int| #![trigger entries[j]] 0 <= j < i ==> entries[j].0@ != entries[i].0@,
    ensures
        args_find(args_entries(entries), entries[i].0@) == Some(expr_view(entries[i].1.1)),
    decreases i,
{
    lemma_args_entries_index(entries, i);
    if i > 0 {
        lemma_args_find_first_match(entries.drop_first(), i - 1);
        lemma_args_entries_index(entries, 0);
        assert(args_entries(entries).drop_first() =~= args_entries(entries.drop_first()));
    } else {
        lemma_args_entries_index(entries, 0);
    }
}

/// A key held by no entry is not found by first-match search.
pub proof fn lemma_args_find_no_match(entries: Seq<(Ident, (bool, Expr))>, id: IdentView)
    requires
        forall|j: int| #![trigger entries[j]] 0 <= j < entries.len() ==> entries[j].0@ != id,
    ensures
        args_find(args_entries(entries), id) is None,
    decreases entries.len(),
{
    lemma_args_entries_len(entries);
    if entries.len() > 0 {
        lemma_args_entries_index(entries, 0);
        lemma_args_find_no_match(entries.drop_first(), id);
        assert(args_entries(entries).drop_first() =~= args_entries(entries.drop_first()));
    }
}

impl Ctxt {
    /// Resolves an identifier against this scope chain: the current
    /// scope's own mapping is consulted first, then the parent chain.
    /// Returns a copy of the bound expression, or nothing if the walk
    /// exhausts the chain. The placeholder identifier is never found.
    #[verifier::loop_isolation(false)]
    pub fn lookup(&self, ident: Ident) -> (r: Option<Expr>)
        ensures
            opt_expr_view(r) == lookup_in(ctxt_view(*self), ident@),
        decreases self,
    {
        if let Ident::Void = ident {
            return None;
        }
        match self {
            Ctxt::Struct(s) => {
                let n = s.fields.len();
                for i in 0..n
                    invariant
                        n == s.fields.len(),
                        !(ident@ is Void),
                        forall|j: int| #![trigger s.fields@[j]]
                            0 <= j < i ==> s.fields@[j].0@ != ident@,
                    decreases n - i,
                {
                    let entry = &s.fields[i];
                    if entry.0 == ident {
                        proof {
                            lemma_fields_find_first_match(s.fields@, i as int);
                        }
                        return Some(entry.1.clone());
                    }
                }
                proof {
                    lemma_fields_find_no_match(s.fields@, ident@);
                }
                match &s.parent {
                    Some(p) => p.lookup(ident),
                    None => None,
                }
            },
            Ctxt::Args(a) => {
                let n = a.args.len();
                for i in 0..n
                    invariant
                        n == a.args.len(),
                        !(ident@ is Void),
                        forall|j: int| #![trigger a.args@[j]]
                            0 <= j < i ==> a.args@[j].0@ != ident@,
                    decreases n - i,
                {
                    let entry = &a.args[i];
                    if entry.0 == ident {
                        proof {
                            lemma_args_find_first_match(a.args@, i as int);
                        }
                        return Some(entry.1.1.clone());
                    }
                }
                proof {
                    lemma_args_find_no_match(a.args@, ident@);
                }
                match &a.parent {
                    Some(p) => p.lookup(ident),
                    None => None,
                }
            },
        }
    }

    /// Lookup through an optional context: an absent context resolves
    /// nothing.
    pub fn lookup_opt(opt: &Option<Ctxt>, ident: Ident) -> (r: Option<Expr>)
        ensures
            opt_expr_view(r) == lookup_opt_view(opt_ctxt_view(*opt), ident@),
    {
        match opt {
            Some(ctxt) => ctxt.lookup(ident),
            None => None,
        }
    }

    /// Shadow-depth lookup: first advances `nshadow` parent links,
    /// failing if the chain is shorter, then resolves nearest-first from
    /// that scope outward. Depth 0 is ordinary lookup.
    pub fn lookup_at(&self, ident: Ident, nshadow: usize) -> (r: Option<Expr>)
        ensures
            opt_expr_view(r) == lookup_at_view(ctxt_view(*self), ident@, nshadow as nat),
        decreases nshadow,
    {
        if nshadow == 0 {
            self.lookup(ident)
        } else {
            let parent = match self {
                Ctxt::Struct(s) => &s.parent,
                Ctxt::Args(a) => &a.parent,
            };
            match parent {
                Some(p) => p.lookup_at(ident, nshadow - 1),
                None => None,
            }
        }
    }
}

/// The printable name of a resolved identifier.
pub open spec fn ident_str(v: IdentView) -> Seq<char> {
    match v {
        IdentView::VIdent(n) => n,
        IdentView::TIdent(n) => n,
        IdentView::Binop(BinopKind::Add) => "(+)"@,
        IdentView::Binop(BinopKind::Sub) => "(-)"@,
        IdentView::Binop(BinopKind::Mul) => "(*)"@,
        IdentView::Binop(BinopKind::Div) => "(/)"@,
        IdentView::Binop(BinopKind::Pow) => "(^)"@,
        IdentView::Binop(BinopKind::Concat) => "(++)"@,
        IdentView::Void => "_"@,
    }
}

impl Ident {
    /// The identifier's printable name: the name itself for named
    /// identifiers, a parenthesized operator for synthetic operator
    /// names, and an underscore for the placeholder.
    pub fn as_str(&self) -> (r: &str)
        ensures
            r@ == ident_str(self@),
    {
        match self {
            Ident::VIdent(ident) => ident.as_str(),
            Ident::TIdent(ident) => ident.as_str(),
            Ident::Binop(BinopKind::Add) => "(+)",
            Ident::Binop(BinopKind::Sub) => "(-)",
            Ident::Binop(BinopKind::Mul) => "(*)",
            Ident::Binop(BinopKind::Div) => "(/)",
            Ident::Binop(BinopKind::Pow) => "(^)",
            Ident::Binop(BinopKind::Concat) => "(++)",
            Ident::Void => "_",
        }
    }
}


/// Appending an entry appends its view.
pub proof fn lemma_fields_entries_push(s: Seq<(Ident, Expr)>, x: (Ident, Expr))
    ensures
        fields_entries(s.push(x)) == fields_entries(s).push((x.0@, expr_view(x.1))),
{
    let lhs = fields_entries(s.push(x));
    let rhs = fields_entries(s).push((x.0@, expr_view(x.1)));
    lemma_fields_entries_len(s.push(x));
    lemma_fields_entries_len(s);
    assert forall|i: int| 0 <= i < lhs.len() implies lhs[i] == rhs[i] by {
        lemma_fields_entries_index(s.push(x), i);
        if i < s.len() {
            lemma_fields_entries_index(s, i);
        }
    };
    assert(lhs =~= rhs);
}

/// Appending a parameter entry appends its view.
pub proof fn lemma_args_entries_push(s: Seq<(Ident, (bool, Expr))>, x: (Ident, (bool, Expr)))
    ensures
        args_entries(s.push(x)) == args_entries(s).push((x.0@, x.1.0, expr_view(x.1.1))),
{
    let lhs = args_entries(s.push(x));
    let rhs = args_entries(s).push((x.0@, x.1.0, expr_view(x.1.1)));
    lemma_args_entries_len(s.push(x));
    lemma_args_entries_len(s);
    assert forall|i: int| 0 <= i < lhs.len() implies lhs[i] == rhs[i] by {
        lemma_args_entries_index(s.push(x), i);
        if i < s.len() {
            lemma_args_entries_index(s, i);
        }
    };
    assert(lhs =~= rhs);
}

/// Appending a statement appends its view.
pub proof fn lemma_stmts_view_push(s: Seq<Stmt>, x: Stmt)
    ensures
        stmts_view(s.push(x)) == stmts_view(s).push(stmt_view(x)),
{
    let lhs = stmts_view(s.push(x));
    let rhs = stmts_view(s).push(stmt_view(x));
    lemma_stmts_view_len(s.push(x));
    lemma_stmts_view_len(s);
    assert forall|i: int| 0 <= i < lhs.len() implies lhs[i] == rhs[i] by {
        lemma_stmts_view_index(s.push(x), i);
        if i < s.len() {
            lemma_stmts_view_index(s, i);
        }
    };
    assert(lhs =~= rhs);
}

/// Appending an expression appends its view.
pub proof fn lemma_exprs_view_push(s: Seq<Expr>, x: Expr)
    ensures
        exprs_view(s.push(x)) == exprs_view(s).push(expr_view(x)),
{
    let lhs = exprs_view(s.push(x));
    let rhs = exprs_view(s).push(expr_view(x));
    lemma_exprs_view_len(s.push(x));
    lemma_exprs_view_len(s);
    assert forall|i: int| 0 <= i < lhs.len() implies lhs[i] == rhs[i] by {
        lemma_exprs_view_index(s.push(x), i);
        if i < s.len() {
            lemma_exprs_view_index(s, i);
        }
    };
    assert(lhs =~= rhs);
}

/// The statement view keeps the count.
pub proof fn lemma_stmts_view_len(s: Seq<Stmt>)
    ensures
        stmts_view(s).len() == s.len(),
    decreases s.len(),
{
    if s.len() > 0 {
        lemma_stmts_view_len(s.drop_first());
    }
}

/// The expression view keeps the count.
pub proof fn lemma_exprs_view_len(s: Seq<Expr>)
    ensures
        exprs_view(s).len() == s.len(),
    decreases s.len(),
{
    if s.len() > 0 {
        lemma_exprs_view_len(s.drop_first());
    }
}

/// The statement view indexes pointwise.
pub proof fn lemma_stmts_view_index(s: Seq<Stmt>, i: int)
    requires
        0 <= i < s.len(),
    ensures
        stmts_view(s).len() == s.len(),
        stmts_view(s)[i] == stmt_view(s[i]),
    decreases i,
{
    lemma_stmts_view_len(s);
    if i > 0 {
        lemma_stmts_view_index(s.drop_first(), i - 1);
    }
}

/// The expression view indexes pointwise.
pub proof fn lemma_exprs_view_index(s: Seq<Expr>, i: int)
    requires
        0 <= i < s.len(),
    ensures
        exprs_view(s).len() == s.len(),
        exprs_view(s)[i] == expr_view(s[i]),
    decreases i,
{
    lemma_exprs_view_len(s);
    if i > 0 {
        lemma_exprs_view_index(s.drop_first(), i - 1);
    }
}

/// An expression's view is a scope exactly when the expression is one.
pub proof fn lemma_expr_view_struct_shape(e: Expr)
    ensures
        (e is Struct) <==> (expr_view(e) is Struct),
{
    match e {
        Expr::Ident(_) => {},
        Expr::Prim(_) => {},
        Expr::Struct(_) => {},
        Expr::Block(_) => {},
        Expr::Func(_) => {},
        Expr::Call(_) => {},
        Expr::Constructor(_, _) => {},
        Expr::Project(_) => {},
    }
}

/// Shadow depth directs lookup: a reference with shadow depth 1 skips
/// the nearest scope and resolves nearest-first from the enclosing
/// scope outward, while depth 0 resolves in the nearest scope first —
/// even when both scopes bind the referenced name.
pub proof fn lemma_shadow_depth(c: CtxtView, id: IdentView)
    requires
        parent_of(c) is Some,
    ensures
        lookup_at_view(c, id, 1) == lookup_in(*parent_of(c)->Some_0, id),
        lookup_at_view(c, id, 0) == lookup_in(c, id),
{
    reveal_with_fuel(skip_scopes, 2);
    assert(skip_scopes(c, 1) == Some(*parent_of(c)->Some_0));
    assert(skip_scopes(c, 0) == Some(c));
}

} // verus!
