//! Structural subtyping over IR expressions.
//!
//! `A <: B` is a total boolean relation: primitives are subtypes only
//! when equal; a structure is a subtype of another when it has every
//! field the other requires with a subtype value (width and depth);
//! functions pair their parameters positionally, with contravariant
//! parameter types, covariant bodies, and mutability that may only be
//! added going from super- to subtype; any other pairing of shapes is
//! simply not a subtype, never an error.
//!
//! The relation recurses into a structure's field values and a
//! function's parameter types with the sides swapped, so termination is
//! measured by the combined [`esize`] of both sides rather than by one
//! side's structure.

use crate::ir;
use vstd::prelude::*;

verus! {

/// The size of an expression view, counting the parts the subtype
/// relation can recurse into.
pub open spec fn esize(e: ir::ExprView) -> nat
    decreases e,
{
    match e {
        ir::ExprView::Struct(s) => 3 + fields_size(s.fields),
        ir::ExprView::Func(a, body) => 3 + params_size(a.args) + esize(*body),
        _ => 1,
    }
}

/// The combined size of field entries, each padded by one.
pub open spec fn fields_size(s: Seq<(ir::IdentView, ir::ExprView)>) -> nat
    decreases s,
{
    if s.len() == 0 {
        0
    } else {
        1 + esize(s[0].1) + fields_size(s.drop_first())
    }
}

/// The combined size of parameter entries, each padded by one.
pub open spec fn params_size(s: Seq<(ir::IdentView, bool, ir::ExprView)>) -> nat
    decreases s,
{
    if s.len() == 0 {
        0
    } else {
        1 + esize(s[0].2) + params_size(s.drop_first())
    }
}

/// A field entry's value is strictly smaller than the whole list.
pub proof fn lemma_fields_size_elem(s: Seq<(ir::IdentView, ir::ExprView)>, j: int)
    requires
        0 <= j < s.len(),
    ensures
        esize(s[j].1) + 1 <= fields_size(s),
    decreases j,
{
    if j > 0 {
        lemma_fields_size_elem(s.drop_first(), j - 1);
    }
}

/// A parameter entry's type is strictly smaller than the whole list.
pub proof fn lemma_params_size_elem(s: Seq<(ir::IdentView, bool, ir::ExprView)>, j: int)
    requires
        0 <= j < s.len(),
    ensures
        esize(s[j].2) + 1 <= params_size(s),
    decreases j,
{
    if j > 0 {
        lemma_params_size_elem(s.drop_first(), j - 1);
    }
}

/// A found field value is an entry's value.
pub proof fn lemma_fields_find_elem(s: Seq<(ir::IdentView, ir::ExprView)>, id: ir::IdentView)
    requires
        ir::fields_find(s, id) is Some,
    ensures
        exists|j: int|
            0 <= j < s.len() && (#[trigger] s[j]).0 == id && ir::fields_find(s, id) == Some(
                s[j].1,
            ),
    decreases s,
{
    if s.len() > 0 && s[0].0 != id {
        lemma_fields_find_elem(s.drop_first(), id);
        let j = choose|j: int|
            0 <= j < s.drop_first().len() && (#[trigger] s.drop_first()[j]).0 == id
                && ir::fields_find(s.drop_first(), id) == Some(s.drop_first()[j].1);
        assert(s[j + 1] == s.drop_first()[j]);
    }
}

/// Whether `b`'s entry at `j` is covered by `a`: `a` binds the same
/// name, first match, to a subtype value.
pub open spec fn field_covered(
    a: Seq<(ir::IdentView, ir::ExprView)>,
    entry: (ir::IdentView, ir::ExprView),
) -> bool
    decreases fields_size(a) + esize(entry.1) + 2,
    via field_covered_dec
{
    match ir::fields_find(a, entry.0) {
        Some(v) => is_subtype_spec(v, entry.1),
        None => false,
    }
}

/// Width-and-depth subtyping between two field entry lists: every
/// entry of `b` is covered by `a`.
pub open spec fn struct_entries_subtype(
    a: Seq<(ir::IdentView, ir::ExprView)>,
    b: Seq<(ir::IdentView, ir::ExprView)>,
) -> bool
    decreases fields_size(a) + fields_size(b) + 4,
    via struct_entries_subtype_dec
{
    forall|j: int| 0 <= j < b.len() ==> field_covered(a, #[trigger] b[j])
}

/// The structural subtype relation `a <: b`.
pub open spec fn is_subtype_spec(a: ir::ExprView, b: ir::ExprView) -> bool
    decreases esize(a) + esize(b),
    via is_subtype_spec_dec
{
    match (a, b) {
        (ir::ExprView::Struct(sa), ir::ExprView::Struct(sb)) => struct_entries_subtype(
            sa.fields,
            sb.fields,
        ),
        (ir::ExprView::Prim(pa), ir::ExprView::Prim(pb)) => pa == pb,
        (ir::ExprView::Func(aa, ab), ir::ExprView::Func(ba, bb)) => {
            &&& aa.args.len() == ba.args.len()
            &&& (forall|i: int|
                0 <= i < aa.args.len() ==> ((#[trigger] ba.args[i]).1 ==> aa.args[i].1))
            &&& (forall|i: int|
                0 <= i < aa.args.len() ==> is_subtype_spec(
                    (#[trigger] ba.args[i]).2,
                    aa.args[i].2,
                ))
            &&& is_subtype_spec(*ab, *bb)
        },
        _ => false,
    }
}

#[via_fn]
proof fn field_covered_dec(a: Seq<(ir::IdentView, ir::ExprView)>, entry: (ir::IdentView, ir::ExprView)) {
    if ir::fields_find(a, entry.0) is Some {
        lemma_fields_find_elem(a, entry.0);
        let j = choose|j: int|
            0 <= j < a.len() && (#[trigger] a[j]).0 == entry.0 && ir::fields_find(a, entry.0)
                == Some(a[j].1);
        lemma_fields_size_elem(a, j);
    }
}

#[via_fn]
proof fn struct_entries_subtype_dec(
    a: Seq<(ir::IdentView, ir::ExprView)>,
    b: Seq<(ir::IdentView, ir::ExprView)>,
) {
    assert forall|j: int| 0 <= j < b.len() implies fields_size(a) + esize(
        (#[trigger] b[j]).1,
    ) + 2 < fields_size(a) + fields_size(b) + 4 by {
        lemma_fields_size_elem(b, j);
    };
}

#[via_fn]
proof fn is_subtype_spec_dec(a: ir::ExprView, b: ir::ExprView) {
    if a is Func && b is Func {
        let aa = a->Func_0;
        let ba = b->Func_0;
        assert forall|i: int| 0 <= i < aa.args.len() && i < ba.args.len() implies esize(
            (#[trigger] ba.args[i]).2,
        ) + esize(aa.args[i].2) < esize(a) + esize(b) by {
            lemma_params_size_elem(aa.args, i);
            lemma_params_size_elem(ba.args, i);
        };
    }
}

// ---------------------------------------------------------------------
// The executable checker.
// ---------------------------------------------------------------------

/// First-match search for `key` in a field entry list, by index.
#[verifier::loop_isolation(false)]
fn find_field_idx(entries: &Vec<(ir::Ident, ir::Expr)>, key: &ir::Ident) -> (r: Option<usize>)
    ensures
        match r {
            Some(i) => i < entries.len() && ir::fields_entries(entries@)[i as int].0 == key@
                && ir::fields_find(ir::fields_entries(entries@), key@) == Some(
                ir::fields_entries(entries@)[i as int].1,
            ),
            None => ir::fields_find(ir::fields_entries(entries@), key@) is None,
        },
{
    let n = entries.len();
    for i in 0..n
        invariant
            forall|j: int| #![trigger entries@[j]] 0 <= j < i ==> entries@[j].0@ != key@,
        decreases n - i,
    {
        if entries[i].0 == *key {
            proof {
                ir::lemma_fields_entries_index(entries@, i as int);
                ir::lemma_fields_find_first_match(entries@, i as int);
            }
            return Some(i);
        }
    }
    proof {
        ir::lemma_fields_find_no_match(entries@, key@);
    }
    None
}

/// Whether `a <: b` over lowered expressions.
fn subtype_expr(a: &ir::Expr, b: &ir::Expr) -> (r: bool)
    ensures
        r == is_subtype_spec(ir::expr_view(*a), ir::expr_view(*b)),
    decreases esize(ir::expr_view(*a)) + esize(ir::expr_view(*b)),
{
    proof {
        ir::lemma_expr_view_struct_shape(*a);
        ir::lemma_expr_view_struct_shape(*b);
    }
    match (a, b) {
        (ir::Expr::Prim(x), ir::Expr::Prim(y)) => *x == *y,
        (ir::Expr::Struct(x), ir::Expr::Struct(y)) => {
            proof {
                assert(ir::expr_view(*a) == ir::ExprView::Struct(
                    Box::new(ir::struct_view(**x)),
                ));
                assert(ir::expr_view(*b) == ir::ExprView::Struct(
                    Box::new(ir::struct_view(**y)),
                ));
                assert(esize(ir::expr_view(*a)) == 3 + fields_size(
                    ir::fields_entries(x.fields@),
                ));
                assert(esize(ir::expr_view(*b)) == 3 + fields_size(
                    ir::fields_entries(y.fields@),
                ));
            }
            let r2 = subtype_fields(&x.fields, &y.fields);
            proof {
                assert(r2 == is_subtype_spec(ir::expr_view(*a), ir::expr_view(*b)));
            }
            r2
        },
        (ir::Expr::Func(x), ir::Expr::Func(y)) => {
            proof {
                assert(ir::expr_view(*a) == ir::ExprView::Func(
                    Box::new(ir::args_view(*x.args)),
                    Box::new(ir::expr_view(*x.body)),
                ));
                assert(ir::expr_view(*b) == ir::ExprView::Func(
                    Box::new(ir::args_view(*y.args)),
                    Box::new(ir::expr_view(*y.body)),
                ));
            }
            subtype_funcs(x, y)
        },
        _ => {
            proof {
                lemma_expr_view_full_shape(*a);
                lemma_expr_view_full_shape(*b);
            }
            false
        },
    }
}

/// An expression's view has the same shape as the expression.
proof fn lemma_expr_view_full_shape(e: ir::Expr)
    ensures
        (e is Prim) <==> (ir::expr_view(e) is Prim),
        (e is Struct) <==> (ir::expr_view(e) is Struct),
        (e is Func) <==> (ir::expr_view(e) is Func),
{
    match e {
        ir::Expr::Ident(_) => {},
        ir::Expr::Prim(_) => {},
        ir::Expr::Struct(_) => {},
        ir::Expr::Block(_) => {},
        ir::Expr::Func(_) => {},
        ir::Expr::Call(_) => {},
        ir::Expr::Constructor(_, _) => {},
        ir::Expr::Project(_) => {},
    }
}

/// Width-and-depth subtyping of two field entry lists.
#[verifier::loop_isolation(false)]
fn subtype_fields(av: &Vec<(ir::Ident, ir::Expr)>, bv: &Vec<(ir::Ident, ir::Expr)>) -> (r: bool)
    ensures
        r == struct_entries_subtype(ir::fields_entries(av@), ir::fields_entries(bv@)),
    decreases fields_size(ir::fields_entries(av@)) + fields_size(ir::fields_entries(bv@)) + 4,
{
    let ghost av_entries = ir::fields_entries(av@);
    let ghost bv_entries = ir::fields_entries(bv@);
    proof {
        ir::lemma_fields_entries_len(av@);
        ir::lemma_fields_entries_len(bv@);
    }
    let n = bv.len();
    for j in 0..n
        invariant
            forall|k: int| 0 <= k < j ==> field_covered(av_entries, #[trigger] bv_entries[k]),
        decreases n - j,
    {
        let entry = &bv[j];
        proof {
            ir::lemma_fields_entries_index(bv@, j as int);
        }
        match find_field_idx(av, &entry.0) {
            None => {
                proof {
                    assert(!field_covered(av_entries, bv_entries[j as int]));
                }
                return false;
            },
            Some(i) => {
                proof {
                    ir::lemma_fields_entries_index(av@, i as int);
                    lemma_fields_size_elem(av_entries, i as int);
                    lemma_fields_size_elem(bv_entries, j as int);
                }
                let sub = subtype_expr(&av[i].1, &entry.1);
                if !sub {
                    proof {
                        assert(!field_covered(av_entries, bv_entries[j as int]));
                    }
                    return false;
                }
                proof {
                    assert(field_covered(av_entries, bv_entries[j as int]));
                }
            },
        }
    }
    true
}

/// Function subtyping: positional parameters, mutability only added
/// from super- to subtype, contravariant parameter types, covariant
/// body.
#[verifier::loop_isolation(false)]
fn subtype_funcs(a: &ir::Func, b: &ir::Func) -> (r: bool)
    ensures
        r == is_subtype_spec(
            ir::ExprView::Func(
                Box::new(ir::args_view(*a.args)),
                Box::new(ir::expr_view(*a.body)),
            ),
            ir::ExprView::Func(
                Box::new(ir::args_view(*b.args)),
                Box::new(ir::expr_view(*b.body)),
            ),
        ),
    decreases params_size(ir::args_entries(a.args.args@)) + params_size(
        ir::args_entries(b.args.args@),
    ) + esize(ir::expr_view(*a.body)) + esize(ir::expr_view(*b.body)) + 4,
{
    let ghost fa = ir::ExprView::Func(
        Box::new(ir::args_view(*a.args)),
        Box::new(ir::expr_view(*a.body)),
    );
    let ghost fb = ir::ExprView::Func(
        Box::new(ir::args_view(*b.args)),
        Box::new(ir::expr_view(*b.body)),
    );
    let ghost a_entries = ir::args_entries(a.args.args@);
    let ghost b_entries = ir::args_entries(b.args.args@);
    proof {
        ir::lemma_args_entries_len(a.args.args@);
        ir::lemma_args_entries_len(b.args.args@);
    }
    if a.args.args.len() != b.args.args.len() {
        return false;
    }
    let n = a.args.args.len();
    for i in 0..n
        invariant
            forall|k: int|
                0 <= k < i ==> ((#[trigger] b_entries[k]).1 ==> a_entries[k].1)
                    && is_subtype_spec(b_entries[k].2, a_entries[k].2),
        decreases n - i,
    {
        let pa = &a.args.args[i];
        let pb = &b.args.args[i];
        proof {
            ir::lemma_args_entries_index(a.args.args@, i as int);
            ir::lemma_args_entries_index(b.args.args@, i as int);
        }
        if pb.1.0 && !pa.1.0 {
            proof {
                assert((b_entries[i as int].1 && !a_entries[i as int].1));
            }
            return false;
        }
        proof {
            lemma_params_size_elem(a_entries, i as int);
            lemma_params_size_elem(b_entries, i as int);
        }
        let ok = subtype_expr(&pb.1.1, &pa.1.1);
        if !ok {
            return false;
        }
    }
    subtype_expr(&a.body, &b.body)
}

// ---------------------------------------------------------------------
// The public relation.
// ---------------------------------------------------------------------

/// The structural type relation: `<:`, its mirror, and type equality
/// as the conjunction of both directions.
pub trait TypeRelation: Sized {
    /// What `is_subtype_of` decides.
    spec fn subtype_spec(&self, other: &Self) -> bool;

    /// Whether `self <: other`.
    fn is_subtype_of(&self, other: &Self) -> (r: bool)
        ensures
            r == self.subtype_spec(other),
    ;

    /// Whether `other <: self`.
    fn is_supertype_of(&self, other: &Self) -> (r: bool)
        ensures
            r == other.subtype_spec(self),
    ;

    /// Whether the two are subtypes of each other.
    fn is_type_equal(&self, other: &Self) -> (r: bool)
        ensures
            r == (self.subtype_spec(other) && other.subtype_spec(self)),
    ;
}

impl TypeRelation for ir::Expr {
    /// The relation over expression views.
    open spec fn subtype_spec(&self, other: &Self) -> bool {
        is_subtype_spec(ir::expr_view(*self), ir::expr_view(*other))
    }

    fn is_subtype_of(&self, other: &Self) -> (r: bool) {
        subtype_expr(self, other)
    }

    fn is_supertype_of(&self, other: &Self) -> (r: bool) {
        other.is_subtype_of(self)
    }

    fn is_type_equal(&self, other: &Self) -> (r: bool) {
        let forward = self.is_subtype_of(other);
        let backward = other.is_subtype_of(self);
        forward && backward
    }
}


impl TypeRelation for ir::Prim {
    /// Primitives are subtypes exactly when equal: no widening.
    open spec fn subtype_spec(&self, other: &Self) -> bool {
        self@ == other@
    }

    fn is_subtype_of(&self, other: &Self) -> (r: bool) {
        *self == *other
    }

    fn is_supertype_of(&self, other: &Self) -> (r: bool) {
        other.is_subtype_of(self)
    }

    fn is_type_equal(&self, other: &Self) -> (r: bool) {
        let forward = self.is_subtype_of(other);
        let backward = other.is_subtype_of(self);
        forward && backward
    }
}

impl TypeRelation for ir::Struct {
    /// Width and depth subtyping over the field entries.
    open spec fn subtype_spec(&self, other: &Self) -> bool {
        struct_entries_subtype(
            ir::fields_entries(self.fields@),
            ir::fields_entries(other.fields@),
        )
    }

    fn is_subtype_of(&self, other: &Self) -> (r: bool) {
        subtype_fields(&self.fields, &other.fields)
    }

    fn is_supertype_of(&self, other: &Self) -> (r: bool) {
        other.is_subtype_of(self)
    }

    fn is_type_equal(&self, other: &Self) -> (r: bool) {
        let forward = self.is_subtype_of(other);
        let backward = other.is_subtype_of(self);
        forward && backward
    }
}

impl TypeRelation for ir::Func {
    /// Function subtyping over the function's args scope and body.
    open spec fn subtype_spec(&self, other: &Self) -> bool {
        is_subtype_spec(
            ir::ExprView::Func(
                Box::new(ir::args_view(*self.args)),
                Box::new(ir::expr_view(*self.body)),
            ),
            ir::ExprView::Func(
                Box::new(ir::args_view(*other.args)),
                Box::new(ir::expr_view(*other.body)),
            ),
        )
    }

    fn is_subtype_of(&self, other: &Self) -> (r: bool) {
        subtype_funcs(self, other)
    }

    fn is_supertype_of(&self, other: &Self) -> (r: bool) {
        other.is_subtype_of(self)
    }

    fn is_type_equal(&self, other: &Self) -> (r: bool) {
        let forward = self.is_subtype_of(other);
        let backward = other.is_subtype_of(self);
        forward && backward
    }
}

// ---------------------------------------------------------------------
// Laws of the relation.
// ---------------------------------------------------------------------

/// A type-shaped expression: one of the shapes the subtype relation
/// accepts (primitive, structure, function), recursively.
pub open spec fn is_type_shaped(e: ir::ExprView) -> bool
    decreases e,
{
    match e {
        ir::ExprView::Prim(_) => true,
        ir::ExprView::Struct(s) => forall|j: int|
            0 <= j < s.fields.len() ==> is_type_shaped((#[trigger] s.fields[j]).1),
        ir::ExprView::Func(a, body) => (forall|i: int|
            0 <= i < a.args.len() ==> is_type_shaped((#[trigger] a.args[i]).2)) && is_type_shaped(
            *body,
        ),
        _ => false,
    }
}

/// Every scope reachable inside the expression is collision-free.
pub open spec fn scopes_dup_free(e: ir::ExprView) -> bool
    decreases e,
{
    match e {
        ir::ExprView::Struct(s) => ir::fields_dup_free(s.fields) && forall|j: int|
            0 <= j < s.fields.len() ==> scopes_dup_free((#[trigger] s.fields[j]).1),
        ir::ExprView::Func(a, body) => ir::args_dup_free(a.args) && (forall|i: int|
            0 <= i < a.args.len() ==> scopes_dup_free((#[trigger] a.args[i]).2))
            && scopes_dup_free(*body),
        _ => true,
    }
}

/// In a collision-free entry list, first-match search at an entry's own
/// key finds that entry.
pub proof fn lemma_fields_find_at(s: Seq<(ir::IdentView, ir::ExprView)>, j: int)
    requires
        0 <= j < s.len(),
        forall|i: int| 0 <= i < j ==> (#[trigger] s[i]).0 != s[j].0,
    ensures
        ir::fields_find(s, s[j].0) == Some(s[j].1),
    decreases j,
{
    if j > 0 {
        lemma_fields_find_at(s.drop_first(), j - 1);
    }
}

/// Subtyping is reflexive on well-formed, type-shaped expressions:
/// every primitive, structure, or function expression is a subtype of
/// itself.
pub proof fn lemma_subtype_reflexive(a: ir::ExprView)
    requires
        is_type_shaped(a),
        scopes_dup_free(a),
    ensures
        is_subtype_spec(a, a),
    decreases a,
{
    match a {
        ir::ExprView::Prim(_) => {},
        ir::ExprView::Struct(sbox) => {
            let entries = sbox.fields;
            assert forall|j: int| 0 <= j < entries.len() implies field_covered(
                entries,
                #[trigger] entries[j],
            ) by {
                lemma_fields_find_at(entries, j);
                lemma_subtype_reflexive(entries[j].1);
            };
            assert(struct_entries_subtype(entries, entries));
        },
        ir::ExprView::Func(aa, body) => {
            assert forall|i: int| 0 <= i < aa.args.len() implies is_subtype_spec(
                (#[trigger] aa.args[i]).2,
                aa.args[i].2,
            ) by {
                lemma_subtype_reflexive(aa.args[i].2);
            };
            lemma_subtype_reflexive(*body);
        },
        _ => {
            assert(false);
        },
    }
}

/// Width subtyping: a structure that binds every field another
/// requires, to the same (well-formed, type-shaped) value, is a
/// subtype of it — whatever further fields it binds besides.
pub proof fn lemma_subtype_width(sa: ir::StructView, sb: ir::StructView)
    requires
        forall|j: int|
            0 <= j < sb.fields.len() ==> ir::fields_find(
                sa.fields,
                (#[trigger] sb.fields[j]).0,
            ) == Some(sb.fields[j].1),
        forall|j: int|
            0 <= j < sb.fields.len() ==> is_type_shaped((#[trigger] sb.fields[j]).1)
                && scopes_dup_free(sb.fields[j].1),
    ensures
        is_subtype_spec(ir::ExprView::Struct(Box::new(sa)), ir::ExprView::Struct(Box::new(sb))),
{
    assert forall|j: int| 0 <= j < sb.fields.len() implies field_covered(
        sa.fields,
        #[trigger] sb.fields[j],
    ) by {
        lemma_subtype_reflexive(sb.fields[j].1);
    };
    assert(struct_entries_subtype(sa.fields, sb.fields));
}

/// Parameter contravariance: a function whose parameter types are
/// supertypes, position by position, of another's — with the same
/// mutability marks — and whose body is a subtype of the other's body,
/// is a subtype of the other function.
pub proof fn lemma_func_contravariant(
    aa: ir::ArgsView,
    ab: ir::ExprView,
    ba: ir::ArgsView,
    bb: ir::ExprView,
)
    requires
        aa.args.len() == ba.args.len(),
        forall|i: int| 0 <= i < aa.args.len() ==> (#[trigger] aa.args[i]).1 == ba.args[i].1,
        forall|i: int|
            0 <= i < aa.args.len() ==> is_subtype_spec((#[trigger] ba.args[i]).2, aa.args[i].2),
        is_subtype_spec(ab, bb),
    ensures
        is_subtype_spec(
            ir::ExprView::Func(Box::new(aa), Box::new(ab)),
            ir::ExprView::Func(Box::new(ba), Box::new(bb)),
        ),
{
    assert forall|i: int| 0 <= i < aa.args.len() implies ((#[trigger] ba.args[i]).1
        == aa.args[i].1) by {
        assert(aa.args[i].1 == ba.args[i].1);
    };
}

/// Mutability: a function with a mutable parameter is a subtype of the
/// same function with that parameter immutable, and not the other way
/// round — mutability may only be added going from super- to subtype.
pub proof fn lemma_func_mutability(
    n: ir::IdentView,
    t: ir::ExprView,
    body: ir::ExprView,
    pa: Option<Box<ir::CtxtView>>,
    pb: Option<Box<ir::CtxtView>>,
)
    requires
        is_type_shaped(t),
        scopes_dup_free(t),
        is_type_shaped(body),
        scopes_dup_free(body),
    ensures
        ({
            let fmut = ir::ExprView::Func(
                Box::new(ir::ArgsView { args: seq![(n, true, t)], parent: pa }),
                Box::new(body),
            );
            let fimm = ir::ExprView::Func(
                Box::new(ir::ArgsView { args: seq![(n, false, t)], parent: pb }),
                Box::new(body),
            );
            is_subtype_spec(fmut, fimm) && !is_subtype_spec(fimm, fmut)
        }),
{
    lemma_subtype_reflexive(t);
    lemma_subtype_reflexive(body);
    let ma = seq![(n, true, t)];
    let ia = seq![(n, false, t)];
    let fmut = ir::ExprView::Func(
        Box::new(ir::ArgsView { args: ma, parent: pa }),
        Box::new(body),
    );
    let fimm = ir::ExprView::Func(
        Box::new(ir::ArgsView { args: ia, parent: pb }),
        Box::new(body),
    );
    assert(ma[0] == (n, true, t) && ia[0] == (n, false, t));
    assert forall|i: int| 0 <= i < ma.len() implies !(#[trigger] ia[i]).1 by {
    };
    assert(is_subtype_spec(fmut, fimm));
    assert(!(ma[0].1 ==> ia[0].1));
    assert(!is_subtype_spec(fimm, fmut));
}

} // verus!
