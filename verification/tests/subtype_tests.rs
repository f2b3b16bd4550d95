use structlang::ir;
use structlang::subtype::TypeRelation;

fn vkey(name: &str) -> ir::Ident {
    ir::Ident::VIdent(name.to_string())
}

fn int_expr(n: i32) -> ir::Expr {
    ir::Expr::Prim(ir::Prim::I32(n))
}

fn scope(fields: Vec<(ir::Ident, ir::Expr)>) -> ir::Struct {
    ir::Struct { fields, parent: None }
}

fn func(params: Vec<(ir::Ident, bool, ir::Expr)>, body: ir::Expr) -> ir::Func {
    ir::Func {
        args: Box::new(ir::Args {
            args: params.into_iter().map(|(k, m, e)| (k, (m, e))).collect(),
            parent: None,
        }),
        body: Box::new(body),
    }
}

/// Subtyping is reflexive for primitive, structure, and function
/// shapes.
#[test]
fn subtype_is_reflexive_per_shape() {
    let p = ir::Prim::I32(7);
    assert!(p.is_subtype_of(&p));

    let s = ir::Expr::Struct(Box::new(scope(vec![
        (vkey("x"), int_expr(1)),
        (vkey("y"), int_expr(2)),
    ])));
    assert!(s.is_subtype_of(&s));

    let f = ir::Expr::Func(func(vec![(vkey("p"), false, int_expr(1))], int_expr(2)));
    assert!(f.is_subtype_of(&f));
}

/// Primitives are subtypes only when equal; no widening.
#[test]
fn prim_subtyping_is_equality() {
    assert!(ir::Prim::I32(1).is_subtype_of(&ir::Prim::I32(1)));
    assert!(!ir::Prim::I32(1).is_subtype_of(&ir::Prim::I32(2)));
    assert!(ir::Prim::String("a".to_string()).is_subtype_of(&ir::Prim::String("a".to_string())));
    assert!(!ir::Prim::String("a".to_string()).is_subtype_of(&ir::Prim::String("b".to_string())));
    assert!(!ir::Prim::I32(97).is_subtype_of(&ir::Prim::Char(97)));
}

/// Width subtyping: `{x: 1, y: 2}` is a subtype of `{x: 1}` but not
/// vice versa.
#[test]
fn struct_width_subtyping() {
    let wide = scope(vec![(vkey("x"), int_expr(1)), (vkey("y"), int_expr(2))]);
    let narrow = scope(vec![(vkey("x"), int_expr(1))]);
    assert!(wide.is_subtype_of(&narrow));
    assert!(!narrow.is_subtype_of(&wide));
    assert!(narrow.is_supertype_of(&wide));
}

/// Depth subtyping: a shared field's value must itself be a subtype.
#[test]
fn struct_depth_subtyping() {
    let inner_wide = ir::Expr::Struct(Box::new(scope(vec![
        (vkey("a"), int_expr(1)),
        (vkey("b"), int_expr(2)),
    ])));
    let inner_narrow = ir::Expr::Struct(Box::new(scope(vec![(vkey("a"), int_expr(1))])));
    let deep_wide = scope(vec![(vkey("x"), inner_wide)]);
    let deep_narrow = scope(vec![(vkey("x"), inner_narrow)]);
    assert!(deep_wide.is_subtype_of(&deep_narrow));
    assert!(!deep_narrow.is_subtype_of(&deep_wide));
}

/// Field order does not matter: equal field sets are type-equal.
#[test]
fn struct_field_order_is_irrelevant() {
    let a = scope(vec![(vkey("x"), int_expr(1)), (vkey("y"), int_expr(2))]);
    let b = scope(vec![(vkey("y"), int_expr(2)), (vkey("x"), int_expr(1))]);
    assert!(a.is_type_equal(&b));
}

/// Function contravariance: with parameter supertype relation
/// `P1 :> P2`, a function over `P1` is a subtype of a function over
/// `P2` with an identical body.
#[test]
fn func_params_are_contravariant() {
    let p1 = ir::Expr::Struct(Box::new(scope(vec![(vkey("x"), int_expr(1))])));
    let p2 = ir::Expr::Struct(Box::new(scope(vec![
        (vkey("x"), int_expr(1)),
        (vkey("y"), int_expr(2)),
    ])));
    // p2 <: p1, so p1 :> p2.
    let over_p1 = func(vec![(vkey("p"), false, p1.clone())], int_expr(0));
    let over_p2 = func(vec![(vkey("p"), false, p2.clone())], int_expr(0));
    assert!(p2.is_subtype_of(&p1));
    assert!(over_p1.is_subtype_of(&over_p2));
    assert!(!over_p2.is_subtype_of(&over_p1));
}

/// The function body is covariant.
#[test]
fn func_body_is_covariant() {
    let wide = ir::Expr::Struct(Box::new(scope(vec![
        (vkey("x"), int_expr(1)),
        (vkey("y"), int_expr(2)),
    ])));
    let narrow = ir::Expr::Struct(Box::new(scope(vec![(vkey("x"), int_expr(1))])));
    let returns_wide = func(vec![(vkey("p"), false, int_expr(0))], wide);
    let returns_narrow = func(vec![(vkey("p"), false, int_expr(0))], narrow);
    assert!(returns_wide.is_subtype_of(&returns_narrow));
    assert!(!returns_narrow.is_subtype_of(&returns_wide));
}

/// A function with an immutable parameter is not a subtype of one
/// requiring that parameter to be mutable; the reverse holds.
#[test]
fn func_mutability_only_added_towards_subtype() {
    let f_mut = func(vec![(vkey("p"), true, int_expr(1))], int_expr(0));
    let f_imm = func(vec![(vkey("p"), false, int_expr(1))], int_expr(0));
    assert!(f_mut.is_subtype_of(&f_imm));
    assert!(!f_imm.is_subtype_of(&f_mut));
}

/// Functions with different parameter counts are unrelated.
#[test]
fn func_arity_must_match() {
    let one = func(vec![(vkey("p"), false, int_expr(1))], int_expr(0));
    let two = func(
        vec![(vkey("p"), false, int_expr(1)), (vkey("q"), false, int_expr(2))],
        int_expr(0),
    );
    assert!(!one.is_subtype_of(&two));
    assert!(!two.is_subtype_of(&one));
}

/// Any other pairing of shapes is simply not a subtype.
#[test]
fn mismatched_shapes_are_unrelated() {
    let s = ir::Expr::Struct(Box::new(scope(vec![(vkey("x"), int_expr(1))])));
    let f = ir::Expr::Func(func(vec![(vkey("p"), false, int_expr(1))], int_expr(0)));
    let p = ir::Expr::Prim(ir::Prim::I32(1));
    let id = ir::Expr::Ident(vkey("x"));
    assert!(!s.is_subtype_of(&f));
    assert!(!f.is_subtype_of(&s));
    assert!(!s.is_subtype_of(&p));
    assert!(!id.is_subtype_of(&id));
}

/// Type equality is the conjunction of both directions.
#[test]
fn type_equality_is_mutual_subtyping() {
    let wide = scope(vec![(vkey("x"), int_expr(1)), (vkey("y"), int_expr(2))]);
    let narrow = scope(vec![(vkey("x"), int_expr(1))]);
    assert!(!wide.is_type_equal(&narrow));
    let same = scope(vec![(vkey("x"), int_expr(1)), (vkey("y"), int_expr(2))]);
    assert!(wide.is_type_equal(&same));
}
