use structlang::ast;
use structlang::ast::helpers;
use structlang::ir;
use structlang::lower::{IntoIr, LowerError};

type Meta = ();

fn vkey(name: &str) -> ir::Ident {
    ir::Ident::VIdent(name.to_string())
}

fn int_expr(n: i32) -> ir::Expr {
    ir::Expr::Prim(ir::Prim::I32(n))
}

fn field_names(s: &ir::Struct) -> Vec<String> {
    s.fields.iter().map(|(k, _)| k.as_str().to_string()).collect()
}

/// Lowering a structure literal with distinct field names succeeds and
/// binds one field per named field, skipping spacers.
#[test]
fn lower_struct_counts_named_fields() {
    let s = helpers::estruct::<Meta>(vec![
        helpers::field(helpers::vid("a"), helpers::ei32(1)),
        helpers::fspacer(),
        helpers::field(helpers::vid("b"), helpers::ei32(2)),
    ]);
    let lowered = s.elt.into_ir(None).unwrap();
    match lowered {
        ir::Expr::Struct(s) => {
            assert_eq!(field_names(&s), vec!["a".to_string(), "b".to_string()]);
            assert_eq!(s.parent, None);
        },
        other => panic!("expected a struct scope, found {other:?}"),
    }
}

/// Two fields with the same resolved identifier are a duplicate-binding
/// error.
#[test]
fn lower_struct_duplicate_field_fails() {
    let s = helpers::estruct::<Meta>(vec![
        helpers::field(helpers::vid("a"), helpers::ei32(1)),
        helpers::field(helpers::vid("a"), helpers::ei32(2)),
    ]);
    let r = s.elt.into_ir(None);
    assert_eq!(r, Err(LowerError::DuplicateField(vkey("a"))));
}

/// The same name in the two namespaces is no duplicate.
#[test]
fn lower_struct_namespaces_are_disjoint() {
    let s = helpers::estruct::<Meta>(vec![
        helpers::field(helpers::vid("a"), helpers::ei32(1)),
        helpers::field(helpers::tid("A"), helpers::ei32(2)),
    ]);
    assert!(s.elt.into_ir(None).is_ok());
}

fn scope_binding(name: &str, value: ir::Expr, parent: Option<ir::Ctxt>) -> ir::Ctxt {
    ir::Ctxt::Struct(Box::new(ir::Struct {
        fields: vec![(vkey(name), value)],
        parent,
    }))
}

/// Inlining `S = {a: 1, b: 2}` into `T = {..S, c: 3}` yields exactly
/// the fields `a, b, c`, and `T`'s scope points at the enclosing
/// context, not at `S`'s own parent.
#[test]
fn lower_inline_splices_fields() {
    let s_parent = scope_binding("unrelated", int_expr(0), None);
    let s_ast = helpers::estruct::<Meta>(vec![
        helpers::field(helpers::vid("a"), helpers::ei32(1)),
        helpers::field(helpers::vid("b"), helpers::ei32(2)),
    ]);
    let s_scope = match s_ast.elt.into_ir(Some(s_parent)).unwrap() {
        ir::Expr::Struct(s) => *s,
        other => panic!("expected a struct scope, found {other:?}"),
    };
    assert!(s_scope.parent.is_some());

    let ctxt = scope_binding("s", ir::Expr::Struct(Box::new(s_scope)), None);
    let t_ast = helpers::estruct::<Meta>(vec![
        helpers::inline(ast::Expr::Ident(helpers::vid("s"))),
        helpers::field(helpers::vid("c"), helpers::ei32(3)),
    ]);
    let t_scope = match t_ast.elt.into_ir(Some(ctxt.clone())).unwrap() {
        ir::Expr::Struct(s) => *s,
        other => panic!("expected a struct scope, found {other:?}"),
    };
    assert_eq!(
        field_names(&t_scope),
        vec!["a".to_string(), "b".to_string(), "c".to_string()]
    );
    assert_eq!(t_scope.parent, Some(ctxt));
}

/// A nested structure literal can be inlined directly.
#[test]
fn lower_inline_nested_literal() {
    let t = helpers::estruct::<Meta>(vec![
        helpers::istruct(vec![helpers::field(helpers::vid("a"), helpers::ei32(1))]),
        helpers::field(helpers::vid("b"), helpers::ei32(2)),
    ]);
    let scope = match t.elt.into_ir(None).unwrap() {
        ir::Expr::Struct(s) => *s,
        other => panic!("expected a struct scope, found {other:?}"),
    };
    assert_eq!(field_names(&scope), vec!["a".to_string(), "b".to_string()]);
}

/// Inlining over an already-present field is a duplicate-binding error.
#[test]
fn lower_inline_collision_fails() {
    let t = helpers::estruct::<Meta>(vec![
        helpers::field(helpers::vid("a"), helpers::ei32(2)),
        helpers::istruct(vec![helpers::field(helpers::vid("a"), helpers::ei32(1))]),
    ]);
    assert_eq!(t.elt.into_ir(None), Err(LowerError::DuplicateField(vkey("a"))));
}

/// An inline identifier the scope chain does not resolve is an error.
#[test]
fn lower_inline_unresolved_fails() {
    let t = helpers::estruct::<Meta>(vec![helpers::inline(ast::Expr::Ident(helpers::vid("s")))]);
    assert_eq!(t.elt.into_ir(None), Err(LowerError::UnresolvedInline(vkey("s"))));
}

/// An inline identifier resolving to a non-structure is illegal
/// composition.
#[test]
fn lower_inline_non_struct_fails() {
    let ctxt = scope_binding("x", int_expr(7), None);
    let t = helpers::estruct::<Meta>(vec![helpers::inline(ast::Expr::Ident(helpers::vid("x")))]);
    assert_eq!(t.elt.into_ir(Some(ctxt)), Err(LowerError::IllegalInline));
}

/// An inline expression that is neither an identifier nor a structure
/// literal is illegal composition.
#[test]
fn lower_inline_other_shape_fails() {
    let t = helpers::estruct::<Meta>(vec![
        helpers::inline(ast::Expr::Prim(ast::Prim::I32(1))),
    ]);
    assert_eq!(t.elt.into_ir(None), Err(LowerError::IllegalInline));
}

/// A named placeholder field is lowered and then discarded.
#[test]
fn lower_void_field_is_not_bound() {
    let s = helpers::estruct::<Meta>(vec![helpers::field(helpers::void(), helpers::ei32(1))]);
    match s.elt.into_ir(None).unwrap() {
        ir::Expr::Struct(s) => assert_eq!(s.fields.len(), 0),
        other => panic!("expected a struct scope, found {other:?}"),
    }
}

/// A binary operation desugars to a call of the synthetic operator
/// identifier.
#[test]
fn lower_binop_desugars_to_call() {
    let e = helpers::add(helpers::ei32::<Meta>(1), helpers::ei32(2));
    match e.elt.into_ir(None).unwrap() {
        ir::Expr::Call(c) => {
            assert_eq!(
                *c.func,
                ir::Expr::Ident(ir::Ident::Binop(ast::BinopKind::Add))
            );
            assert_eq!(c.args, vec![int_expr(1), int_expr(2)]);
            match *c.func {
                ir::Expr::Ident(id) => assert_eq!(id.as_str(), "(+)"),
                other => panic!("expected an operator identifier, found {other:?}"),
            }
        },
        other => panic!("expected a call, found {other:?}"),
    }
}

/// A function literal becomes an args scope plus a body lowered under
/// that scope.
#[test]
fn lower_func_builds_args_scope() {
    let f = helpers::efunc::<Meta>(
        helpers::params(vec![
            helpers::param(helpers::vid("p"), helpers::etid("T")),
            helpers::param_mut(helpers::vid("q"), helpers::etid("U")),
        ]),
        helpers::evid("p"),
    );
    match f.elt.into_ir(None).unwrap() {
        ir::Expr::Func(func) => {
            assert_eq!(func.args.args.len(), 2);
            assert_eq!(func.args.args[0].0, vkey("p"));
            assert!(!func.args.args[0].1 .0);
            assert!(func.args.args[1].1 .0);
            assert_eq!(*func.body, ir::Expr::Ident(vkey("p")));
        },
        other => panic!("expected a function, found {other:?}"),
    }
}

/// Two parameters with the same resolved identifier are a duplicate
/// argument error.
#[test]
fn lower_duplicate_argument_fails() {
    let f = helpers::efunc::<Meta>(
        helpers::params(vec![
            helpers::param(helpers::vid("p"), helpers::etid("T")),
            helpers::param(helpers::vid("p"), helpers::etid("U")),
        ]),
        helpers::evid("p"),
    );
    assert_eq!(f.elt.into_ir(None), Err(LowerError::DuplicateArgument(vkey("p"))));
}

/// A unary operation is a shape no surface feature lowers yet.
#[test]
fn lower_unop_is_unsupported() {
    let e = helpers::neg::<Meta>(helpers::ei32(1));
    assert_eq!(e.elt.into_ir(None), Err(LowerError::UnsupportedShape));
}

/// Spacer statements vanish; bindings lower in order.
#[test]
fn lower_block_statements() {
    let b = helpers::eblock::<Meta>(vec![
        helpers::sbind(helpers::vid("x"), helpers::ei32(1)),
        helpers::sspacer(),
        helpers::sexpr(helpers::evid("x")),
    ]);
    match b.elt.into_ir(None).unwrap() {
        ir::Expr::Block(b) => {
            assert_eq!(b.stmts.len(), 2);
            assert_eq!(b.stmts[0], ir::Stmt::Bind(vkey("x"), int_expr(1)));
            assert_eq!(b.stmts[1], ir::Stmt::Expr(ir::Expr::Ident(vkey("x"))));
        },
        other => panic!("expected a block, found {other:?}"),
    }
}

/// Shadow depth 1 resolves to the enclosing binding; depth 0 to the
/// nearest one.
#[test]
fn lookup_honours_shadow_depth() {
    let outer = scope_binding("x", int_expr(1), None);
    let inner = scope_binding("x", int_expr(2), Some(outer));
    assert_eq!(inner.lookup_at(vkey("x"), 0), Some(int_expr(2)));
    assert_eq!(inner.lookup_at(vkey("x"), 1), Some(int_expr(1)));
    assert_eq!(inner.lookup_at(vkey("x"), 2), None);
    assert_eq!(inner.lookup(vkey("x")), Some(int_expr(2)));
}

/// Inlining under shadow depth splices the outer structure.
#[test]
fn lower_inline_with_shadow_depth() {
    let outer_struct = ir::Struct {
        fields: vec![(vkey("a"), int_expr(1))],
        parent: None,
    };
    let outer = scope_binding("s", ir::Expr::Struct(Box::new(outer_struct)), None);
    let inner = scope_binding("s", int_expr(9), Some(outer));
    let t = helpers::estruct::<Meta>(vec![
        helpers::inline(ast::Expr::Ident(helpers::unshadow(helpers::vid("s"), 1))),
    ]);
    let scope = match t.elt.into_ir(Some(inner)).unwrap() {
        ir::Expr::Struct(s) => *s,
        other => panic!("expected a struct scope, found {other:?}"),
    };
    assert_eq!(field_names(&scope), vec!["a".to_string()]);
}

/// Lookup never finds the anonymous placeholder.
#[test]
fn lookup_never_finds_void() {
    let ctxt = scope_binding("x", int_expr(1), None);
    assert_eq!(ctxt.lookup(ir::Ident::Void), None);
    assert_eq!(ir::Ctxt::lookup_opt(&None, vkey("x")), None);
}

/// Lowering the same syntax tree under the same context twice yields
/// identical results.
#[test]
fn lower_is_deterministic() {
    let build = || {
        helpers::estruct::<Meta>(vec![
            helpers::field(helpers::vid("a"), helpers::ei32(1)),
            helpers::field(
                helpers::vid("f"),
                helpers::efunc(
                    helpers::params(vec![helpers::param(helpers::vid("p"), helpers::etid("T"))]),
                    helpers::add(helpers::evid("p"), helpers::ei32(1)),
                ),
            ),
        ])
    };
    let r1 = build().elt.into_ir(None);
    let r2 = build().elt.into_ir(None);
    assert_eq!(r1, r2);
}

/// Constructors keep their type name and lower their fields to a
/// scope.
#[test]
fn lower_constructor() {
    let e = helpers::econstructor::<Meta>(
        helpers::tid("Point"),
        vec![helpers::field(helpers::vid("x"), helpers::ei32(1))],
    );
    match e.elt.into_ir(None).unwrap() {
        ir::Expr::Constructor(name, s) => {
            assert_eq!(name, ir::Ident::TIdent("Point".to_string()));
            assert_eq!(field_names(&s), vec!["x".to_string()]);
        },
        other => panic!("expected a constructor, found {other:?}"),
    }
}

/// Projections lower structurally.
#[test]
fn lower_projection() {
    let e = helpers::eproj::<Meta>(helpers::evid("p"), helpers::vid("x"));
    match e.elt.into_ir(None).unwrap() {
        ir::Expr::Project(p) => {
            assert_eq!(*p.expr, ir::Expr::Ident(vkey("p")));
            assert_eq!(p.field, vkey("x"));
        },
        other => panic!("expected a projection, found {other:?}"),
    }
}

/// Calls lower their callee and arguments in order; method syntax is
/// sugar with no semantic weight.
#[test]
fn lower_call_and_method_agree() {
    let build = |method: bool| {
        let func = helpers::evid::<Meta>("f");
        let arglist = helpers::args(vec![helpers::arg(helpers::ei32(1))]);
        if method {
            helpers::emethod(func, arglist)
        } else {
            helpers::ecall(func, arglist)
        }
    };
    let plain = build(false).elt.into_ir(None).unwrap();
    let method = build(true).elt.into_ir(None).unwrap();
    assert_eq!(plain, method);
    match plain {
        ir::Expr::Call(c) => {
            assert_eq!(*c.func, ir::Expr::Ident(vkey("f")));
            assert_eq!(c.args, vec![int_expr(1)]);
        },
        other => panic!("expected a call, found {other:?}"),
    }
}
