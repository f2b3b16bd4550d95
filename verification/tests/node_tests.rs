use structlang::ast::helpers;
use structlang::ast::BinopKind;
use structlang::ir;
use structlang::lexer::{Lexer, Token};
use structlang::node::{Node, NodeExt, NodeWeak};
use structlang::parser::{Loc, ParseError};

#[test]
fn node_holds_element_and_metadata() {
    let n = Node::new(7u32, Loc {});
    assert_eq!(*n.get(), 7);
    assert_eq!(n.meta, Loc {});
}

#[test]
fn node_get_mut_rewrites_in_place() {
    let mut n = Node::new(7u32, Loc {});
    *n.get_mut() = 9;
    assert_eq!(*n.get(), 9);
}

#[test]
fn node_maps_element_and_metadata() {
    let n = Node::new(7u32, 1u8);
    let n = n.emap(|x| x + 1);
    assert_eq!(*n.get(), 8);
    let n = n.mmap(|m| m + 2);
    assert_eq!(n.meta, 3);
    let n = n.emap_mut(|x| x * 2);
    assert_eq!(*n.get(), 16);
    let n = n.mmap_mut(|m| m + 1);
    assert_eq!(n.meta, 4);
    let n = n.meta(Loc {});
    assert_eq!(n.meta, Loc {});
}

#[test]
fn node_ext_wraps_elements() {
    let n: Node<u32, Loc> = 5u32.elt();
    assert_eq!(*n.get(), 5);
    let n = 6u32.node(Loc {});
    assert_eq!(*n.get(), 6);
}

#[test]
fn weak_handles_compare_equal_and_keep_nothing() {
    let a = Node::new(1u32, Loc {});
    let b = Node::new(2u32, Loc {});
    let wa: NodeWeak<u32, Loc> = a.as_weak();
    let wb: NodeWeak<u32, Loc> = b.as_weak();
    assert_eq!(wa, wb);
    assert!(wa.upgrade().is_none());
}

#[test]
fn helper_identifiers_carry_their_flags() {
    let v = helpers::vid("x");
    assert_eq!(v.name, "x");
    assert!(!v.is_type && !v.is_void);
    assert_eq!(v.nshadow, 0);

    let t = helpers::tid("T");
    assert!(t.is_type && !t.is_void);

    let u = helpers::void();
    assert!(u.is_void);
    assert_eq!(u.name, "_");

    let shadowed = helpers::unshadow(helpers::vid("x"), 2);
    assert_eq!(shadowed.nshadow, 2);
    assert_eq!(shadowed.name, "x");
}

#[test]
fn operator_identifiers_print_parenthesized() {
    assert_eq!(ir::Ident::Binop(BinopKind::Add).as_str(), "(+)");
    assert_eq!(ir::Ident::Binop(BinopKind::Sub).as_str(), "(-)");
    assert_eq!(ir::Ident::Binop(BinopKind::Mul).as_str(), "(*)");
    assert_eq!(ir::Ident::Binop(BinopKind::Div).as_str(), "(/)");
    assert_eq!(ir::Ident::Binop(BinopKind::Pow).as_str(), "(^)");
    assert_eq!(ir::Ident::Binop(BinopKind::Concat).as_str(), "(++)");
    assert_eq!(ir::Ident::Void.as_str(), "_");
    assert_eq!(ir::Ident::VIdent("x".to_string()).as_str(), "x");
    assert_eq!(ir::Ident::TIdent("T".to_string()).as_str(), "T");
}

#[test]
fn expect_consumes_the_demanded_token() {
    let mut lexer = Lexer::new("42 foo").unwrap();
    assert_eq!(lexer.expect(Token::Number), Ok("42"));
    assert_eq!(
        lexer.expect(Token::Number),
        Err(ParseError::ExpectFailed { expected: Token::Number, found: Token::Ident })
    );
    assert_eq!(lexer.expect(Token::Ident), Err(ParseError::OutOfTokens));
}
