use dnt::analyze::{
    is_directly_in_condition, is_in_left_hand_assignment, is_in_type, Node, NodeKind, NodePath,
    Span, UnaryOp,
};

fn sp(start: usize, end: usize) -> Span {
    Span { start, end }
}

fn node(kind: NodeKind, start: usize, end: usize) -> Node {
    Node { kind, span: sp(start, end) }
}

// `if (x) {}` : `x` sits at [4, 5); its parent is the if-statement.
#[test]
fn if_test_is_in_condition() {
    let x = NodePath {
        span: sp(4, 5),
        ancestors: vec![node(NodeKind::IfStmt, 0, 10), node(NodeKind::Module, 0, 10)],
    };
    assert!(is_directly_in_condition(&x));
}

// `a ? b : c` : only the test sub-span of the ternary counts.
#[test]
fn ternary_condition_by_span() {
    let cond = NodeKind::CondExpr { test_span: sp(0, 1) };
    let a = NodePath { span: sp(0, 1), ancestors: vec![node(cond, 0, 9)] };
    let b = NodePath { span: sp(4, 5), ancestors: vec![node(cond, 0, 9)] };
    assert!(is_directly_in_condition(&a));
    assert!(!is_directly_in_condition(&b));
}

#[test]
fn typeof_operand_is_in_condition_but_negation_is_not() {
    let t = NodePath {
        span: sp(7, 8),
        ancestors: vec![node(NodeKind::UnaryExpr { op: UnaryOp::TypeOf }, 0, 8)],
    };
    assert!(is_directly_in_condition(&t));
    let n = NodePath {
        span: sp(1, 2),
        ancestors: vec![node(NodeKind::UnaryExpr { op: UnaryOp::Bang }, 0, 2)],
    };
    assert!(!is_directly_in_condition(&n));
}

// `a = b` : `a` is in the left-hand side, `b` is not.
#[test]
fn assignment_left_hand_side() {
    let assign = NodeKind::AssignExpr { left_span: sp(0, 1) };
    let a = NodePath {
        span: sp(0, 1),
        ancestors: vec![node(assign, 0, 5), node(NodeKind::ExprStmt, 0, 6)],
    };
    let b = NodePath {
        span: sp(4, 5),
        ancestors: vec![node(assign, 0, 5), node(NodeKind::ExprStmt, 0, 6)],
    };
    assert!(is_in_left_hand_assignment(&a));
    assert!(!is_in_left_hand_assignment(&b));
}

// only the nearest enclosing assignment counts
#[test]
fn nearest_assignment_wins() {
    let inner = NodeKind::AssignExpr { left_span: sp(4, 5) };
    let outer = NodeKind::AssignExpr { left_span: sp(0, 1) };
    // node at [8, 9) sits in the inner assignment's right side, but inside
    // the outer assignment's right side as well: the inner one decides.
    let p = NodePath {
        span: sp(8, 9),
        ancestors: vec![node(inner, 4, 9), node(outer, 0, 9)],
    };
    assert!(!is_in_left_hand_assignment(&p));
}

#[test]
fn no_ancestors_means_no() {
    let p = NodePath { span: sp(0, 1), ancestors: Vec::new() };
    assert!(!is_directly_in_condition(&p));
    assert!(!is_in_left_hand_assignment(&p));
    assert!(!is_in_type(&p));
}

// `const v: Array<Foo> = y` : `Foo` is in a type, `y` is not.
#[test]
fn type_reference_argument_is_in_type() {
    // Foo (an Ident) -> TsTypeRef (Array<Foo>) -> TsTypeAnn -> BindingIdent
    let foo = NodePath {
        span: sp(15, 18),
        ancestors: vec![
            node(NodeKind::TsTypeRef, 9, 19),
            node(NodeKind::TsTypeAnn, 7, 19),
            node(NodeKind::BindingIdent, 6, 19),
            node(NodeKind::VarDeclarator, 6, 23),
        ],
    };
    assert!(is_in_type(&foo));
    let y = NodePath {
        span: sp(22, 23),
        ancestors: vec![node(NodeKind::VarDeclarator, 6, 23), node(NodeKind::VarDecl, 0, 23)],
    };
    assert!(!is_in_type(&y));
}

// `x as Foo` : `Foo` is in a type, `x` is not.
#[test]
fn as_expression_decides_by_type_annotation_span() {
    let as_expr = NodeKind::TsAsExpr { type_ann_span: sp(5, 8) };
    let foo = NodePath { span: sp(5, 8), ancestors: vec![node(as_expr, 0, 8)] };
    let x = NodePath { span: sp(0, 1), ancestors: vec![node(as_expr, 0, 8)] };
    assert!(is_in_type(&foo));
    assert!(!is_in_type(&x));
}

// neutral kinds (identifiers, member expressions) pass the walk on
#[test]
fn walk_passes_through_neutral_kinds() {
    let p = NodePath {
        span: sp(10, 11),
        ancestors: vec![
            node(NodeKind::MemberExpr, 8, 13),
            node(NodeKind::TsTypeQuery, 5, 13),
            node(NodeKind::TsTypeAnn, 3, 13),
        ],
    };
    assert!(is_in_type(&p));
    let q = NodePath {
        span: sp(10, 11),
        ancestors: vec![node(NodeKind::MemberExpr, 8, 13), node(NodeKind::CallExpr, 5, 14)],
    };
    assert!(!is_in_type(&q));
}
