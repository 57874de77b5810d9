//! Syntactic-context classifier: pure predicates over a syntax node and its
//! ancestor chain that decide whether the node sits in a type position, is
//! the target of an assignment, or is the condition of a control construct.
//! Rewrite passes rely on these to decide whether rewriting an identifier is
//! safe, so the classification over node kinds must stay exhaustive.

use vstd::prelude::*;

verus! {

/// A half-open source range `[start, end)`.
#[derive(Debug, Clone, Copy, PartialEq, Eq, Structural)]
pub struct Span {
    pub start: usize,
    pub end: usize,
}

/// `outer` covers all of `inner`.
pub open spec fn span_contains(outer: Span, inner: Span) -> bool {
    outer.start <= inner.start && inner.end <= outer.end
}

impl Span {
    pub fn contains(&self, inner: &Span) -> (r: bool)
        ensures
            r == span_contains(*self, *inner),
    {
        self.start <= inner.start && inner.end <= self.end
    }
}

/// The operator of a unary expression.
#[derive(Debug, Clone, Copy, PartialEq, Eq, Structural)]
pub enum UnaryOp {
    Minus,
    Plus,
    Bang,
    Tilde,
    TypeOf,
    Void,
    Delete,
}

/// Every syntax-node kind the grammar defines. Kinds whose sub-spans the
/// classifier reads carry them: the test of a ternary, the left-hand side of
/// an assignment, the type annotation of an assertion or `as`-expression.
#[derive(Debug, Clone, Copy, PartialEq, Eq, Structural)]
pub enum NodeKind {
    ArrayLit,
    ArrayPat,
    ArrowExpr,
    AssignExpr { left_span: Span },
    AssignPat,
    AssignPatProp,
    AssignProp,
    AwaitExpr,
    BigInt,
    BinExpr,
    BindingIdent,
    BlockStmt,
    Bool,
    BreakStmt,
    CallExpr,
    CatchClause,
    Class,
    ClassDecl,
    ClassExpr,
    ClassMethod,
    ClassProp,
    ComputedPropName,
    CondExpr { test_span: Span },
    Constructor,
    ContinueStmt,
    DebuggerStmt,
    Decorator,
    DoWhileStmt,
    EmptyStmt,
    ExportAll,
    ExportDecl,
    ExportDefaultDecl,
    ExportDefaultExpr,
    ExportDefaultSpecifier,
    ExportNamedSpecifier,
    ExportNamespaceSpecifier,
    ExprOrSpread,
    ExprStmt,
    FnDecl,
    FnExpr,
    ForInStmt,
    ForOfStmt,
    ForStmt,
    Function,
    GetterProp,
    Ident,
    IfStmt,
    ImportDecl,
    ImportDefaultSpecifier,
    ImportNamedSpecifier,
    ImportStarAsSpecifier,
    Invalid,
    JSXAttr,
    JSXClosingElement,
    JSXClosingFragment,
    JSXElement,
    JSXEmptyExpr,
    JSXExprContainer,
    JSXFragment,
    JSXMemberExpr,
    JSXNamespacedName,
    JSXOpeningElement,
    JSXOpeningFragment,
    JSXSpreadChild,
    JSXText,
    KeyValuePatProp,
    KeyValueProp,
    LabeledStmt,
    MemberExpr,
    MetaPropExpr,
    MethodProp,
    Module,
    NamedExport,
    NewExpr,
    Null,
    Number,
    ObjectLit,
    ObjectPat,
    OptChainExpr,
    Param,
    ParenExpr,
    PrivateMethod,
    PrivateName,
    PrivateProp,
    Regex,
    RestPat,
    ReturnStmt,
    Script,
    SeqExpr,
    SetterProp,
    SpreadElement,
    StaticBlock,
    Str,
    Super,
    SwitchCase,
    SwitchStmt,
    TaggedTpl,
    ThisExpr,
    ThrowStmt,
    Tpl,
    TplElement,
    TryStmt,
    TsArrayType,
    TsAsExpr { type_ann_span: Span },
    TsCallSignatureDecl,
    TsConditionalType,
    TsConstAssertion,
    TsConstructSignatureDecl,
    TsConstructorType,
    TsEnumDecl,
    TsEnumMember,
    TsExportAssignment,
    TsExprWithTypeArgs,
    TsExternalModuleRef,
    TsFnType,
    TsGetterSignature,
    TsImportEqualsDecl,
    TsImportType,
    TsIndexSignature,
    TsIndexedAccessType,
    TsInferType,
    TsInterfaceBody,
    TsInterfaceDecl,
    TsIntersectionType,
    TsKeywordType,
    TsLitType,
    TsMappedType,
    TsMethodSignature,
    TsModuleBlock,
    TsModuleDecl,
    TsNamespaceDecl,
    TsNamespaceExportDecl,
    TsNonNullExpr,
    TsOptionalType,
    TsParamProp,
    TsParenthesizedType,
    TsPropertySignature,
    TsQualifiedName,
    TsRestType,
    TsSetterSignature,
    TsThisType,
    TsTplLitType,
    TsTupleElement,
    TsTupleType,
    TsTypeAliasDecl,
    TsTypeAnn,
    TsTypeAssertion { type_ann_span: Span },
    TsTypeLit,
    TsTypeOperator,
    TsTypeParam,
    TsTypeParamDecl,
    TsTypeParamInstantiation,
    TsTypePredicate,
    TsTypeQuery,
    TsTypeRef,
    TsUnionType,
    UnaryExpr { op: UnaryOp },
    UpdateExpr,
    VarDecl,
    VarDeclarator,
    WhileStmt,
    WithStmt,
    YieldExpr,
}

/// One node on an ancestor chain.
#[derive(Debug, Clone, Copy, PartialEq, Eq, Structural)]
pub struct Node {
    pub kind: NodeKind,
    pub span: Span,
}

/// A node together with its ancestor chain, innermost parent first.
#[derive(Debug, Clone, PartialEq)]
pub struct NodePath {
    pub span: Span,
    pub ancestors: Vec<Node>,
}

/// How a node kind classifies its children for the type-position walk.
#[derive(Debug, Clone, Copy, PartialEq, Eq, Structural)]
pub enum KindClass {
    /// Children are always values: the walk stops with "not a type".
    Value,
    /// Children are always types: the walk stops with "a type".
    Type,
    /// Only the carried type-annotation sub-span is a type position.
    TypeBySpan { type_ann_span: Span },
    /// The kind carries no positional information; keep walking outward.
    Neutral,
}

/// The exhaustive classification table over every node kind.
pub open spec fn spec_kind_class(k: NodeKind) -> KindClass {
    match k {
        NodeKind::ArrayLit
        | NodeKind::ArrayPat
        | NodeKind::ArrowExpr
        | NodeKind::AssignExpr { .. }
        | NodeKind::AssignPat
        | NodeKind::AssignPatProp
        | NodeKind::AssignProp
        | NodeKind::AwaitExpr
        | NodeKind::BinExpr
        | NodeKind::BindingIdent
        | NodeKind::BlockStmt
        | NodeKind::BreakStmt
        | NodeKind::CallExpr
        | NodeKind::CatchClause
        | NodeKind::Class
        | NodeKind::ClassDecl
        | NodeKind::ClassExpr
        | NodeKind::ClassMethod
        | NodeKind::ClassProp
        | NodeKind::ComputedPropName
        | NodeKind::CondExpr { .. }
        | NodeKind::Constructor
        | NodeKind::ContinueStmt
        | NodeKind::DebuggerStmt
        | NodeKind::Decorator
        | NodeKind::DoWhileStmt
        | NodeKind::EmptyStmt
        | NodeKind::ExportAll
        | NodeKind::ExportDecl
        | NodeKind::ExportDefaultDecl
        | NodeKind::ExportDefaultExpr
        | NodeKind::ExportDefaultSpecifier
        | NodeKind::ExportNamedSpecifier
        | NodeKind::ExportNamespaceSpecifier
        | NodeKind::ExprOrSpread
        | NodeKind::ExprStmt
        | NodeKind::FnDecl
        | NodeKind::FnExpr
        | NodeKind::ForInStmt
        | NodeKind::ForOfStmt
        | NodeKind::ForStmt
        | NodeKind::Function
        | NodeKind::GetterProp
        | NodeKind::IfStmt
        | NodeKind::ImportDecl
        | NodeKind::ImportDefaultSpecifier
        | NodeKind::ImportNamedSpecifier
        | NodeKind::ImportStarAsSpecifier
        | NodeKind::Invalid
        | NodeKind::UnaryExpr { .. }
        | NodeKind::UpdateExpr
        | NodeKind::VarDecl
        | NodeKind::VarDeclarator
        | NodeKind::WhileStmt
        | NodeKind::WithStmt
        | NodeKind::YieldExpr
        | NodeKind::JSXAttr
        | NodeKind::JSXClosingElement
        | NodeKind::JSXClosingFragment
        | NodeKind::JSXElement
        | NodeKind::JSXEmptyExpr
        | NodeKind::JSXExprContainer
        | NodeKind::JSXFragment
        | NodeKind::JSXMemberExpr
        | NodeKind::JSXNamespacedName
        | NodeKind::JSXOpeningElement
        | NodeKind::JSXOpeningFragment
        | NodeKind::JSXSpreadChild
        | NodeKind::JSXText
        | NodeKind::KeyValuePatProp
        | NodeKind::KeyValueProp
        | NodeKind::LabeledStmt
        | NodeKind::MetaPropExpr
        | NodeKind::MethodProp
        | NodeKind::Module
        | NodeKind::NamedExport
        | NodeKind::NewExpr
        | NodeKind::ObjectLit
        | NodeKind::ObjectPat
        | NodeKind::OptChainExpr
        | NodeKind::Param
        | NodeKind::ParenExpr
        | NodeKind::PrivateMethod
        | NodeKind::PrivateName
        | NodeKind::PrivateProp
        | NodeKind::Regex
        | NodeKind::RestPat
        | NodeKind::ReturnStmt
        | NodeKind::Script
        | NodeKind::SeqExpr
        | NodeKind::SetterProp
        | NodeKind::SpreadElement
        | NodeKind::StaticBlock
        | NodeKind::Super
        | NodeKind::SwitchCase
        | NodeKind::SwitchStmt
        | NodeKind::TaggedTpl
        | NodeKind::ThisExpr
        | NodeKind::ThrowStmt
        | NodeKind::Tpl
        | NodeKind::TplElement
        | NodeKind::TryStmt
        | NodeKind::TsEnumDecl
        | NodeKind::TsEnumMember
        | NodeKind::TsExportAssignment
        | NodeKind::TsExternalModuleRef
        | NodeKind::TsImportEqualsDecl
        | NodeKind::TsModuleBlock
        | NodeKind::TsModuleDecl
        | NodeKind::TsNamespaceDecl
        | NodeKind::TsNamespaceExportDecl => KindClass::Value,
        NodeKind::TsArrayType
        | NodeKind::TsCallSignatureDecl
        | NodeKind::TsConditionalType
        | NodeKind::TsConstAssertion
        | NodeKind::TsConstructSignatureDecl
        | NodeKind::TsConstructorType
        | NodeKind::TsExprWithTypeArgs
        | NodeKind::TsFnType
        | NodeKind::TsGetterSignature
        | NodeKind::TsImportType
        | NodeKind::TsIndexSignature
        | NodeKind::TsIndexedAccessType
        | NodeKind::TsInferType
        | NodeKind::TsInterfaceBody
        | NodeKind::TsInterfaceDecl
        | NodeKind::TsIntersectionType
        | NodeKind::TsKeywordType
        | NodeKind::TsLitType
        | NodeKind::TsMappedType
        | NodeKind::TsMethodSignature
        | NodeKind::TsNonNullExpr
        | NodeKind::TsOptionalType
        | NodeKind::TsParamProp
        | NodeKind::TsParenthesizedType
        | NodeKind::TsPropertySignature
        | NodeKind::TsQualifiedName
        | NodeKind::TsRestType
        | NodeKind::TsSetterSignature
        | NodeKind::TsThisType
        | NodeKind::TsTplLitType
        | NodeKind::TsTupleElement
        | NodeKind::TsTupleType
        | NodeKind::TsTypeAliasDecl
        | NodeKind::TsTypeAnn
        | NodeKind::TsTypeLit
        | NodeKind::TsTypeOperator
        | NodeKind::TsTypeParam
        | NodeKind::TsTypeParamDecl
        | NodeKind::TsTypeParamInstantiation
        | NodeKind::TsTypePredicate
        | NodeKind::TsTypeQuery
        | NodeKind::TsTypeRef
        | NodeKind::TsUnionType => KindClass::Type,
        NodeKind::TsTypeAssertion { type_ann_span } => KindClass::TypeBySpan { type_ann_span },
        NodeKind::TsAsExpr { type_ann_span } => KindClass::TypeBySpan { type_ann_span },
        NodeKind::BigInt
        | NodeKind::Bool
        | NodeKind::Null
        | NodeKind::Number
        | NodeKind::MemberExpr
        | NodeKind::Str
        | NodeKind::Ident => KindClass::Neutral,
    }
}

fn kind_class(k: &NodeKind) -> (c: KindClass)
    ensures
        c == spec_kind_class(*k),
{
    match *k {
        NodeKind::ArrayLit
        | NodeKind::ArrayPat
        | NodeKind::ArrowExpr
        | NodeKind::AssignExpr { .. }
        | NodeKind::AssignPat
        | NodeKind::AssignPatProp
        | NodeKind::AssignProp
        | NodeKind::AwaitExpr
        | NodeKind::BinExpr
        | NodeKind::BindingIdent
        | NodeKind::BlockStmt
        | NodeKind::BreakStmt
        | NodeKind::CallExpr
        | NodeKind::CatchClause
        | NodeKind::Class
        | NodeKind::ClassDecl
        | NodeKind::ClassExpr
        | NodeKind::ClassMethod
        | NodeKind::ClassProp
        | NodeKind::ComputedPropName
        | NodeKind::CondExpr { .. }
        | NodeKind::Constructor
        | NodeKind::ContinueStmt
        | NodeKind::DebuggerStmt
        | NodeKind::Decorator
        | NodeKind::DoWhileStmt
        | NodeKind::EmptyStmt
        | NodeKind::ExportAll
        | NodeKind::ExportDecl
        | NodeKind::ExportDefaultDecl
        | NodeKind::ExportDefaultExpr
        | NodeKind::ExportDefaultSpecifier
        | NodeKind::ExportNamedSpecifier
        | NodeKind::ExportNamespaceSpecifier
        | NodeKind::ExprOrSpread
        | NodeKind::ExprStmt
        | NodeKind::FnDecl
        | NodeKind::FnExpr
        | NodeKind::ForInStmt
        | NodeKind::ForOfStmt
        | NodeKind::ForStmt
        | NodeKind::Function
        | NodeKind::GetterProp
        | NodeKind::IfStmt
        | NodeKind::ImportDecl
        | NodeKind::ImportDefaultSpecifier
        | NodeKind::ImportNamedSpecifier
        | NodeKind::ImportStarAsSpecifier
        | NodeKind::Invalid
        | NodeKind::UnaryExpr { .. }
        | NodeKind::UpdateExpr
        | NodeKind::VarDecl
        | NodeKind::VarDeclarator
        | NodeKind::WhileStmt
        | NodeKind::WithStmt
        | NodeKind::YieldExpr
        | NodeKind::JSXAttr
        | NodeKind::JSXClosingElement
        | NodeKind::JSXClosingFragment
        | NodeKind::JSXElement
        | NodeKind::JSXEmptyExpr
        | NodeKind::JSXExprContainer
        | NodeKind::JSXFragment
        | NodeKind::JSXMemberExpr
        | NodeKind::JSXNamespacedName
        | NodeKind::JSXOpeningElement
        | NodeKind::JSXOpeningFragment
        | NodeKind::JSXSpreadChild
        | NodeKind::JSXText
        | NodeKind::KeyValuePatProp
        | NodeKind::KeyValueProp
        | NodeKind::LabeledStmt
        | NodeKind::MetaPropExpr
        | NodeKind::MethodProp
        | NodeKind::Module
        | NodeKind::NamedExport
        | NodeKind::NewExpr
        | NodeKind::ObjectLit
        | NodeKind::ObjectPat
        | NodeKind::OptChainExpr
        | NodeKind::Param
        | NodeKind::ParenExpr
        | NodeKind::PrivateMethod
        | NodeKind::PrivateName
        | NodeKind::PrivateProp
        | NodeKind::Regex
        | NodeKind::RestPat
        | NodeKind::ReturnStmt
        | NodeKind::Script
        | NodeKind::SeqExpr
        | NodeKind::SetterProp
        | NodeKind::SpreadElement
        | NodeKind::StaticBlock
        | NodeKind::Super
        | NodeKind::SwitchCase
        | NodeKind::SwitchStmt
        | NodeKind::TaggedTpl
        | NodeKind::ThisExpr
        | NodeKind::ThrowStmt
        | NodeKind::Tpl
        | NodeKind::TplElement
        | NodeKind::TryStmt
        | NodeKind::TsEnumDecl
        | NodeKind::TsEnumMember
        | NodeKind::TsExportAssignment
        | NodeKind::TsExternalModuleRef
        | NodeKind::TsImportEqualsDecl
        | NodeKind::TsModuleBlock
        | NodeKind::TsModuleDecl
        | NodeKind::TsNamespaceDecl
        | NodeKind::TsNamespaceExportDecl => KindClass::Value,
        NodeKind::TsArrayType
        | NodeKind::TsCallSignatureDecl
        | NodeKind::TsConditionalType
        | NodeKind::TsConstAssertion
        | NodeKind::TsConstructSignatureDecl
        | NodeKind::TsConstructorType
        | NodeKind::TsExprWithTypeArgs
        | NodeKind::TsFnType
        | NodeKind::TsGetterSignature
        | NodeKind::TsImportType
        | NodeKind::TsIndexSignature
        | NodeKind::TsIndexedAccessType
        | NodeKind::TsInferType
        | NodeKind::TsInterfaceBody
        | NodeKind::TsInterfaceDecl
        | NodeKind::TsIntersectionType
        | NodeKind::TsKeywordType
        | NodeKind::TsLitType
        | NodeKind::TsMappedType
        | NodeKind::TsMethodSignature
        | NodeKind::TsNonNullExpr
        | NodeKind::TsOptionalType
        | NodeKind::TsParamProp
        | NodeKind::TsParenthesizedType
        | NodeKind::TsPropertySignature
        | NodeKind::TsQualifiedName
        | NodeKind::TsRestType
        | NodeKind::TsSetterSignature
        | NodeKind::TsThisType
        | NodeKind::TsTplLitType
        | NodeKind::TsTupleElement
        | NodeKind::TsTupleType
        | NodeKind::TsTypeAliasDecl
        | NodeKind::TsTypeAnn
        | NodeKind::TsTypeLit
        | NodeKind::TsTypeOperator
        | NodeKind::TsTypeParam
        | NodeKind::TsTypeParamDecl
        | NodeKind::TsTypeParamInstantiation
        | NodeKind::TsTypePredicate
        | NodeKind::TsTypeQuery
        | NodeKind::TsTypeRef
        | NodeKind::TsUnionType => KindClass::Type,
        NodeKind::TsTypeAssertion { type_ann_span } => KindClass::TypeBySpan { type_ann_span },
        NodeKind::TsAsExpr { type_ann_span } => KindClass::TypeBySpan { type_ann_span },
        NodeKind::BigInt
        | NodeKind::Bool
        | NodeKind::Null
        | NodeKind::Number
        | NodeKind::MemberExpr
        | NodeKind::Str
        | NodeKind::Ident => KindClass::Neutral,
    }
}

/// True iff the immediate parent is a binary expression, an if-statement, a
/// `typeof` unary expression, or a ternary whose condition sub-span contains
/// the node's span (a ternary has three children and only one of them is the
/// condition, so containment is decided by span).
pub open spec fn spec_is_directly_in_condition(p: &NodePath) -> bool {
    p.ancestors@.len() > 0 && match p.ancestors@[0].kind {
        NodeKind::BinExpr => true,
        NodeKind::IfStmt => true,
        NodeKind::UnaryExpr { op } => op == UnaryOp::TypeOf,
        NodeKind::CondExpr { test_span } => span_contains(test_span, p.span),
        _ => false,
    }
}

pub fn is_directly_in_condition(node: &NodePath) -> (r: bool)
    ensures
        r == spec_is_directly_in_condition(node),
{
    if node.ancestors.len() == 0 {
        return false;
    }
    match node.ancestors[0].kind {
        NodeKind::BinExpr => true,
        NodeKind::IfStmt => true,
        NodeKind::UnaryExpr { op } => match op {
            UnaryOp::TypeOf => true,
            _ => false,
        },
        NodeKind::CondExpr { test_span } => test_span.contains(&node.span),
        _ => false,
    }
}

/// The nearest enclosing assignment decides: the node is a left-hand-side
/// target iff its span lies in that assignment's left sub-span. Assignments
/// further out do not count.
pub open spec fn spec_lha_walk(node_span: Span, ancestors: Seq<Node>) -> bool
    decreases ancestors.len(),
{
    if ancestors.len() == 0 {
        false
    } else {
        match ancestors[0].kind {
            NodeKind::AssignExpr { left_span } => span_contains(left_span, node_span),
            _ => spec_lha_walk(node_span, ancestors.drop_first()),
        }
    }
}

pub open spec fn spec_is_in_left_hand_assignment(p: &NodePath) -> bool {
    spec_lha_walk(p.span, p.ancestors@)
}

#[verifier::loop_isolation(false)]
pub fn is_in_left_hand_assignment(node: &NodePath) -> (r: bool)
    ensures
        r == spec_is_in_left_hand_assignment(node),
{
    let mut i: usize = 0;
    assert(node.ancestors@.skip(0) =~= node.ancestors@);
    while i < node.ancestors.len()
        invariant
            i <= node.ancestors@.len(),
            spec_lha_walk(node.span, node.ancestors@.skip(i as int))
                == spec_is_in_left_hand_assignment(node),
        decreases node.ancestors@.len() - i,
    {
        assert(node.ancestors@.skip(i as int)[0] == node.ancestors@[i as int]);
        assert(node.ancestors@.skip(i as int).drop_first() =~= node.ancestors@.skip(i + 1));
        match node.ancestors[i].kind {
            NodeKind::AssignExpr { left_span } => {
                return left_span.contains(&node.span);
            },
            _ => {},
        }
        i = i + 1;
    }
    assert(node.ancestors@.skip(node.ancestors@.len() as int).len() == 0);
    false
}

/// Walk the ancestor chain outward. The first ancestor whose kind classifies
/// as value or type children decides; the two span-carrying kinds decide by
/// whether the current child's span lies in their type-annotation sub-span;
/// neutral kinds pass the walk on. An exhausted chain means "not a type".
pub open spec fn spec_in_type_walk(child_span: Span, ancestors: Seq<Node>) -> bool
    decreases ancestors.len(),
{
    if ancestors.len() == 0 {
        false
    } else {
        match spec_kind_class(ancestors[0].kind) {
            KindClass::Value => false,
            KindClass::Type => true,
            KindClass::TypeBySpan { type_ann_span } => span_contains(type_ann_span, child_span),
            KindClass::Neutral => spec_in_type_walk(ancestors[0].span, ancestors.drop_first()),
        }
    }
}

pub open spec fn spec_is_in_type(p: &NodePath) -> bool {
    spec_in_type_walk(p.span, p.ancestors@)
}

#[verifier::loop_isolation(false)]
pub fn is_in_type(node: &NodePath) -> (r: bool)
    ensures
        r == spec_is_in_type(node),
{
    let mut i: usize = 0;
    let mut child_span: Span = node.span;
    assert(node.ancestors@.skip(0) =~= node.ancestors@);
    while i < node.ancestors.len()
        invariant
            i <= node.ancestors@.len(),
            spec_in_type_walk(child_span, node.ancestors@.skip(i as int)) == spec_is_in_type(node),
        decreases node.ancestors@.len() - i,
    {
        assert(node.ancestors@.skip(i as int)[0] == node.ancestors@[i as int]);
        assert(node.ancestors@.skip(i as int).drop_first() =~= node.ancestors@.skip(i + 1));
        match kind_class(&node.ancestors[i].kind) {
            KindClass::Value => {
                return false;
            },
            KindClass::Type => {
                return true;
            },
            KindClass::TypeBySpan { type_ann_span } => {
                return type_ann_span.contains(&child_span);
            },
            KindClass::Neutral => {
                child_span = node.ancestors[i].span;
            },
        }
        i = i + 1;
    }
    assert(node.ancestors@.skip(node.ancestors@.len() as int).len() == 0);
    false
}

} // verus!
