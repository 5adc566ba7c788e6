//! The typed tree as a mathematical object. The tree of a generic body is its source.
use vstd::prelude::*;
use crate::ast::{literal_view, type_expr_view, AspectMethod, AssignOp, BinOp, Block, FieldDecl};
use crate::ast::{GenericParam, LiteralV, Param, Polarity, SymbolId, TypeExpr, TypeExprV, UnaryOp};
use crate::ast::VariantDecl;
use crate::error::{MetelError, MetelErrorV};
use crate::native_keys::NativeKey;
use crate::span::SpanV;
use crate::text::{opt_text, texts};
use crate::typed_ast::{span_of, ty_of, FunBody, MethodDispatch, TypedBlock, TypedDecl, TypedExpr};
use crate::typed_ast::{TypedForInit, TypedFunDecl, TypedMatchArm, TypedPlace, TypedStmt};
use crate::types::{types_view, Type, TypeV};
use super::pattern::{pattern_view, PatternV};

verus! {

/// The value of a [`TypedExpr`] as a mathematical object.
#[allow(inconsistent_fields)]
pub ghost enum ExprT {
    Literal(LiteralV, TypeV, SpanV),
    Ident(Seq<char>, TypeV, SpanV),
    Path(Seq<Seq<char>>, TypeV, SpanV),
    Tuple(Seq<ExprT>, TypeV, SpanV),
    Array(Seq<ExprT>, TypeV, SpanV),
    RepeatArray(Box<ExprT>, u64, TypeV, SpanV),
    RecordLiteral { fields: Seq<(Seq<char>, ExprT)>, ty: TypeV, span: SpanV },
    StructLiteral {
        path: Seq<Seq<char>>,
        fields: Seq<(Seq<char>, ExprT)>,
        ty: TypeV,
        type_id: Option<SymbolId>,
        span: SpanV,
    },
    BinOp(Box<ExprT>, BinOp, Box<ExprT>, TypeV, SpanV),
    UnaryOp(UnaryOp, Box<ExprT>, TypeV, SpanV),
    RefTemp { init: Box<ExprT>, mutable: bool, ty: TypeV, span: SpanV },
    Assign { target: PlaceT, op: AssignOp, value: Box<ExprT>, ty: TypeV, span: SpanV },
    Call {
        callee: Box<ExprT>,
        args: Seq<ExprT>,
        ty: TypeV,
        callee_id: Option<SymbolId>,
        span: SpanV,
    },
    MethodCall {
        receiver: Box<ExprT>,
        method: Seq<char>,
        args: Seq<ExprT>,
        ty: TypeV,
        dispatch: MethodDispatch,
        span: SpanV,
    },
    FieldAccess { object: Box<ExprT>, field: Seq<char>, ty: TypeV, span: SpanV },
    TupleAccess { object: Box<ExprT>, index: usize, ty: TypeV, span: SpanV },
    Index { object: Box<ExprT>, index: Box<ExprT>, ty: TypeV, span: SpanV },
    Cast { expr: Box<ExprT>, target_type: TypeExprV, ty: TypeV, span: SpanV },
    SingletonCoerce {
        inner: Box<ExprT>,
        variant: Seq<char>,
        field: Seq<char>,
        ty: TypeV,
        span: SpanV,
    },
    Match { scrutinee: Box<ExprT>, arms: Seq<ArmT>, ty: TypeV, span: SpanV },
    If { condition: Box<ExprT>, taken: BlockT, other: Option<BlockT>, ty: TypeV, span: SpanV },
    Loop { body: BlockT, ty: TypeV, span: SpanV },
    Closure {
        params: Vec<Param>,
        return_type: Option<TypeExpr>,
        body: BlockT,
        ty: TypeV,
        span: SpanV,
    },
    GenericClosure {
        name: Option<Seq<char>>,
        params: Vec<Param>,
        return_type: Option<TypeExpr>,
        source: Block,
        ty: TypeV,
        span: SpanV,
    },
    Return(Option<Box<ExprT>>, SpanV),
    Break(Option<Box<ExprT>>, SpanV),
    Continue(SpanV),
}

/// The value of a [`TypedPlace`] as a mathematical object.
#[allow(inconsistent_fields)]
pub ghost enum PlaceT {
    Ident(Seq<char>, SpanV),
    Field { object: Box<PlaceT>, field: Seq<char>, span: SpanV },
    Tuple { object: Box<PlaceT>, index: usize, span: SpanV },
    Index { object: Box<PlaceT>, index: Box<ExprT>, span: SpanV },
    Deref { object: Box<ExprT>, span: SpanV },
}

/// The value of a [`TypedMatchArm`] as a mathematical object.
pub ghost struct ArmT {
    pub pattern: PatternV,
    pub guard: Option<ExprT>,
    pub body: BlockT,
    pub span: SpanV,
}

/// The value of a [`TypedBlock`] as a mathematical object.
pub ghost struct BlockT {
    pub stmts: Seq<DeclT>,
    pub tail: Option<Box<ExprT>>,
    pub span: SpanV,
}

/// The value of a binding as a mathematical object.
pub ghost struct BindingT {
    pub name: Seq<char>,
    pub type_ann: Option<TypeExpr>,
    pub value: ExprT,
    pub def_id: Option<SymbolId>,
    pub span: SpanV,
}

/// The value of a [`TypedFunDecl`] as a mathematical object.
pub ghost struct FunT {
    pub name: Seq<char>,
    pub generics: Vec<GenericParam>,
    pub params: Vec<Param>,
    pub return_type: Option<TypeExpr>,
    pub body: BodyT,
    pub symbol_id: Option<SymbolId>,
    pub def_id: Option<SymbolId>,
    pub span: SpanV,
}

/// The value of a [`FunBody`] as a mathematical object.
#[allow(inconsistent_fields)]
pub ghost enum BodyT {
    Typed(BlockT),
    Generic { source: Block },
    Native(NativeKey),
}

/// The value of a [`TypedDecl`] as a mathematical object.
#[allow(inconsistent_fields)]
pub ghost enum DeclT {
    Let(BindingT),
    Mut(BindingT),
    Fun(FunT),
    Struct {
        name: Seq<char>,
        generics: Vec<GenericParam>,
        fields: Vec<FieldDecl>,
        span: SpanV,
    },
    Enum {
        name: Seq<char>,
        generics: Vec<GenericParam>,
        variants: Vec<VariantDecl>,
        span: SpanV,
    },
    Impl {
        polarity: Polarity,
        generics: Vec<GenericParam>,
        aspect_name: Option<String>,
        aspect_id: Option<SymbolId>,
        target_type_id: Option<SymbolId>,
        aspect_type_args: Vec<TypeExpr>,
        target_type: TypeExpr,
        methods: Seq<FunT>,
        span: SpanV,
    },
    Aspect {
        name: Seq<char>,
        generics: Vec<GenericParam>,
        methods: Vec<AspectMethod>,
        span: SpanV,
    },
    Stmt(Box<StmtT>),
}

/// The value of a [`TypedStmt`] as a mathematical object.
#[allow(inconsistent_fields)]
pub ghost enum StmtT {
    Expr(ExprT),
    While { condition: ExprT, body: BlockT, span: SpanV },
    For {
        init: Option<InitT>,
        condition: Option<ExprT>,
        step: Option<ExprT>,
        body: BlockT,
        span: SpanV,
    },
    ForIn { binding: Seq<char>, mutable: bool, iterable: ExprT, body: BlockT, span: SpanV },
}

/// The value of a [`TypedForInit`] as a mathematical object.
pub ghost enum InitT {
    Let(BindingT),
    Mut(BindingT),
    Expr(ExprT),
}

/// The tree of an expression.
pub open spec fn expr_tree(e: TypedExpr) -> ExprT
    decreases e,
{
    match e {
        TypedExpr::Literal(lit, ty, span) => ExprT::Literal(literal_view(lit), ty@, span@),
        TypedExpr::Ident(name, ty, span) => ExprT::Ident(name@, ty@, span@),
        TypedExpr::Path(path, ty, span) => ExprT::Path(texts(path@), ty@, span@),
        TypedExpr::Tuple(items, ty, span) => ExprT::Tuple(expr_trees(items@), ty@, span@),
        TypedExpr::Array(items, ty, span) => ExprT::Array(expr_trees(items@), ty@, span@),
        TypedExpr::RepeatArray(value, n, ty, span) => ExprT::RepeatArray(
            Box::new(expr_tree(*value)),
            n,
            ty@,
            span@,
        ),
        TypedExpr::RecordLiteral { fields, ty, span } => ExprT::RecordLiteral {
            fields: field_trees(fields@),
            ty: ty@,
            span: span@,
        },
        TypedExpr::StructLiteral { path, fields, ty, type_id, span } => ExprT::StructLiteral {
            path: texts(path@),
            fields: field_trees(fields@),
            ty: ty@,
            type_id,
            span: span@,
        },
        TypedExpr::BinOp(left, op, right, ty, span) => ExprT::BinOp(
            Box::new(expr_tree(*left)),
            op,
            Box::new(expr_tree(*right)),
            ty@,
            span@,
        ),
        TypedExpr::UnaryOp(op, inner, ty, span) => ExprT::UnaryOp(
            op,
            Box::new(expr_tree(*inner)),
            ty@,
            span@,
        ),
        TypedExpr::RefTemp { init, mutable, ty, span } => ExprT::RefTemp {
            init: Box::new(expr_tree(*init)),
            mutable,
            ty: ty@,
            span: span@,
        },
        TypedExpr::Assign { target, op, value, ty, span } => ExprT::Assign {
            target: place_tree(target),
            op,
            value: Box::new(expr_tree(*value)),
            ty: ty@,
            span: span@,
        },
        TypedExpr::Call { callee, args, ty, callee_id, span } => ExprT::Call {
            callee: Box::new(expr_tree(*callee)),
            args: expr_trees(args@),
            ty: ty@,
            callee_id,
            span: span@,
        },
        TypedExpr::MethodCall { receiver, method, args, ty, dispatch, span } => ExprT::MethodCall {
            receiver: Box::new(expr_tree(*receiver)),
            method: method@,
            args: expr_trees(args@),
            ty: ty@,
            dispatch,
            span: span@,
        },
        TypedExpr::FieldAccess { object, field, ty, span } => ExprT::FieldAccess {
            object: Box::new(expr_tree(*object)),
            field: field@,
            ty: ty@,
            span: span@,
        },
        TypedExpr::TupleAccess { object, index, ty, span } => ExprT::TupleAccess {
            object: Box::new(expr_tree(*object)),
            index,
            ty: ty@,
            span: span@,
        },
        TypedExpr::Index { object, index, ty, span } => ExprT::Index {
            object: Box::new(expr_tree(*object)),
            index: Box::new(expr_tree(*index)),
            ty: ty@,
            span: span@,
        },
        TypedExpr::Cast { expr, target_type, ty, span } => ExprT::Cast {
            expr: Box::new(expr_tree(*expr)),
            target_type: type_expr_view(target_type),
            ty: ty@,
            span: span@,
        },
        TypedExpr::SingletonCoerce { inner, variant, field, ty, span } => ExprT::SingletonCoerce {
            inner: Box::new(expr_tree(*inner)),
            variant: variant@,
            field: field@,
            ty: ty@,
            span: span@,
        },
        TypedExpr::Match(m) => ExprT::Match {
            scrutinee: Box::new(expr_tree(*m.scrutinee)),
            arms: arm_trees(m.arms@),
            ty: m.expr_type@,
            span: m.span@,
        },
        TypedExpr::If { condition, then_branch, else_branch, ty, span } => ExprT::If {
            condition: Box::new(expr_tree(*condition)),
            taken: block_tree(then_branch),
            other: match else_branch {
                Some(b) => Some(block_tree(b)),
                None => None,
            },
            ty: ty@,
            span: span@,
        },
        TypedExpr::Loop { body, ty, span } => ExprT::Loop {
            body: block_tree(body),
            ty: ty@,
            span: span@,
        },
        TypedExpr::Closure { params, return_type, body, ty, span } => ExprT::Closure {
            params: *params,
            return_type: *return_type,
            body: block_tree(body),
            ty: ty@,
            span: span@,
        },
        TypedExpr::GenericClosure { name, params, return_type, body, ty, span } => {
            ExprT::GenericClosure {
                name: opt_text(name),
                params: *params,
                return_type: *return_type,
                source: *body.source,
                ty: ty@,
                span: span@,
            }
        },
        TypedExpr::Return(r) => ExprT::Return(
            match r.value {
                Some(v) => Some(Box::new(expr_tree(*v))),
                None => None,
            },
            r.span@,
        ),
        TypedExpr::Break(b) => ExprT::Break(
            match b.value {
                Some(v) => Some(Box::new(expr_tree(*v))),
                None => None,
            },
            b.span@,
        ),
        TypedExpr::Continue(span) => ExprT::Continue(span@),
    }
}

/// The trees of expressions.
pub open spec fn expr_trees(s: Seq<TypedExpr>) -> Seq<ExprT>
    decreases s,
{
    Seq::new(s.len(), |i: int| if 0 <= i < s.len() { expr_tree(s[i]) } else { arbitrary() })
}

/// The trees of named expressions.
pub open spec fn field_trees(s: Seq<(String, TypedExpr)>) -> Seq<(Seq<char>, ExprT)>
    decreases s,
{
    Seq::new(
        s.len(),
        |i: int| if 0 <= i < s.len() { (s[i].0@, expr_tree(s[i].1)) } else { arbitrary() },
    )
}

/// The tree of an assignment target.
pub open spec fn place_tree(p: TypedPlace) -> PlaceT
    decreases p,
{
    match p {
        TypedPlace::Ident(name, span) => PlaceT::Ident(name@, span@),
        TypedPlace::Field { object, field, span } => PlaceT::Field {
            object: Box::new(place_tree(*object)),
            field: field@,
            span: span@,
        },
        TypedPlace::Tuple { object, index, span } => PlaceT::Tuple {
            object: Box::new(place_tree(*object)),
            index,
            span: span@,
        },
        TypedPlace::Index { object, index, span } => PlaceT::Index {
            object: Box::new(place_tree(*object)),
            index: Box::new(expr_tree(*index)),
            span: span@,
        },
        TypedPlace::Deref { object, span } => PlaceT::Deref {
            object: Box::new(expr_tree(*object)),
            span: span@,
        },
    }
}

/// The tree of a match arm.
pub open spec fn arm_tree(a: TypedMatchArm) -> ArmT
    decreases a,
{
    ArmT {
        pattern: pattern_view(a.pattern),
        guard: match a.guard {
            Some(g) => Some(expr_tree(g)),
            None => None,
        },
        body: block_tree(a.body),
        span: a.span@,
    }
}

/// The trees of match arms.
pub open spec fn arm_trees(s: Seq<TypedMatchArm>) -> Seq<ArmT>
    decreases s,
{
    Seq::new(s.len(), |i: int| if 0 <= i < s.len() { arm_tree(s[i]) } else { arbitrary() })
}

/// The tree of a block.
pub open spec fn block_tree(b: TypedBlock) -> BlockT
    decreases b,
{
    BlockT {
        stmts: decl_trees(b.stmts@),
        tail: match b.tail {
            Some(e) => Some(Box::new(expr_tree(*e))),
            None => None,
        },
        span: b.span@,
    }
}

/// The trees of declarations.
pub open spec fn decl_trees(s: Seq<TypedDecl>) -> Seq<DeclT>
    decreases s,
{
    Seq::new(s.len(), |i: int| if 0 <= i < s.len() { decl_tree(s[i]) } else { arbitrary() })
}

/// The tree of a declaration.
pub open spec fn decl_tree(d: TypedDecl) -> DeclT
    decreases d,
{
    match d {
        TypedDecl::Let(x) => DeclT::Let(
            BindingT {
                name: x.name@,
                type_ann: *x.type_ann,
                value: expr_tree(x.value),
                def_id: x.def_id,
                span: x.span@,
            },
        ),
        TypedDecl::Mut(x) => DeclT::Mut(
            BindingT {
                name: x.name@,
                type_ann: *x.type_ann,
                value: expr_tree(x.value),
                def_id: x.def_id,
                span: x.span@,
            },
        ),
        TypedDecl::Fun(f) => DeclT::Fun(fun_tree(f)),
        TypedDecl::Struct(x) => DeclT::Struct {
            name: x.name@,
            generics: *x.generics,
            fields: *x.fields,
            span: x.span@,
        },
        TypedDecl::Enum(x) => DeclT::Enum {
            name: x.name@,
            generics: *x.generics,
            variants: *x.variants,
            span: x.span@,
        },
        TypedDecl::Impl(x) => DeclT::Impl {
            polarity: x.polarity,
            generics: *x.generics,
            aspect_name: *x.aspect_name,
            aspect_id: x.aspect_id,
            target_type_id: x.target_type_id,
            aspect_type_args: *x.aspect_type_args,
            target_type: *x.target_type,
            methods: fun_trees(x.methods@),
            span: x.span@,
        },
        TypedDecl::Aspect(x) => DeclT::Aspect {
            name: x.name@,
            generics: *x.generics,
            methods: *x.methods,
            span: x.span@,
        },
        TypedDecl::Stmt(s) => DeclT::Stmt(Box::new(stmt_tree(*s))),
    }
}

/// The tree of a function.
pub open spec fn fun_tree(f: TypedFunDecl) -> FunT
    decreases f,
{
    FunT {
        name: f.name@,
        generics: *f.generics,
        params: *f.params,
        return_type: *f.return_type,
        body: match f.body {
            FunBody::Typed(b) => BodyT::Typed(block_tree(b)),
            FunBody::Generic(g) => BodyT::Generic { source: *g.source },
            FunBody::Native(key) => BodyT::Native(key),
        },
        symbol_id: f.symbol_id,
        def_id: f.def_id,
        span: f.span@,
    }
}

/// The trees of functions.
pub open spec fn fun_trees(s: Seq<TypedFunDecl>) -> Seq<FunT>
    decreases s,
{
    Seq::new(s.len(), |i: int| if 0 <= i < s.len() { fun_tree(s[i]) } else { arbitrary() })
}

/// The tree of a statement.
pub open spec fn stmt_tree(s: TypedStmt) -> StmtT
    decreases s,
{
    match s {
        TypedStmt::Expr(e) => StmtT::Expr(expr_tree(e)),
        TypedStmt::While(x) => StmtT::While {
            condition: expr_tree(x.condition),
            body: block_tree(x.body),
            span: x.span@,
        },
        TypedStmt::For(x) => StmtT::For {
            init: match x.init {
                Some(i) => Some(init_tree(i)),
                None => None,
            },
            condition: match x.condition {
                Some(e) => Some(expr_tree(e)),
                None => None,
            },
            step: match x.step {
                Some(e) => Some(expr_tree(e)),
                None => None,
            },
            body: block_tree(x.body),
            span: x.span@,
        },
        TypedStmt::ForIn(x) => StmtT::ForIn {
            binding: x.binding@,
            mutable: x.mutable,
            iterable: expr_tree(x.iterable),
            body: block_tree(x.body),
            span: x.span@,
        },
    }
}

/// The tree of what a counted loop starts with.
pub open spec fn init_tree(i: TypedForInit) -> InitT
    decreases i,
{
    match i {
        TypedForInit::Let(x) => InitT::Let(
            BindingT {
                name: x.name@,
                type_ann: *x.type_ann,
                value: expr_tree(x.value),
                def_id: x.def_id,
                span: x.span@,
            },
        ),
        TypedForInit::Mut(x) => InitT::Mut(
            BindingT {
                name: x.name@,
                type_ann: *x.type_ann,
                value: expr_tree(x.value),
                def_id: x.def_id,
                span: x.span@,
            },
        ),
        TypedForInit::Expr(e) => InitT::Expr(expr_tree(e)),
    }
}

/// The type of an expression.
pub open spec fn tree_ty(e: ExprT) -> TypeV {
    match e {
        ExprT::Literal(_, ty, _) => ty,
        ExprT::Ident(_, ty, _) => ty,
        ExprT::Path(_, ty, _) => ty,
        ExprT::Tuple(_, ty, _) => ty,
        ExprT::Array(_, ty, _) => ty,
        ExprT::RepeatArray(_, _, ty, _) => ty,
        ExprT::RecordLiteral { ty, .. } => ty,
        ExprT::StructLiteral { ty, .. } => ty,
        ExprT::BinOp(_, _, _, ty, _) => ty,
        ExprT::UnaryOp(_, _, ty, _) => ty,
        ExprT::RefTemp { ty, .. } => ty,
        ExprT::Assign { ty, .. } => ty,
        ExprT::Call { ty, .. } => ty,
        ExprT::MethodCall { ty, .. } => ty,
        ExprT::FieldAccess { ty, .. } => ty,
        ExprT::TupleAccess { ty, .. } => ty,
        ExprT::Index { ty, .. } => ty,
        ExprT::Cast { ty, .. } => ty,
        ExprT::SingletonCoerce { ty, .. } => ty,
        ExprT::Match { ty, .. } => ty,
        ExprT::If { ty, .. } => ty,
        ExprT::Loop { ty, .. } => ty,
        ExprT::Closure { ty, .. } => ty,
        ExprT::GenericClosure { ty, .. } => ty,
        ExprT::Return(_, _) => TypeV::Never,
        ExprT::Break(_, _) => TypeV::Never,
        ExprT::Continue(_) => TypeV::Never,
    }
}

/// Where an expression stands in the source.
pub open spec fn tree_span(e: ExprT) -> SpanV {
    match e {
        ExprT::Literal(_, _, span) => span,
        ExprT::Ident(_, _, span) => span,
        ExprT::Path(_, _, span) => span,
        ExprT::Tuple(_, _, span) => span,
        ExprT::Array(_, _, span) => span,
        ExprT::RepeatArray(_, _, _, span) => span,
        ExprT::RecordLiteral { span, .. } => span,
        ExprT::StructLiteral { span, .. } => span,
        ExprT::BinOp(_, _, _, _, span) => span,
        ExprT::UnaryOp(_, _, _, span) => span,
        ExprT::RefTemp { span, .. } => span,
        ExprT::Assign { span, .. } => span,
        ExprT::Call { span, .. } => span,
        ExprT::MethodCall { span, .. } => span,
        ExprT::FieldAccess { span, .. } => span,
        ExprT::TupleAccess { span, .. } => span,
        ExprT::Index { span, .. } => span,
        ExprT::Cast { span, .. } => span,
        ExprT::SingletonCoerce { span, .. } => span,
        ExprT::Match { span, .. } => span,
        ExprT::If { span, .. } => span,
        ExprT::Loop { span, .. } => span,
        ExprT::Closure { span, .. } => span,
        ExprT::GenericClosure { span, .. } => span,
        ExprT::Return(_, span) => span,
        ExprT::Break(_, span) => span,
        ExprT::Continue(span) => span,
    }
}

/// An elaborated expression, or what went wrong, as a mathematical object.
pub open spec fn expr_result(r: Result<TypedExpr, MetelError>) -> Result<ExprT, MetelErrorV> {
    match r {
        Ok(e) => Ok(expr_tree(e)),
        Err(e) => Err(e@),
    }
}

/// Elaborated expressions, or what went wrong, as a mathematical object.
pub open spec fn exprs_result(r: Result<Vec<TypedExpr>, MetelError>) -> Result<
    Seq<ExprT>,
    MetelErrorV,
> {
    match r {
        Ok(v) => Ok(expr_trees(v@)),
        Err(e) => Err(e@),
    }
}

/// A type, or what went wrong, as a mathematical object.
pub open spec fn type_result(r: Result<Type, MetelError>) -> Result<TypeV, MetelErrorV> {
    match r {
        Ok(t) => Ok(t@),
        Err(e) => Err(e@),
    }
}

/// Types, or what went wrong, as a mathematical object.
pub open spec fn types_result(r: Result<Vec<Type>, MetelError>) -> Result<Seq<TypeV>, MetelErrorV> {
    match r {
        Ok(v) => Ok(types_view(v@)),
        Err(e) => Err(e@),
    }
}

/// The types of expressions.
pub open spec fn tree_types(s: Seq<ExprT>) -> Seq<TypeV> {
    Seq::new(s.len(), |i: int| tree_ty(s[i]))
}

/// The type and the place of an expression are those of its tree.
pub broadcast proof fn lemma_tree_ty(e: TypedExpr)
    ensures
        #![trigger expr_tree(e)]
        tree_ty(expr_tree(e)) == ty_of(e)@,
        tree_span(expr_tree(e)) == span_of(e)@,
{
}

} // verus!
