//! The typed syntax tree: what the type checker makes of a module.
use vstd::prelude::*;
use crate::elaborate::state::SchemeEntry;
use crate::registry::TypeDefinitionRegistry;
use crate::ast::{AspectMethod, AssignOp, BinOp, Block, FieldDecl, GenericParam, Literal, Param};
use crate::ast::{Pattern, Polarity, SymbolId, TypeExpr, UnaryOp, VariantDecl};
use crate::infer::TypeVar;
use crate::native_keys::NativeKey;
use crate::span::Span;
use crate::types::Type;

verus! {

/// How a method call finds its method at run time.
#[derive(Debug, Clone, Copy, PartialEq, Eq, Structural)]
pub enum MethodDispatch {
    /// By the value of the receiver.
    Dynamic,
    /// Through the impl of one aspect.
    Aspect { aspect_id: SymbolId },
}

/// The stand-in type name for one type parameter of a generic body.
#[derive(Debug, PartialEq, Eq)]
pub struct Placeholder {
    pub name: String,
    pub var: TypeVar,
}

/// The aspects that a type parameter is assumed to satisfy.
#[derive(Debug, PartialEq, Eq)]
pub struct Assumption {
    pub var: TypeVar,
    pub aspects: Vec<String>,
}

/// The aspects that a symbolic type is assumed to satisfy.
#[derive(Debug, PartialEq, Eq)]
pub struct SymbolicAspects {
    pub name: String,
    pub aspects: Vec<String>,
}

/// What is known of the type parameters inside a generic body.
#[derive(Debug, PartialEq, Eq)]
pub struct GenericMoveEnv {
    pub placeholders: Vec<Placeholder>,
    pub assumptions: Vec<Assumption>,
    pub symbolic_aspects: Vec<SymbolicAspects>,
    pub arg_types: Vec<Type>,
}

/// A generic body: its source, and its typed form for symbolic type arguments once it has one.
#[derive(Debug, PartialEq, Eq)]
pub struct GenericBody<'a> {
    pub source: &'a Block,
    pub symbolic: Option<Box<SymbolicBody<'a>>>,
}

/// The outcome of typing a generic body for symbolic type arguments.
#[derive(Debug, PartialEq, Eq)]
#[allow(inconsistent_fields)]
pub enum SymbolicBody<'a> {
    Elaborated { body: TypedBlock<'a>, env: GenericMoveEnv },
    Unavailable { reason: String },
}

/// The body of a typed function.
#[derive(Debug, PartialEq, Eq)]
pub enum FunBody<'a> {
    Typed(TypedBlock<'a>),
    Generic(GenericBody<'a>),
    Native(NativeKey),
}

/// A typed function or method.
#[derive(Debug, PartialEq, Eq)]
pub struct TypedFunDecl<'a> {
    pub name: String,
    pub generics: &'a Vec<GenericParam>,
    pub params: &'a Vec<Param>,
    pub return_type: &'a Option<TypeExpr>,
    pub body: FunBody<'a>,
    pub symbol_id: Option<SymbolId>,
    pub def_id: Option<SymbolId>,
    pub span: Span,
}

/// A typed `let`.
#[derive(Debug, PartialEq, Eq)]
pub struct TypedLetDecl<'a> {
    pub name: String,
    pub type_ann: &'a Option<TypeExpr>,
    pub value: TypedExpr<'a>,
    pub def_id: Option<SymbolId>,
    pub span: Span,
}

/// A typed `var`.
#[derive(Debug, PartialEq, Eq)]
pub struct TypedMutDecl<'a> {
    pub name: String,
    pub type_ann: &'a Option<TypeExpr>,
    pub value: TypedExpr<'a>,
    pub def_id: Option<SymbolId>,
    pub span: Span,
}

/// A typed struct declaration.
#[derive(Debug, PartialEq, Eq)]
pub struct TypedStructDecl<'a> {
    pub name: String,
    pub generics: &'a Vec<GenericParam>,
    pub fields: &'a Vec<FieldDecl>,
    pub span: Span,
}

/// A typed enum declaration.
#[derive(Debug, PartialEq, Eq)]
pub struct TypedEnumDecl<'a> {
    pub name: String,
    pub generics: &'a Vec<GenericParam>,
    pub variants: &'a Vec<VariantDecl>,
    pub span: Span,
}

/// A typed aspect declaration.
#[derive(Debug, PartialEq, Eq)]
pub struct TypedAspectDecl<'a> {
    pub name: String,
    pub generics: &'a Vec<GenericParam>,
    pub methods: &'a Vec<AspectMethod>,
    pub span: Span,
}

/// A typed impl block.
#[derive(Debug, PartialEq, Eq)]
pub struct TypedImplBlock<'a> {
    pub polarity: Polarity,
    pub generics: &'a Vec<GenericParam>,
    pub aspect_name: &'a Option<String>,
    pub aspect_id: Option<SymbolId>,
    pub target_type_id: Option<SymbolId>,
    pub aspect_type_args: &'a Vec<TypeExpr>,
    pub target_type: &'a TypeExpr,
    pub methods: Vec<TypedFunDecl<'a>>,
    pub span: Span,
}

/// A typed declaration.
#[derive(Debug, PartialEq, Eq)]
pub enum TypedDecl<'a> {
    Let(TypedLetDecl<'a>),
    Mut(TypedMutDecl<'a>),
    Fun(TypedFunDecl<'a>),
    Struct(TypedStructDecl<'a>),
    Enum(TypedEnumDecl<'a>),
    Impl(TypedImplBlock<'a>),
    Aspect(TypedAspectDecl<'a>),
    Stmt(Box<TypedStmt<'a>>),
}

/// A typed block.
#[derive(Debug, PartialEq, Eq)]
pub struct TypedBlock<'a> {
    pub stmts: Vec<TypedDecl<'a>>,
    pub tail: Option<Box<TypedExpr<'a>>>,
    pub span: Span,
}

/// A typed `while`.
#[derive(Debug, PartialEq, Eq)]
pub struct TypedWhileStmt<'a> {
    pub condition: TypedExpr<'a>,
    pub body: TypedBlock<'a>,
    pub span: Span,
}

/// What a typed counted loop starts with.
#[derive(Debug, PartialEq, Eq)]
pub enum TypedForInit<'a> {
    Let(TypedLetDecl<'a>),
    Mut(TypedMutDecl<'a>),
    Expr(TypedExpr<'a>),
}

/// A typed counted loop.
#[derive(Debug, PartialEq, Eq)]
pub struct TypedForStmt<'a> {
    pub init: Option<TypedForInit<'a>>,
    pub condition: Option<TypedExpr<'a>>,
    pub step: Option<TypedExpr<'a>>,
    pub body: TypedBlock<'a>,
    pub span: Span,
}

/// A typed loop over an iterable.
#[derive(Debug, PartialEq, Eq)]
pub struct TypedForInStmt<'a> {
    pub binding: String,
    pub mutable: bool,
    pub iterable: TypedExpr<'a>,
    pub body: TypedBlock<'a>,
    pub span: Span,
}

/// A typed statement.
#[derive(Debug, PartialEq, Eq)]
pub enum TypedStmt<'a> {
    Expr(TypedExpr<'a>),
    While(TypedWhileStmt<'a>),
    For(Box<TypedForStmt<'a>>),
    ForIn(Box<TypedForInStmt<'a>>),
}

/// A typed assignment target.
#[derive(Debug, PartialEq, Eq)]
#[allow(inconsistent_fields)]
pub enum TypedPlace<'a> {
    Ident(String, Span),
    Field { object: Box<TypedPlace<'a>>, field: String, span: Span },
    Tuple { object: Box<TypedPlace<'a>>, index: usize, span: Span },
    Index { object: Box<TypedPlace<'a>>, index: Box<TypedExpr<'a>>, span: Span },
    Deref { object: Box<TypedExpr<'a>>, span: Span },
}

/// A typed match arm.
#[derive(Debug, PartialEq, Eq)]
pub struct TypedMatchArm<'a> {
    pub pattern: Pattern,
    pub guard: Option<TypedExpr<'a>>,
    pub body: TypedBlock<'a>,
    pub span: Span,
}

/// A typed match.
#[derive(Debug, PartialEq, Eq)]
pub struct TypedMatchExpr<'a> {
    pub scrutinee: Box<TypedExpr<'a>>,
    pub arms: Vec<TypedMatchArm<'a>>,
    pub expr_type: Type,
    pub span: Span,
}

/// A typed `return`.
#[derive(Debug, PartialEq, Eq)]
pub struct TypedReturnExpr<'a> {
    pub value: Option<Box<TypedExpr<'a>>>,
    pub span: Span,
}

/// A typed `break`.
#[derive(Debug, PartialEq, Eq)]
pub struct TypedBreakExpr<'a> {
    pub value: Option<Box<TypedExpr<'a>>>,
    pub span: Span,
}

/// A typed expression: every node carries the type of its value.
#[derive(Debug, PartialEq, Eq)]
#[allow(inconsistent_fields)]
pub enum TypedExpr<'a> {
    Literal(Literal, Type, Span),
    Ident(String, Type, Span),
    Path(Vec<String>, Type, Span),
    Tuple(Vec<TypedExpr<'a>>, Type, Span),
    Array(Vec<TypedExpr<'a>>, Type, Span),
    RepeatArray(Box<TypedExpr<'a>>, u64, Type, Span),
    RecordLiteral { fields: Vec<(String, TypedExpr<'a>)>, ty: Type, span: Span },
    StructLiteral {
        path: Vec<String>,
        fields: Vec<(String, TypedExpr<'a>)>,
        ty: Type,
        type_id: Option<SymbolId>,
        span: Span,
    },
    BinOp(Box<TypedExpr<'a>>, BinOp, Box<TypedExpr<'a>>, Type, Span),
    UnaryOp(UnaryOp, Box<TypedExpr<'a>>, Type, Span),
    /// A reference to a fresh cell that holds the value of `init`.
    RefTemp { init: Box<TypedExpr<'a>>, mutable: bool, ty: Type, span: Span },
    Assign { target: TypedPlace<'a>, op: AssignOp, value: Box<TypedExpr<'a>>, ty: Type, span: Span },
    Call {
        callee: Box<TypedExpr<'a>>,
        args: Vec<TypedExpr<'a>>,
        ty: Type,
        callee_id: Option<SymbolId>,
        span: Span,
    },
    MethodCall {
        receiver: Box<TypedExpr<'a>>,
        method: String,
        args: Vec<TypedExpr<'a>>,
        ty: Type,
        dispatch: MethodDispatch,
        span: Span,
    },
    FieldAccess { object: Box<TypedExpr<'a>>, field: String, ty: Type, span: Span },
    TupleAccess { object: Box<TypedExpr<'a>>, index: usize, ty: Type, span: Span },
    Index { object: Box<TypedExpr<'a>>, index: Box<TypedExpr<'a>>, ty: Type, span: Span },
    Cast { expr: Box<TypedExpr<'a>>, target_type: TypeExpr, ty: Type, span: Span },
    /// The payload of the only inhabited variant of an enum.
    SingletonCoerce { inner: Box<TypedExpr<'a>>, variant: String, field: String, ty: Type, span: Span },
    Match(TypedMatchExpr<'a>),
    If {
        condition: Box<TypedExpr<'a>>,
        then_branch: TypedBlock<'a>,
        else_branch: Option<TypedBlock<'a>>,
        ty: Type,
        span: Span,
    },
    Loop { body: TypedBlock<'a>, ty: Type, span: Span },
    Closure {
        params: &'a Vec<Param>,
        return_type: &'a Option<TypeExpr>,
        body: TypedBlock<'a>,
        ty: Type,
        span: Span,
    },
    /// A closure whose body is typed anew for each use.
    GenericClosure {
        name: Option<String>,
        params: &'a Vec<Param>,
        return_type: &'a Option<TypeExpr>,
        body: GenericBody<'a>,
        ty: Type,
        span: Span,
    },
    Return(TypedReturnExpr<'a>),
    Break(TypedBreakExpr<'a>),
    Continue(Span),
}
/// The type of an expression's value.
pub open spec fn ty_of(e: TypedExpr) -> Type {
    match e {
        TypedExpr::Literal(_, ty, _) => ty,
        TypedExpr::Ident(_, ty, _) => ty,
        TypedExpr::Path(_, ty, _) => ty,
        TypedExpr::Tuple(_, ty, _) => ty,
        TypedExpr::Array(_, ty, _) => ty,
        TypedExpr::RepeatArray(_, _, ty, _) => ty,
        TypedExpr::RecordLiteral { ty, .. } => ty,
        TypedExpr::StructLiteral { ty, .. } => ty,
        TypedExpr::BinOp(_, _, _, ty, _) => ty,
        TypedExpr::UnaryOp(_, _, ty, _) => ty,
        TypedExpr::RefTemp { ty, .. } => ty,
        TypedExpr::Assign { ty, .. } => ty,
        TypedExpr::Call { ty, .. } => ty,
        TypedExpr::MethodCall { ty, .. } => ty,
        TypedExpr::FieldAccess { ty, .. } => ty,
        TypedExpr::TupleAccess { ty, .. } => ty,
        TypedExpr::Index { ty, .. } => ty,
        TypedExpr::Cast { ty, .. } => ty,
        TypedExpr::SingletonCoerce { ty, .. } => ty,
        TypedExpr::Match(m) => m.expr_type,
        TypedExpr::If { ty, .. } => ty,
        TypedExpr::Loop { ty, .. } => ty,
        TypedExpr::Closure { ty, .. } => ty,
        TypedExpr::GenericClosure { ty, .. } => ty,
        TypedExpr::Return(_) => Type::Never,
        TypedExpr::Break(_) => Type::Never,
        TypedExpr::Continue(_) => Type::Never,
    }
}

/// Where an expression stands in the source.
pub open spec fn span_of(e: TypedExpr) -> Span {
    match e {
        TypedExpr::Literal(_, _, span) => span,
        TypedExpr::Ident(_, _, span) => span,
        TypedExpr::Path(_, _, span) => span,
        TypedExpr::Tuple(_, _, span) => span,
        TypedExpr::Array(_, _, span) => span,
        TypedExpr::RepeatArray(_, _, _, span) => span,
        TypedExpr::RecordLiteral { span, .. } => span,
        TypedExpr::StructLiteral { span, .. } => span,
        TypedExpr::BinOp(_, _, _, _, span) => span,
        TypedExpr::UnaryOp(_, _, _, span) => span,
        TypedExpr::RefTemp { span, .. } => span,
        TypedExpr::Assign { span, .. } => span,
        TypedExpr::Call { span, .. } => span,
        TypedExpr::MethodCall { span, .. } => span,
        TypedExpr::FieldAccess { span, .. } => span,
        TypedExpr::TupleAccess { span, .. } => span,
        TypedExpr::Index { span, .. } => span,
        TypedExpr::Cast { span, .. } => span,
        TypedExpr::SingletonCoerce { span, .. } => span,
        TypedExpr::Match(m) => m.span,
        TypedExpr::If { span, .. } => span,
        TypedExpr::Loop { span, .. } => span,
        TypedExpr::Closure { span, .. } => span,
        TypedExpr::GenericClosure { span, .. } => span,
        TypedExpr::Return(r) => r.span,
        TypedExpr::Break(b) => b.span,
        TypedExpr::Continue(span) => span,
    }
}

/// The type `!`, for expressions that leave their place without a value.
const NEVER: Type = Type::Never;

impl<'a> TypedExpr<'a> {
    /// The type of the expression's value. `return`, `break` and `continue` have none: their type
    /// is `!`.
    pub fn ty(&self) -> (r: &Type)
        ensures
            *r == ty_of(*self),
    {
        match self {
            TypedExpr::Literal(_, ty, _) => ty,
            TypedExpr::Ident(_, ty, _) => ty,
            TypedExpr::Path(_, ty, _) => ty,
            TypedExpr::Tuple(_, ty, _) => ty,
            TypedExpr::Array(_, ty, _) => ty,
            TypedExpr::RepeatArray(_, _, ty, _) => ty,
            TypedExpr::RecordLiteral { ty, .. } => ty,
            TypedExpr::StructLiteral { ty, .. } => ty,
            TypedExpr::BinOp(_, _, _, ty, _) => ty,
            TypedExpr::UnaryOp(_, _, ty, _) => ty,
            TypedExpr::RefTemp { ty, .. } => ty,
            TypedExpr::Assign { ty, .. } => ty,
            TypedExpr::Call { ty, .. } => ty,
            TypedExpr::MethodCall { ty, .. } => ty,
            TypedExpr::FieldAccess { ty, .. } => ty,
            TypedExpr::TupleAccess { ty, .. } => ty,
            TypedExpr::Index { ty, .. } => ty,
            TypedExpr::Cast { ty, .. } => ty,
            TypedExpr::SingletonCoerce { ty, .. } => ty,
            TypedExpr::Match(m) => &m.expr_type,
            TypedExpr::If { ty, .. } => ty,
            TypedExpr::Loop { ty, .. } => ty,
            TypedExpr::Closure { ty, .. } => ty,
            TypedExpr::GenericClosure { ty, .. } => ty,
            TypedExpr::Return(_) => &NEVER,
            TypedExpr::Break(_) => &NEVER,
            TypedExpr::Continue(_) => &NEVER,
        }
    }

    /// Where the expression stands in the source.
    pub fn span(&self) -> (r: &Span)
        ensures
            *r == span_of(*self),
    {
        match self {
            TypedExpr::Literal(_, _, span) => span,
            TypedExpr::Ident(_, _, span) => span,
            TypedExpr::Path(_, _, span) => span,
            TypedExpr::Tuple(_, _, span) => span,
            TypedExpr::Array(_, _, span) => span,
            TypedExpr::RepeatArray(_, _, _, span) => span,
            TypedExpr::RecordLiteral { span, .. } => span,
            TypedExpr::StructLiteral { span, .. } => span,
            TypedExpr::BinOp(_, _, _, _, span) => span,
            TypedExpr::UnaryOp(_, _, _, span) => span,
            TypedExpr::RefTemp { span, .. } => span,
            TypedExpr::Assign { span, .. } => span,
            TypedExpr::Call { span, .. } => span,
            TypedExpr::MethodCall { span, .. } => span,
            TypedExpr::FieldAccess { span, .. } => span,
            TypedExpr::TupleAccess { span, .. } => span,
            TypedExpr::Index { span, .. } => span,
            TypedExpr::Cast { span, .. } => span,
            TypedExpr::SingletonCoerce { span, .. } => span,
            TypedExpr::Match(m) => &m.span,
            TypedExpr::If { span, .. } => span,
            TypedExpr::Loop { span, .. } => span,
            TypedExpr::Closure { span, .. } => span,
            TypedExpr::GenericClosure { span, .. } => span,
            TypedExpr::Return(r) => &r.span,
            TypedExpr::Break(b) => &b.span,
            TypedExpr::Continue(span) => span,
        }
    }
}


/// A typechecked module.
pub struct TypedModule<'a> {
    pub path: Vec<String>,
    pub decls: Vec<TypedDecl<'a>>,
    /// The schemes of the names that the module knows.
    pub schemes: &'a Vec<SchemeEntry>,
}

/// The typechecked modules of a program, with the definitions they share.
pub struct TypedModuleGraph<'a> {
    pub modules: Vec<TypedModule<'a>>,
    pub type_registry: &'a TypeDefinitionRegistry,
}

} // verus!
