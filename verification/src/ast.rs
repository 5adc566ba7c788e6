//! The syntax tree of a module, as the parser hands it over.
use vstd::prelude::*;
use crate::span::Span;
use crate::text::{copy_texts, same_texts, texts};

verus! {

/// A stable identity of a declaration.
#[derive(Debug, Clone, Copy, PartialEq, Eq, Hash, Structural)]
pub struct SymbolId(pub u32);

/// Whether a bound or an impl asserts an aspect or denies it.
#[derive(Debug, Clone, Copy, PartialEq, Eq, Structural)]
pub enum Polarity {
    Positive,
    Negative,
}

/// How a method takes its receiver.
#[derive(Debug, Clone, Copy, PartialEq, Eq, Structural)]
pub enum ReceiverKind {
    Value,
    Ref,
    RefMut,
}

/// A binary operator.
#[derive(Debug, Clone, Copy, PartialEq, Eq, Structural)]
pub enum BinOp {
    Add,
    Sub,
    Mul,
    Div,
    Rem,
    Lt,
    Le,
    Gt,
    Ge,
    Eq,
    Ne,
    And,
    Or,
    Range,
    RangeInclusive,
}

/// A unary operator.
#[derive(Debug, Clone, Copy, PartialEq, Eq, Structural)]
pub enum UnaryOp {
    Neg,
    Not,
    Ref,
    RefMut,
    Deref,
}

/// An assignment operator.
#[derive(Debug, Clone, Copy, PartialEq, Eq, Structural)]
pub enum AssignOp {
    Assign,
    AddAssign,
    SubAssign,
    MulAssign,
    DivAssign,
    RemAssign,
}

/// The width and sign of a suffixed integer literal.
#[derive(Debug, Clone, Copy, PartialEq, Eq, Structural)]
pub enum IntKind {
    I8,
    I16,
    I32,
    I64,
    U8,
    U16,
    U32,
    U64,
}

/// The width of a suffixed float literal.
#[derive(Debug, Clone, Copy, PartialEq, Eq, Structural)]
pub enum FloatKind {
    F32,
    F64,
}

/// A literal. A float is kept as the bits of its value.
#[derive(Debug, PartialEq, Eq)]
#[allow(inconsistent_fields)]
pub enum Literal {
    Int(i64),
    Float(u64),
    SizedInt { value: i128, kind: IntKind },
    SizedFloat { bits: u64, kind: FloatKind },
    Char(char),
    Boolean(bool),
    Str(String),
    Unit,
}

/// The value of a [`Literal`] as a mathematical object.
#[allow(inconsistent_fields)]
pub ghost enum LiteralV {
    Int(i64),
    Float(u64),
    SizedInt { value: i128, kind: IntKind },
    SizedFloat { bits: u64, kind: FloatKind },
    Char(char),
    Boolean(bool),
    Str(Seq<char>),
    Unit,
}

/// A type as written in source.
#[derive(Debug, PartialEq, Eq)]
#[allow(inconsistent_fields)]
pub enum TypeExpr {
    Named(String, Vec<TypeExpr>),
    Unit,
    Tuple(Vec<TypeExpr>),
    Record(Vec<(String, TypeExpr)>),
    Array(Box<TypeExpr>),
    SizedArray(Box<TypeExpr>, u64),
    Reference(Box<TypeExpr>),
    MutReference(Box<TypeExpr>),
    Fun(Vec<TypeExpr>, Option<Box<TypeExpr>>),
    /// `impl Aspect`.
    ImplAspect { bound: Box<TypeExpr> },
    /// `dyn Aspect`.
    DynAspect { bound: Box<TypeExpr> },
    /// `T::Assoc`.
    Projection { base: Box<TypeExpr>, assoc: String },
    /// `Self.{ field }`.
    RecordProjection { base: String, fields: Vec<String> },
}

/// The value of a [`TypeExpr`] as a mathematical object.
#[allow(inconsistent_fields)]
pub ghost enum TypeExprV {
    Named(Seq<char>, Seq<TypeExprV>),
    Unit,
    Tuple(Seq<TypeExprV>),
    Record(Seq<(Seq<char>, TypeExprV)>),
    Array(Box<TypeExprV>),
    SizedArray(Box<TypeExprV>, u64),
    Reference(Box<TypeExprV>),
    MutReference(Box<TypeExprV>),
    Fun(Seq<TypeExprV>, Option<Box<TypeExprV>>),
    ImplAspect { bound: Box<TypeExprV> },
    DynAspect { bound: Box<TypeExprV> },
    Projection { base: Box<TypeExprV>, assoc: Seq<char> },
    RecordProjection { base: Seq<char>, fields: Seq<Seq<char>> },
}

/// The view of a [`Literal`].
pub open spec fn literal_view(t: Literal) -> LiteralV
    decreases t,
{
    match t {
        Literal::Int(f0) => LiteralV::Int(f0),
        Literal::Float(f0) => LiteralV::Float(f0),
        Literal::SizedInt { value, kind } => LiteralV::SizedInt { value, kind },
        Literal::SizedFloat { bits, kind } => LiteralV::SizedFloat { bits, kind },
        Literal::Char(f0) => LiteralV::Char(f0),
        Literal::Boolean(f0) => LiteralV::Boolean(f0),
        Literal::Str(f0) => LiteralV::Str(f0@),
        Literal::Unit => LiteralV::Unit,
    }
}

/// The view of a [`TypeExpr`].
pub open spec fn type_expr_view(t: TypeExpr) -> TypeExprV
    decreases t,
{
    match t {
        TypeExpr::Named(f0, f1) => TypeExprV::Named(f0@, type_exprs_view(f1@)),
        TypeExpr::Unit => TypeExprV::Unit,
        TypeExpr::Tuple(f0) => TypeExprV::Tuple(type_exprs_view(f0@)),
        TypeExpr::Record(f0) => TypeExprV::Record(named_type_exprs_view(f0@)),
        TypeExpr::Array(f0) => TypeExprV::Array(Box::new(type_expr_view(*f0))),
        TypeExpr::SizedArray(f0, f1) => TypeExprV::SizedArray(Box::new(type_expr_view(*f0)), f1),
        TypeExpr::Reference(f0) => TypeExprV::Reference(Box::new(type_expr_view(*f0))),
        TypeExpr::MutReference(f0) => TypeExprV::MutReference(Box::new(type_expr_view(*f0))),
        TypeExpr::Fun(f0, f1) => TypeExprV::Fun(type_exprs_view(f0@), match f1 { Some(x) => Some(Box::new(type_expr_view(*x))), None => None }),
        TypeExpr::ImplAspect { bound } => TypeExprV::ImplAspect { bound: Box::new(type_expr_view(*bound)) },
        TypeExpr::DynAspect { bound } => TypeExprV::DynAspect { bound: Box::new(type_expr_view(*bound)) },
        TypeExpr::Projection { base, assoc } => TypeExprV::Projection { base: Box::new(type_expr_view(*base)), assoc: assoc@ },
        TypeExpr::RecordProjection { base, fields } => TypeExprV::RecordProjection { base: base@, fields: texts(fields@) },
    }
}

/// The views of a sequence of [`TypeExpr`] values.
pub open spec fn type_exprs_view(s: Seq<TypeExpr>) -> Seq<TypeExprV>
    decreases s,
{
    Seq::new(s.len(), |i: int| if 0 <= i < s.len() { type_expr_view(s[i]) } else { arbitrary() })
}

/// The views of a sequence of named [`TypeExpr`] values.
pub open spec fn named_type_exprs_view(s: Seq<(String, TypeExpr)>) -> Seq<(Seq<char>, TypeExprV)>
    decreases s,
{
    Seq::new(s.len(), |i: int| if 0 <= i < s.len() { (s[i].0@, type_expr_view(s[i].1)) } else { arbitrary() })
}

impl View for Literal {
    type V = LiteralV;

    open spec fn view(&self) -> LiteralV {
        literal_view(*self)
    }
}

impl Clone for Literal {
    fn clone(&self) -> (r: Self)
        ensures
            r@ == self@,
    {
        self.copy()
    }
}

impl Literal {
    /// A copy with the same view.
    pub fn copy(&self) -> (r: Self)
        ensures
            r@ == self@,
        decreases *self,
    {
        match self {
            Literal::Int(f0) => Literal::Int(*f0),
            Literal::Float(f0) => Literal::Float(*f0),
            Literal::SizedInt { value, kind } => Literal::SizedInt { value: *value, kind: *kind },
            Literal::SizedFloat { bits, kind } => Literal::SizedFloat { bits: *bits, kind: *kind },
            Literal::Char(f0) => Literal::Char(*f0),
            Literal::Boolean(f0) => Literal::Boolean(*f0),
            Literal::Str(f0) => Literal::Str(f0.clone()),
            Literal::Unit => Literal::Unit,
        }
    }

    /// Whether two values have the same view.
    pub fn same(&self, other: &Self) -> (r: bool)
        ensures
            r == (self@ == other@),
        decreases *self,
    {
        match (self, other) {
            (Literal::Int(a0), Literal::Int(b0)) => *a0 == *b0,
            (Literal::Float(a0), Literal::Float(b0)) => *a0 == *b0,
            (Literal::SizedInt { value: a0, kind: a1 }, Literal::SizedInt { value: b0, kind: b1 }) => *a0 == *b0 && *a1 == *b1,
            (Literal::SizedFloat { bits: a0, kind: a1 }, Literal::SizedFloat { bits: b0, kind: b1 }) => *a0 == *b0 && *a1 == *b1,
            (Literal::Char(a0), Literal::Char(b0)) => *a0 == *b0,
            (Literal::Boolean(a0), Literal::Boolean(b0)) => *a0 == *b0,
            (Literal::Str(a0), Literal::Str(b0)) => *a0 == *b0,
            (Literal::Unit, Literal::Unit) => true,
            _ => false,
        }
    }
}

impl View for TypeExpr {
    type V = TypeExprV;

    open spec fn view(&self) -> TypeExprV {
        type_expr_view(*self)
    }
}

impl Clone for TypeExpr {
    fn clone(&self) -> (r: Self)
        ensures
            r@ == self@,
    {
        self.copy()
    }
}

impl TypeExpr {
    /// A copy with the same view.
    pub fn copy(&self) -> (r: Self)
        ensures
            r@ == self@,
        decreases *self,
    {
        match self {
            TypeExpr::Named(f0, f1) => TypeExpr::Named(f0.clone(), copy_type_exprs(f1)),
            TypeExpr::Unit => TypeExpr::Unit,
            TypeExpr::Tuple(f0) => TypeExpr::Tuple(copy_type_exprs(f0)),
            TypeExpr::Record(f0) => TypeExpr::Record(copy_named_type_exprs(f0)),
            TypeExpr::Array(f0) => TypeExpr::Array(Box::new(f0.copy())),
            TypeExpr::SizedArray(f0, f1) => TypeExpr::SizedArray(Box::new(f0.copy()), *f1),
            TypeExpr::Reference(f0) => TypeExpr::Reference(Box::new(f0.copy())),
            TypeExpr::MutReference(f0) => TypeExpr::MutReference(Box::new(f0.copy())),
            TypeExpr::Fun(f0, f1) => TypeExpr::Fun(copy_type_exprs(f0), match f1 { Some(x) => Some(Box::new(x.copy())), None => None }),
            TypeExpr::ImplAspect { bound } => TypeExpr::ImplAspect { bound: Box::new(bound.copy()) },
            TypeExpr::DynAspect { bound } => TypeExpr::DynAspect { bound: Box::new(bound.copy()) },
            TypeExpr::Projection { base, assoc } => TypeExpr::Projection { base: Box::new(base.copy()), assoc: assoc.clone() },
            TypeExpr::RecordProjection { base, fields } => TypeExpr::RecordProjection { base: base.clone(), fields: copy_texts(fields) },
        }
    }

    /// Whether two values have the same view.
    pub fn same(&self, other: &Self) -> (r: bool)
        ensures
            r == (self@ == other@),
        decreases *self,
    {
        match (self, other) {
            (TypeExpr::Named(a0, a1), TypeExpr::Named(b0, b1)) => *a0 == *b0 && same_type_exprs(a1, b1),
            (TypeExpr::Unit, TypeExpr::Unit) => true,
            (TypeExpr::Tuple(a0), TypeExpr::Tuple(b0)) => same_type_exprs(a0, b0),
            (TypeExpr::Record(a0), TypeExpr::Record(b0)) => same_named_type_exprs(a0, b0),
            (TypeExpr::Array(a0), TypeExpr::Array(b0)) => a0.same(b0),
            (TypeExpr::SizedArray(a0, a1), TypeExpr::SizedArray(b0, b1)) => a0.same(b0) && *a1 == *b1,
            (TypeExpr::Reference(a0), TypeExpr::Reference(b0)) => a0.same(b0),
            (TypeExpr::MutReference(a0), TypeExpr::MutReference(b0)) => a0.same(b0),
            (TypeExpr::Fun(a0, a1), TypeExpr::Fun(b0, b1)) => same_type_exprs(a0, b0) && (match (a1, b1) { (Some(p), Some(q)) => p.same(q), (None, None) => true, _ => false }),
            (TypeExpr::ImplAspect { bound: a0 }, TypeExpr::ImplAspect { bound: b0 }) => a0.same(b0),
            (TypeExpr::DynAspect { bound: a0 }, TypeExpr::DynAspect { bound: b0 }) => a0.same(b0),
            (TypeExpr::Projection { base: a0, assoc: a1 }, TypeExpr::Projection { base: b0, assoc: b1 }) => a0.same(b0) && *a1 == *b1,
            (TypeExpr::RecordProjection { base: a0, fields: a1 }, TypeExpr::RecordProjection { base: b0, fields: b1 }) => *a0 == *b0 && same_texts(a1, b1),
            _ => false,
        }
    }
}

/// A copy of a list of [`TypeExpr`] values.
pub fn copy_type_exprs(v: &Vec<TypeExpr>) -> (r: Vec<TypeExpr>)
    ensures
        type_exprs_view(r@) == type_exprs_view(v@),
    decreases v@,
{
    let mut out: Vec<TypeExpr> = Vec::new();
    let mut i: usize = 0;
    while i < v.len()
        invariant
            i <= v.len(),
            out@.len() == i,
            forall|k: int| 0 <= k < i ==> type_expr_view(#[trigger] out@[k]) == type_expr_view(v@[k]),
        decreases v.len() - i,
    {
        out.push(v[i].copy());
        i += 1;
    }
    assert(type_exprs_view(out@) =~= type_exprs_view(v@));
    out
}

/// Whether two lists of [`TypeExpr`] values have the same views.
pub fn same_type_exprs(a: &Vec<TypeExpr>, b: &Vec<TypeExpr>) -> (r: bool)
    ensures
        r == (type_exprs_view(a@) == type_exprs_view(b@)),
    decreases a@,
{
    if a.len() != b.len() {
        assert(type_exprs_view(a@).len() != type_exprs_view(b@).len());
        return false;
    }
    let mut i: usize = 0;
    while i < a.len()
        invariant
            i <= a.len(),
            a.len() == b.len(),
            forall|k: int| 0 <= k < i ==> type_expr_view(#[trigger] a@[k]) == type_expr_view(b@[k]),
        decreases a.len() - i,
    {
        if !a[i].same(&b[i]) {
            assert(type_exprs_view(a@)[i as int] != type_exprs_view(b@)[i as int]);
            return false;
        }
        i += 1;
    }
    assert(type_exprs_view(a@) =~= type_exprs_view(b@));
    true
}

/// A copy of a list of named [`TypeExpr`] values.
pub fn copy_named_type_exprs(v: &Vec<(String, TypeExpr)>) -> (r: Vec<(String, TypeExpr)>)
    ensures
        named_type_exprs_view(r@) == named_type_exprs_view(v@),
    decreases v@,
{
    let mut out: Vec<(String, TypeExpr)> = Vec::new();
    let mut i: usize = 0;
    while i < v.len()
        invariant
            i <= v.len(),
            out@.len() == i,
            forall|k: int|
                0 <= k < i ==> (#[trigger] out@[k]).0@ == v@[k].0@ && type_expr_view(out@[k].1) == type_expr_view(
                    v@[k].1,
                ),
        decreases v.len() - i,
    {
        out.push((v[i].0.clone(), v[i].1.copy()));
        i += 1;
    }
    assert(named_type_exprs_view(out@) =~= named_type_exprs_view(v@));
    out
}

/// Whether two lists of named [`TypeExpr`] values have the same views.
pub fn same_named_type_exprs(a: &Vec<(String, TypeExpr)>, b: &Vec<(String, TypeExpr)>) -> (r: bool)
    ensures
        r == (named_type_exprs_view(a@) == named_type_exprs_view(b@)),
    decreases a@,
{
    if a.len() != b.len() {
        assert(named_type_exprs_view(a@).len() != named_type_exprs_view(b@).len());
        return false;
    }
    let mut i: usize = 0;
    while i < a.len()
        invariant
            i <= a.len(),
            a.len() == b.len(),
            forall|k: int|
                0 <= k < i ==> (#[trigger] a@[k]).0@ == b@[k].0@ && type_expr_view(a@[k].1) == type_expr_view(
                    b@[k].1,
                ),
        decreases a.len() - i,
    {
        if !(a[i].0 == b[i].0) || !a[i].1.same(&b[i].1) {
            assert(named_type_exprs_view(a@)[i as int] != named_type_exprs_view(b@)[i as int]);
            return false;
        }
        i += 1;
    }
    assert(named_type_exprs_view(a@) =~= named_type_exprs_view(b@));
    true
}
/// A bound on a type parameter: an aspect, or a record of required labels.
#[derive(Debug, PartialEq, Eq)]
pub struct Bound {
    pub aspect: TypeExpr,
    pub polarity: Polarity,
    /// Whether a row bound admits further labels.
    pub open: bool,
}

/// A type parameter of a declaration.
#[derive(Debug, PartialEq, Eq)]
pub struct GenericParam {
    pub name: String,
    pub bounds: Vec<Bound>,
    pub is_record: bool,
    pub span: Span,
}

/// A parameter of a function or closure.
#[derive(Debug, PartialEq, Eq)]
pub struct Param {
    pub name: String,
    pub type_ann: Option<TypeExpr>,
    pub receiver: Option<ReceiverKind>,
    pub span: Span,
}

/// The host binding of a native function.
#[derive(Debug, PartialEq, Eq)]
pub struct NativeBinding {
    pub key_path: Vec<String>,
    pub span: Span,
}

/// The bounds that a `where` clause puts on one type parameter.
#[derive(Debug, PartialEq, Eq)]
pub struct WhereConstraint {
    pub name: String,
    pub bounds: Vec<Bound>,
}

/// A `where` clause.
#[derive(Debug, PartialEq, Eq)]
pub struct WhereClause {
    pub constraints: Vec<WhereConstraint>,
}

/// A field of a struct or of an enum variant.
#[derive(Debug, PartialEq, Eq)]
pub struct FieldDecl {
    pub name: String,
    pub type_ann: TypeExpr,
    pub span: Span,
}

/// A variant of an enum.
#[derive(Debug, PartialEq, Eq)]
pub struct VariantDecl {
    pub name: String,
    pub fields: Vec<FieldDecl>,
    pub span: Span,
}

/// A struct declaration.
#[derive(Debug, PartialEq, Eq)]
pub struct StructDecl {
    pub name: String,
    pub generics: Vec<GenericParam>,
    pub fields: Vec<FieldDecl>,
    pub span: Span,
}

/// An enum declaration.
#[derive(Debug, PartialEq, Eq)]
pub struct EnumDecl {
    pub name: String,
    pub generics: Vec<GenericParam>,
    pub variants: Vec<VariantDecl>,
    pub span: Span,
}

/// An associated type that an aspect declares.
#[derive(Debug, PartialEq, Eq)]
pub struct AssocTypeDecl {
    pub name: String,
    pub bounds: Vec<Bound>,
    pub span: Span,
}

/// An associated type that an impl defines.
#[derive(Debug, PartialEq, Eq)]
pub struct AssocTypeDef {
    pub name: String,
    pub ty: TypeExpr,
    pub span: Span,
}

/// `type Name<G> := T;`.
#[derive(Debug, PartialEq, Eq)]
pub struct TypeAliasDecl {
    pub name: String,
    pub generics: Vec<GenericParam>,
    pub target: TypeExpr,
    pub span: Span,
}

/// A pattern of a match arm.
#[derive(Debug, PartialEq, Eq)]
#[allow(inconsistent_fields)]
pub enum Pattern {
    Wildcard(Span),
    Literal(Literal, Span),
    Binding(String, Span),
    Tuple(Vec<Pattern>, Span),
    EnumVariant { path: Vec<String>, fields: Vec<String>, rest: bool, span: Span },
    Struct { name: String, fields: Vec<String>, rest: bool, span: Span },
    Record { fields: Vec<String>, span: Span },
    Array { elems: Vec<Pattern>, rest: Option<String>, span: Span },
}

/// A method that an aspect declares, with its default body where it has one.
#[derive(Debug, PartialEq, Eq)]
pub struct AspectMethod {
    pub name: String,
    pub generics: Vec<GenericParam>,
    pub params: Vec<Param>,
    pub return_type: Option<TypeExpr>,
    pub default_body: Option<Block>,
    pub span: Span,
}

/// An aspect declaration.
#[derive(Debug, PartialEq, Eq)]
pub struct AspectDecl {
    pub name: String,
    pub generics: Vec<GenericParam>,
    pub assoc_types: Vec<AssocTypeDecl>,
    pub methods: Vec<AspectMethod>,
    pub span: Span,
}

/// A function or method declaration.
#[derive(Debug, PartialEq, Eq)]
pub struct FunDecl {
    pub name: String,
    pub generics: Vec<GenericParam>,
    pub params: Vec<Param>,
    pub return_type: Option<TypeExpr>,
    pub body: Block,
    pub native: Option<NativeBinding>,
    pub span: Span,
}

/// An impl block, of an aspect or inherent.
#[derive(Debug, PartialEq, Eq)]
pub struct ImplBlock {
    pub polarity: Polarity,
    pub generics: Vec<GenericParam>,
    pub aspect_name: Option<String>,
    pub aspect_type_args: Vec<TypeExpr>,
    pub target_type: TypeExpr,
    pub where_clause: Option<WhereClause>,
    pub assoc_type_defs: Vec<AssocTypeDef>,
    pub methods: Vec<FunDecl>,
    pub span: Span,
}

/// `let name: T = value;`.
#[derive(Debug, PartialEq, Eq)]
pub struct LetDecl {
    pub name: String,
    pub type_ann: Option<TypeExpr>,
    pub value: Expr,
    pub span: Span,
}

/// `var name: T = value;`.
#[derive(Debug, PartialEq, Eq)]
pub struct MutDecl {
    pub name: String,
    pub type_ann: Option<TypeExpr>,
    pub value: Expr,
    pub span: Span,
}

/// A declaration, or a statement in declaration position.
#[derive(Debug, PartialEq, Eq)]
pub enum Decl {
    Let(LetDecl),
    Mut(MutDecl),
    Fun(FunDecl),
    Struct(StructDecl),
    Enum(EnumDecl),
    Impl(ImplBlock),
    Aspect(AspectDecl),
    Stmt(Stmt),
    TypeAlias(TypeAliasDecl),
}

/// A block of declarations with an optional tail expression.
#[derive(Debug, PartialEq, Eq)]
pub struct Block {
    pub stmts: Vec<Decl>,
    pub tail: Option<Box<Expr>>,
    pub span: Span,
}

/// `while (condition) body`.
#[derive(Debug, PartialEq, Eq)]
pub struct WhileStmt {
    pub condition: Expr,
    pub body: Block,
    pub span: Span,
}

/// What a counted loop starts with.
#[derive(Debug, PartialEq, Eq)]
pub enum ForInit {
    Let(LetDecl),
    Mut(MutDecl),
    Expr(Expr),
}

/// `for (init; condition; step) body`.
#[derive(Debug, PartialEq, Eq)]
pub struct ForStmt {
    pub init: Option<ForInit>,
    pub condition: Option<Expr>,
    pub step: Option<Expr>,
    pub body: Block,
    pub span: Span,
}

/// `for binding in iterable body`.
#[derive(Debug, PartialEq, Eq)]
pub struct ForInStmt {
    pub binding: String,
    pub mutable: bool,
    pub iterable: Expr,
    pub body: Block,
    pub span: Span,
}

/// A statement.
#[derive(Debug, PartialEq, Eq)]
pub enum Stmt {
    Expr(Expr),
    While(WhileStmt),
    For(Box<ForStmt>),
    ForIn(Box<ForInStmt>),
}

/// What an assignment writes to.
#[derive(Debug, PartialEq, Eq)]
#[allow(inconsistent_fields)]
pub enum AssignTarget {
    Ident(String, Span),
    FieldAccess { object: Box<Expr>, field: String, span: Span },
    TupleAccess { object: Box<Expr>, index: usize, span: Span },
    Index { object: Box<Expr>, index: Box<Expr>, span: Span },
    Deref { object: Box<Expr>, span: Span },
}

/// An arm of a match.
#[derive(Debug, PartialEq, Eq)]
pub struct MatchArm {
    pub pattern: Pattern,
    pub guard: Option<Expr>,
    pub body: Block,
    pub span: Span,
}

/// A match expression.
#[derive(Debug, PartialEq, Eq)]
pub struct MatchExpr {
    pub scrutinee: Box<Expr>,
    pub arms: Vec<MatchArm>,
    pub span: Span,
}

/// `return value`.
#[derive(Debug, PartialEq, Eq)]
pub struct ReturnExpr {
    pub value: Option<Box<Expr>>,
    pub span: Span,
}

/// `break value`.
#[derive(Debug, PartialEq, Eq)]
pub struct BreakExpr {
    pub value: Option<Box<Expr>>,
    pub span: Span,
}

/// An expression.
#[derive(Debug, PartialEq, Eq)]
#[allow(inconsistent_fields)]
pub enum Expr {
    Literal(Literal, Span),
    Ident(String, Span),
    /// A path that name resolution has replaced by the name it denotes.
    ResolvedPath {
        resolved: String,
        original: Vec<String>,
        symbol_id: Option<SymbolId>,
        span: Span,
    },
    Path(Vec<String>, Span),
    BinOp(Box<Expr>, BinOp, Box<Expr>, Span),
    UnaryOp(UnaryOp, Box<Expr>, Span),
    Tuple(Vec<Expr>, Span),
    RecordLiteral { fields: Vec<(String, Expr)>, span: Span },
    Array(Vec<Expr>, Span),
    RepeatArray(Box<Expr>, u64, Span),
    Call { callee: Box<Expr>, type_args: Vec<TypeExpr>, args: Vec<Expr>, span: Span },
    Index { object: Box<Expr>, index: Box<Expr>, span: Span },
    If { condition: Box<Expr>, then_branch: Block, else_branch: Option<Block>, span: Span },
    Assign { target: AssignTarget, op: AssignOp, value: Box<Expr>, span: Span },
    FieldAccess { object: Box<Expr>, field: String, span: Span },
    TupleAccess { object: Box<Expr>, index: usize, span: Span },
    MethodCall {
        receiver: Box<Expr>,
        method: String,
        type_args: Vec<TypeExpr>,
        args: Vec<Expr>,
        span: Span,
    },
    StructLiteral {
        path: Vec<String>,
        fields: Vec<(String, Expr)>,
        symbol_id: Option<SymbolId>,
        span: Span,
    },
    RecordProjection { path: Vec<String>, fields: Vec<String>, span: Span },
    Closure { params: Vec<Param>, return_type: Option<TypeExpr>, body: Block, span: Span },
    Match(MatchExpr),
    PropagateError { expr: Box<Expr>, span: Span },
    Ascribe { expr: Box<Expr>, ann: TypeExpr, span: Span },
    Cast { expr: Box<Expr>, target_type: TypeExpr, span: Span },
    Loop { body: Block, span: Span },
    Return(ReturnExpr),
    Break(BreakExpr),
    Continue(Span),
}

/// Where an expression stands in the source.
pub open spec fn expr_span(e: Expr) -> Span {
    match e {
        Expr::Literal(_, span) => span,
        Expr::Ident(_, span) => span,
        Expr::ResolvedPath { span, .. } => span,
        Expr::Path(_, span) => span,
        Expr::BinOp(_, _, _, span) => span,
        Expr::UnaryOp(_, _, span) => span,
        Expr::Tuple(_, span) => span,
        Expr::RecordLiteral { span, .. } => span,
        Expr::Array(_, span) => span,
        Expr::RepeatArray(_, _, span) => span,
        Expr::Call { span, .. } => span,
        Expr::Index { span, .. } => span,
        Expr::If { span, .. } => span,
        Expr::Assign { span, .. } => span,
        Expr::FieldAccess { span, .. } => span,
        Expr::TupleAccess { span, .. } => span,
        Expr::MethodCall { span, .. } => span,
        Expr::StructLiteral { span, .. } => span,
        Expr::RecordProjection { span, .. } => span,
        Expr::Closure { span, .. } => span,
        Expr::Match(m) => m.span,
        Expr::PropagateError { span, .. } => span,
        Expr::Ascribe { span, .. } => span,
        Expr::Cast { span, .. } => span,
        Expr::Loop { span, .. } => span,
        Expr::Return(r) => r.span,
        Expr::Break(b) => b.span,
        Expr::Continue(span) => span,
    }
}

impl Expr {
    /// Where the expression stands in the source.
    pub fn span(&self) -> (r: &Span)
        ensures
            *r == expr_span(*self),
    {
        match self {
            Expr::Literal(_, span) => span,
            Expr::Ident(_, span) => span,
            Expr::ResolvedPath { span, .. } => span,
            Expr::Path(_, span) => span,
            Expr::BinOp(_, _, _, span) => span,
            Expr::UnaryOp(_, _, span) => span,
            Expr::Tuple(_, span) => span,
            Expr::RecordLiteral { span, .. } => span,
            Expr::Array(_, span) => span,
            Expr::RepeatArray(_, _, span) => span,
            Expr::Call { span, .. } => span,
            Expr::Index { span, .. } => span,
            Expr::If { span, .. } => span,
            Expr::Assign { span, .. } => span,
            Expr::FieldAccess { span, .. } => span,
            Expr::TupleAccess { span, .. } => span,
            Expr::MethodCall { span, .. } => span,
            Expr::StructLiteral { span, .. } => span,
            Expr::RecordProjection { span, .. } => span,
            Expr::Closure { span, .. } => span,
            Expr::Match(m) => &m.span,
            Expr::PropagateError { span, .. } => span,
            Expr::Ascribe { span, .. } => span,
            Expr::Cast { span, .. } => span,
            Expr::Loop { span, .. } => span,
            Expr::Return(r) => &r.span,
            Expr::Break(b) => &b.span,
            Expr::Continue(span) => span,
        }
    }
}

/// Where an import path starts.
#[derive(Debug, PartialEq, Eq)]
pub enum PathRoot {
    Std,
    Root,
    Super,
    Self_,
    Name(String),
}

/// What an import names below its root.
#[derive(Debug, PartialEq, Eq)]
#[allow(inconsistent_fields)]
pub enum ImportTree {
    Name { name: String, alias: Option<String> },
    Path { name: String, tree: Box<ImportTree> },
    Group(Vec<ImportTree>),
    Glob,
}

/// The path of an import.
#[derive(Debug, PartialEq, Eq)]
pub struct ImportPath {
    pub root: PathRoot,
    pub tree: ImportTree,
}

/// An import declaration.
#[derive(Debug, PartialEq, Eq)]
pub struct ImportDecl {
    pub path: ImportPath,
    pub span: Span,
}

/// A parsed module.
#[derive(Debug, PartialEq, Eq)]
pub struct Program {
    pub imports: Vec<ImportDecl>,
    pub decls: Vec<Decl>,
}

} // verus!
