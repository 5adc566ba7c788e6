//! The rules of elaboration that look at one expression, its parts being typed already.
use vstd::prelude::*;
use crate::ast::{named_type_exprs_view, type_expr_view, type_exprs_view, BinOp, FloatKind, IntKind};
use crate::ast::{Literal, LiteralV, Pattern, TypeExpr, TypeExprV, UnaryOp};
use crate::error::{type_failure, MetelError, MetelErrorV, TypeErrorCode};
use crate::infer::{infer_to_type, lowered, resolved, substituted, InferType, InferTypeV};
use crate::infer::{Substitution, TypeVar};
use crate::lookup::{enum_of, find_variant, variant_of};
use crate::native_keys::{key_path, law_key_paths_are_distinct, NativeKey};
use crate::registry::{EnumInfo, FieldEntry, TypeDefinitionRegistry, VariantInfo};
use crate::span::{Span, SpanV};
use crate::text::{decimal, decimal_text, joined3, joined5, texts};
use crate::typed_ast::{ty_of, TypedBlock, TypedDecl, TypedExpr, TypedMatchArm, TypedStmt};
use crate::types::{named_types_view, peel_type_references, peeled, type_text, type_view};
use crate::types::{types_view, Type, TypeV};
use super::pattern::{all_catch_all, are_catch_all, catches_all, covers, is_bool_literal_pattern};
use super::pattern::{is_catch_all_pattern, is_truth, pattern_covers_variant, PatternV};
use super::schemes::shorter;
use super::state::{opt_type, type_symbol, Facts};
use super::tree::{arm_tree, arm_trees, block_tree, decl_tree, decl_trees, expr_tree, lemma_tree_ty};
use super::tree::{tree_span, tree_ty, ArmT, BlockT, DeclT, ExprT, StmtT};

verus! {

/// An integer as it is written in messages.
pub open spec fn integer_text(n: i64) -> Seq<char> {
    if n < 0 {
        "-"@ + decimal((-(n as int)) as nat)
    } else {
        decimal(n as nat)
    }
}

fn describe_integer(n: i64) -> (r: String)
    ensures
        r@ == integer_text(n),
{
    if n < 0 {
        let magnitude: u64 = (-(n as i128)) as u64;
        let mut out: String = "-".to_owned();
        out.append(decimal_text(magnitude).as_str());
        out
    } else {
        decimal_text(n as u64)
    }
}

/// The type of a literal: the type that is expected where it can have it, or else its own.
pub open spec fn literal_type(lit: LiteralV, hint: Option<TypeV>, span: SpanV) -> Result<
    TypeV,
    MetelErrorV,
> {
    match lit {
        LiteralV::Int(n) => match hint {
            Some(TypeV::I8) => Ok(TypeV::I8),
            Some(TypeV::I16) => Ok(TypeV::I16),
            Some(TypeV::I32) => Ok(TypeV::I32),
            Some(TypeV::U8) => Ok(TypeV::U8),
            Some(TypeV::U16) => Ok(TypeV::U16),
            Some(TypeV::U32) => Ok(TypeV::U32),
            Some(TypeV::U64) => if n < 0 {
                Err(
                    type_failure(
                        TypeErrorCode::T0005,
                        "integer literal `"@ + integer_text(n)
                            + "` is negative and cannot be used as a u64 index"@,
                        span,
                    ),
                )
            } else {
                Ok(TypeV::U64)
            },
            Some(TypeV::F32) => Ok(TypeV::F32),
            Some(TypeV::F64) => Ok(TypeV::F64),
            _ => Ok(TypeV::I64),
        },
        LiteralV::Float(_) => match hint {
            Some(TypeV::F32) => Ok(TypeV::F32),
            _ => Ok(TypeV::F64),
        },
        LiteralV::SizedInt { kind, .. } => Ok(
            match kind {
                IntKind::I8 => TypeV::I8,
                IntKind::I16 => TypeV::I16,
                IntKind::I32 => TypeV::I32,
                IntKind::I64 => TypeV::I64,
                IntKind::U8 => TypeV::U8,
                IntKind::U16 => TypeV::U16,
                IntKind::U32 => TypeV::U32,
                IntKind::U64 => TypeV::U64,
            },
        ),
        LiteralV::SizedFloat { kind, .. } => Ok(
            match kind {
                FloatKind::F32 => TypeV::F32,
                FloatKind::F64 => TypeV::F64,
            },
        ),
        LiteralV::Char(_) => Ok(TypeV::Char),
        LiteralV::Boolean(_) => Ok(TypeV::Boolean),
        LiteralV::Str(_) => Ok(TypeV::Str),
        LiteralV::Unit => Ok(TypeV::Unit),
    }
}

/// The type of a literal.
pub fn construct_literal_type(lit: &Literal, hint: Option<&Type>, span: &Span) -> (r: Result<
    Type,
    MetelError,
>)
    ensures
        match literal_type(lit@, super::state::hint_view(hint), span@) {
            Ok(t) => r matches Ok(x) && x@ == t,
            Err(e) => r matches Err(x) && x@ == e,
        },
{
    match lit {
        Literal::Int(n) => match hint {
            Some(Type::I8) => Ok(Type::I8),
            Some(Type::I16) => Ok(Type::I16),
            Some(Type::I32) => Ok(Type::I32),
            Some(Type::U8) => Ok(Type::U8),
            Some(Type::U16) => Ok(Type::U16),
            Some(Type::U32) => Ok(Type::U32),
            Some(Type::U64) => {
                if *n < 0 {
                    return Err(
                        MetelError::type_error(
                            TypeErrorCode::T0005,
                            joined3(
                                "integer literal `",
                                describe_integer(*n).as_str(),
                                "` is negative and cannot be used as a u64 index",
                            ),
                            span,
                        ),
                    );
                }
                Ok(Type::U64)
            },
            Some(Type::F32) => Ok(Type::F32),
            Some(Type::F64) => Ok(Type::F64),
            _ => Ok(Type::I64),
        },
        Literal::Float(_) => match hint {
            Some(Type::F32) => Ok(Type::F32),
            _ => Ok(Type::F64),
        },
        Literal::SizedInt { kind, .. } => Ok(
            match kind {
                IntKind::I8 => Type::I8,
                IntKind::I16 => Type::I16,
                IntKind::I32 => Type::I32,
                IntKind::I64 => Type::I64,
                IntKind::U8 => Type::U8,
                IntKind::U16 => Type::U16,
                IntKind::U32 => Type::U32,
                IntKind::U64 => Type::U64,
            },
        ),
        Literal::SizedFloat { kind, .. } => Ok(
            match kind {
                FloatKind::F32 => Type::F32,
                FloatKind::F64 => Type::F64,
            },
        ),
        Literal::Char(_) => Ok(Type::Char),
        Literal::Boolean(_) => Ok(Type::Boolean),
        Literal::Str(_) => Ok(Type::Str),
        Literal::Unit => Ok(Type::Unit),
    }
}

/// The key of a host implementation.
pub open spec fn native_key(path: Seq<Seq<char>>) -> Option<NativeKey> {
    if exists|key: NativeKey| path == #[trigger] key_path(key) {
        Some(choose|key: NativeKey| path == #[trigger] key_path(key))
    } else {
        None
    }
}

/// The key of a host implementation.
pub fn native_key_for(path: &Vec<String>) -> (r: Option<NativeKey>)
    ensures
        r == native_key(texts(path@)),
{
    let found: Option<NativeKey> = NativeKey::from_path(path.as_slice());
    proof {
        if let Some(key) = found {
            let other = choose|k: NativeKey| texts(path@) == #[trigger] key_path(k);
            assert(texts(path@) == key_path(key));
            law_key_paths_are_distinct(key, other);
        }
    }
    found
}

/// The enum that is expected.
pub open spec fn expected_enum(
    reg: TypeDefinitionRegistry,
    hint: Option<TypeV>,
    span: SpanV,
) -> Result<(Seq<char>, EnumInfo), MetelErrorV> {
    match hint {
        None => Err(
            type_failure(TypeErrorCode::T0002, "cannot infer type; add a type annotation"@, span),
        ),
        Some(t) => match t {
            TypeV::Named(name, _) => match enum_of(reg, name) {
                Some(info) => Ok((name, info)),
                None => Err(
                    type_failure(
                        TypeErrorCode::T0001,
                        "expected enum type, found `"@ + type_text(t) + "`"@,
                        span,
                    ),
                ),
            },
            _ => Err(
                type_failure(
                    TypeErrorCode::T0001,
                    "expected enum type, found `"@ + type_text(t) + "`"@,
                    span,
                ),
            ),
        },
    }
}

/// The enum that is expected.
pub fn resolve_expected_enum<'b>(
    registry: &'b TypeDefinitionRegistry,
    hint: Option<&'b Type>,
    span: &Span,
) -> (r: Result<(&'b String, &'b EnumInfo), MetelError>)
    ensures
        match expected_enum(*registry, super::state::hint_view(hint), span@) {
            Ok(x) => r matches Ok(y) && y.0@ == x.0 && *y.1 == x.1,
            Err(e) => r matches Err(x) && x@ == e,
        },
{
    match hint {
        None => Err(
            MetelError::type_error(
                TypeErrorCode::T0002,
                "cannot infer type; add a type annotation".to_owned(),
                span,
            ),
        ),
        Some(t) => {
            if let Type::Named(name, _) = t {
                if let Some(info) = registry.enum_info(name.as_str()) {
                    return Ok((name, info));
                }
            }
            Err(
                MetelError::type_error(
                    TypeErrorCode::T0001,
                    joined3("expected enum type, found `", t.describe().as_str(), "`"),
                    span,
                ),
            )
        },
    }
}

/// What is said of a variant without its enum where no type is expected.
pub open spec fn needs_annotation(name: Seq<char>, span: SpanV) -> MetelErrorV {
    type_failure(
        TypeErrorCode::T0002,
        "cannot infer type of `"@ + name + "`; add a type annotation"@,
        span,
    )
}

/// What is said of a variant without its enum where no type is expected.
pub fn unqualified_variant_needs_annotation_error(name: &str, span: &Span) -> (r: MetelError)
    ensures
        r@ == needs_annotation(name@, span@),
{
    MetelError::type_error(
        TypeErrorCode::T0002,
        joined3("cannot infer type of `", name, "`; add a type annotation"),
        span,
    )
}

/// A variant without fields, written without its enum.
pub open spec fn variant_expr(
    fx: Facts,
    name: Seq<char>,
    hint: Option<TypeV>,
    span: SpanV,
) -> Result<ExprT, MetelErrorV> {
    match hint {
        None => Err(needs_annotation(name, span)),
        Some(t) => match expected_enum(*fx.registry, hint, span) {
            Err(e) => Err(e),
            Ok(found) => match variant_of(found.1, name) {
                None => Err(
                    type_failure(
                        TypeErrorCode::T0001,
                        "cannot unify `"@ + name + "` with `"@ + type_text(t) + "`"@,
                        span,
                    ),
                ),
                Some(v) => if v.fields@.len() > 0 {
                    Err(
                        type_failure(
                            TypeErrorCode::T0003,
                            "missing fields for `"@ + found.0 + "::"@ + name + "`"@,
                            span,
                        ),
                    )
                } else {
                    Ok(
                        ExprT::StructLiteral {
                            path: seq![found.0, name],
                            fields: Seq::empty(),
                            ty: t,
                            type_id: type_symbol(fx, found.0),
                            span,
                        },
                    )
                },
            },
        },
    }
}

/// A variant without fields, written without its enum.
pub fn resolve_unqualified_variant_expr<'a>(
    fx: &Facts<'a, '_>,
    name: &str,
    hint: Option<&Type>,
    span: &Span,
) -> (r: Result<TypedExpr<'a>, MetelError>)
    ensures
        match variant_expr(*fx, name@, super::state::hint_view(hint), span@) {
            Ok(t) => r matches Ok(x) && expr_tree(x) == t,
            Err(e) => r matches Err(x) && x@ == e,
        },
{
    let t: &Type = match hint {
        Some(t) => t,
        None => {
            return Err(unqualified_variant_needs_annotation_error(name, span));
        },
    };
    match resolve_expected_enum(fx.registry, hint, span) {
        Err(e) => Err(e),
        Ok((enum_name, info)) => match find_variant(info, name) {
            None => Err(
                MetelError::type_error(
                    TypeErrorCode::T0001,
                    joined5("cannot unify `", name, "` with `", t.describe().as_str(), "`"),
                    span,
                ),
            ),
            Some(v) => {
                if v.fields.len() > 0 {
                    return Err(
                        MetelError::type_error(
                            TypeErrorCode::T0003,
                            joined5("missing fields for `", enum_name.as_str(), "::", name, "`"),
                            span,
                        ),
                    );
                }
                let mut path: Vec<String> = Vec::new();
                path.push(enum_name.clone());
                path.push(name.to_owned());
                assert(texts(path@) =~= seq![enum_name@, name@]);
                let fields: Vec<(String, TypedExpr<'a>)> = Vec::new();
                assert(super::tree::field_trees(fields@) =~= Seq::empty());
                Ok(
                    TypedExpr::StructLiteral {
                        path,
                        fields,
                        ty: t.copy(),
                        type_id: fx.type_symbol_id(enum_name.as_str()),
                        span: span.copy(),
                    },
                )
            },
        },
    }
}

/// What is wrong with an array of unknown length where a length is expected.
pub open spec fn dynamic_array_error(hint: Option<TypeV>, e: ExprT) -> Option<MetelErrorV> {
    match (hint, peeled(tree_ty(e))) {
        (Some(TypeV::SizedArray(_, n)), TypeV::Array(_)) => Some(
            type_failure(
                TypeErrorCode::T0001,
                "expected a fixed-size array of "@ + decimal(n as nat)
                    + " element(s), got a dynamically-sized array"@,
                tree_span(e),
            ),
        ),
        _ => None,
    }
}

/// Reject an array of unknown length where a length is expected: a fixed-size array stands in for
/// an array, never the other way round.
pub fn reject_dynamic_array_where_sized_expected(hint: Option<&Type>, e: &TypedExpr) -> (r: Option<
    MetelError,
>)
    ensures
        crate::error::opt_error(r) == dynamic_array_error(
            super::state::hint_view(hint),
            expr_tree(*e),
        ),
{
    broadcast use lemma_tree_ty;

    assert(tree_ty(expr_tree(*e)) == ty_of(*e)@);
    if let Some(Type::SizedArray(_, n)) = hint {
        if let Type::Array(_) = peel_type_references(e.ty()) {
            return Some(
                MetelError::type_error(
                    TypeErrorCode::T0001,
                    joined3(
                        "expected a fixed-size array of ",
                        decimal_text(*n).as_str(),
                        " element(s), got a dynamically-sized array",
                    ),
                    e.span(),
                ),
            );
        }
    }
    None
}

/// The type of a block used as an expression: that of its tail, or `!` where its last statement
/// diverges, or `()`.
pub open spec fn block_type(b: BlockT) -> TypeV {
    match b.tail {
        Some(e) => tree_ty(*e),
        None => if b.stmts.len() == 0 {
            TypeV::Unit
        } else {
            match b.stmts.last() {
                DeclT::Stmt(s) => match *s {
                    StmtT::Expr(e) => if tree_ty(e) is Never {
                        TypeV::Never
                    } else {
                        TypeV::Unit
                    },
                    _ => TypeV::Unit,
                },
                _ => TypeV::Unit,
            }
        },
    }
}

/// The type of a block used as an expression.
pub fn block_result_type(b: &TypedBlock) -> (r: Type)
    ensures
        r@ == block_type(block_tree(*b)),
{
    broadcast use lemma_tree_ty;

    let ghost tree = block_tree(*b);
    assert(tree.stmts.len() == b.stmts@.len());
    if let Some(tail) = &b.tail {
        assert(tree_ty(expr_tree(**tail)) == ty_of(**tail)@);
        return tail.ty().copy();
    }
    if b.stmts.len() == 0 {
        return Type::Unit;
    }
    assert(tree.stmts.last() == decl_tree(b.stmts@[b.stmts@.len() - 1]));
    if let TypedDecl::Stmt(s) = &b.stmts[b.stmts.len() - 1] {
        if let TypedStmt::Expr(e) = &**s {
            assert(tree_ty(expr_tree(*e)) == ty_of(*e)@);
            if let Type::Never = e.ty() {
                return Type::Never;
            }
        }
    }
    Type::Unit
}

/// Whether an expression never hands back a value to the function: a `return` only where its
/// operand does not.
pub open spec fn diverges(e: ExprT) -> bool {
    match e {
        ExprT::Return(value, _) => match value {
            Some(v) => tree_ty(*v) is Never,
            None => false,
        },
        other => tree_ty(other) is Never,
    }
}

/// Whether the body of a function never returns.
pub open spec fn body_diverges(b: BlockT) -> bool {
    match b.tail {
        Some(e) => diverges(*e),
        None => if b.stmts.len() == 0 {
            false
        } else {
            match b.stmts.last() {
                DeclT::Stmt(s) => match *s {
                    StmtT::Expr(e) => diverges(e),
                    _ => false,
                },
                _ => false,
            }
        },
    }
}

fn is_divergent_return(e: &TypedExpr) -> (r: bool)
    ensures
        r == diverges(expr_tree(*e)),
{
    broadcast use lemma_tree_ty;

    assert(tree_ty(expr_tree(*e)) == ty_of(*e)@);
    match e {
        TypedExpr::Return(ret) => match &ret.value {
            Some(v) => {
                assert(tree_ty(expr_tree(**v)) == ty_of(**v)@);
                matches!(v.ty(), Type::Never)
            },
            None => false,
        },
        other => matches!(other.ty(), Type::Never),
    }
}

/// Whether the body of a function never returns.
pub fn fun_body_diverges(b: &TypedBlock) -> (r: bool)
    ensures
        r == body_diverges(block_tree(*b)),
{
    let ghost tree = block_tree(*b);
    assert(tree.stmts.len() == b.stmts@.len());
    if let Some(tail) = &b.tail {
        return is_divergent_return(tail);
    }
    if b.stmts.len() == 0 {
        return false;
    }
    assert(tree.stmts.last() == decl_tree(b.stmts@[b.stmts@.len() - 1]));
    if let TypedDecl::Stmt(s) = &b.stmts[b.stmts.len() - 1] {
        if let TypedStmt::Expr(e) = &**s {
            return is_divergent_return(e);
        }
    }
    false
}

/// The type of branches taken together: the first that is not `!`.
pub open spec fn merged_type(s: Seq<TypeV>) -> TypeV
    decreases s.len(),
{
    if s.len() == 0 {
        TypeV::Never
    } else if !(s[0] is Never) {
        s[0]
    } else {
        merged_type(s.skip(1))
    }
}

/// The type of branches taken together.
pub fn merge_branch_types(types: &Vec<Type>) -> (r: Type)
    ensures
        r@ == merged_type(types_view(types@)),
{
    let ghost s = types_view(types@);
    assert(s.len() == types@.len());
    assert(s.skip(0) =~= s);
    let mut i: usize = 0;
    while i < types.len()
        invariant
            i <= types@.len(),
            s == types_view(types@),
            s.len() == types@.len(),
            merged_type(s) == merged_type(s.skip(i as int)),
        decreases types@.len() - i,
    {
        assert(s.skip(i as int)[0] == s[i as int]);
        assert(s[i as int] == type_view(types@[i as int]));
        assert(s.skip(i as int).skip(1) =~= s.skip(i + 1));
        if !matches!(types[i], Type::Never) {
            return types[i].copy();
        }
        i += 1;
    }
    Type::Never
}

/// Type parameters bound to type arguments, the first `n` of them.
pub open spec fn remapped(params: Seq<TypeVar>, args: Seq<TypeV>, n: int) -> Map<
    TypeVar,
    InferTypeV,
>
    decreases n,
{
    if n <= 0 || n > params.len() || n > args.len() {
        Map::empty()
    } else {
        remapped(params, args, n - 1).insert(params[n - 1], InferTypeV::Concrete(args[n - 1]))
    }
}

/// Type parameters bound to type arguments.
pub open spec fn type_args_map(params: Seq<TypeVar>, args: Seq<TypeV>) -> Map<TypeVar, InferTypeV> {
    remapped(params, args, shorter(params.len(), args.len()))
}

/// Type parameters bound to type arguments.
pub fn type_param_remap(params: &Vec<TypeVar>, args: &Vec<Type>) -> (r: Substitution)
    ensures
        r@ == type_args_map(params@, types_view(args@)),
{
    let ghost ts = types_view(args@);
    assert(ts.len() == args@.len());
    let mut out: Substitution = Substitution::new();
    let mut i: usize = 0;
    while i < params.len() && i < args.len()
        invariant
            i <= params@.len(),
            i <= args@.len(),
            ts == types_view(args@),
            ts.len() == args@.len(),
            out@ == remapped(params@, ts, i as int),
        decreases params@.len() - i,
    {
        assert(ts[i as int] == type_view(args@[i as int]));
        out.bind(params[i], InferType::Concrete(args[i].copy()));
        i += 1;
    }
    out
}

/// Whether a field has no value for these type arguments.
pub open spec fn empty_field(f: FieldEntry, m: Map<TypeVar, InferTypeV>) -> bool {
    resolved(substituted(m, f.ty@)) && lowered(substituted(m, f.ty@)) is Never
}

/// Whether a variant has no value for these type arguments: one of its fields has none.
pub open spec fn uninhabited(v: VariantInfo, m: Map<TypeVar, InferTypeV>) -> bool {
    exists|i: int| 0 <= i < v.fields@.len() && empty_field(#[trigger] v.fields@[i], m)
}

/// Whether a variant has no value for these type arguments.
pub fn is_variant_uninhabited(v: &VariantInfo, remap: &Substitution) -> (r: bool)
    ensures
        r == uninhabited(*v, remap@),
{
    let mut i: usize = 0;
    while i < v.fields.len()
        invariant
            i <= v.fields@.len(),
            forall|k: int| 0 <= k < i ==> !empty_field(#[trigger] v.fields@[k], remap@),
        decreases v.fields@.len() - i,
    {
        let applied: InferType = remap.apply(&v.fields[i].ty);
        if let Some(t) = infer_to_type(&applied) {
            if let Type::Never = t {
                return true;
            }
        }
        i += 1;
    }
    false
}

/// Whether an arm without a guard matches everything.
pub open spec fn arm_catches_all(a: ArmT) -> bool {
    a.guard is None && catches_all(a.pattern)
}

/// Whether an arm without a guard is the literal for a truth value.
pub open spec fn arm_is_truth(a: ArmT, value: bool) -> bool {
    a.guard is None && is_truth(a.pattern, value)
}

/// Whether an arm without a guard covers a variant.
pub open spec fn arm_covers(a: ArmT, enum_name: Seq<char>, variant: Seq<char>) -> bool {
    a.guard is None && covers(a.pattern, enum_name, variant)
}

/// Whether an arm without a guard matches every array of `n` elements.
pub open spec fn arm_spans(a: ArmT, n: u64) -> bool {
    a.guard is None && (a.pattern matches PatternV::Array { elems, rest, .. } && all_catch_all(
        elems,
    ) && (rest is Some || elems.len() == n))
}

/// Whether some arm covers a variant.
pub open spec fn some_arm_covers(s: Seq<ArmT>, enum_name: Seq<char>, variant: Seq<char>) -> bool {
    exists|i: int| 0 <= i < s.len() && arm_covers(#[trigger] s[i], enum_name, variant)
}

/// Whether a variant needs no arm, or has one.
pub open spec fn variant_handled(
    s: Seq<ArmT>,
    enum_name: Seq<char>,
    v: VariantInfo,
    m: Map<TypeVar, InferTypeV>,
) -> bool {
    uninhabited(v, m) || some_arm_covers(s, enum_name, v.name@)
}

/// Whether every variant of an enum needs no arm, or has one.
pub open spec fn variants_covered(
    s: Seq<ArmT>,
    enum_name: Seq<char>,
    info: EnumInfo,
    m: Map<TypeVar, InferTypeV>,
) -> bool {
    forall|i: int|
        0 <= i < info.variants@.len() ==> variant_handled(
            s,
            enum_name,
            #[trigger] info.variants@[i],
            m,
        )
}

/// Whether some arm without a guard matches everything.
pub open spec fn some_catch_all(s: Seq<ArmT>) -> bool {
    exists|i: int| 0 <= i < s.len() && arm_catches_all(#[trigger] s[i])
}

/// Whether some arm without a guard is the literal for a truth value.
pub open spec fn some_truth(s: Seq<ArmT>, value: bool) -> bool {
    exists|i: int| 0 <= i < s.len() && arm_is_truth(#[trigger] s[i], value)
}

/// Whether some arm without a guard matches every array of `n` elements.
pub open spec fn some_span(s: Seq<ArmT>, n: u64) -> bool {
    exists|i: int| 0 <= i < s.len() && arm_spans(#[trigger] s[i], n)
}

/// Whether the arms of a match leave no value of the scrutinee unmatched.
pub open spec fn exhaustive(reg: TypeDefinitionRegistry, s: Seq<ArmT>, ty: TypeV) -> bool {
    ||| some_catch_all(s)
    ||| match ty {
        TypeV::Boolean => some_truth(s, true) && some_truth(s, false),
        TypeV::Named(name, args) => match enum_of(reg, name) {
            Some(info) => variants_covered(s, name, info, type_args_map(info.type_params@, args)),
            None => false,
        },
        TypeV::Never => true,
        TypeV::SizedArray(_, n) => some_span(s, n),
        _ => false,
    }
}

fn any_catch_all(arms: &Vec<TypedMatchArm>) -> (r: bool)
    ensures
        r == some_catch_all(arm_trees(arms@)),
{
    let ghost s = arm_trees(arms@);
    assert(s.len() == arms@.len());
    let mut i: usize = 0;
    while i < arms.len()
        invariant
            i <= arms@.len(),
            s == arm_trees(arms@),
            s.len() == arms@.len(),
            forall|k: int| 0 <= k < i ==> !arm_catches_all(#[trigger] s[k]),
        decreases arms@.len() - i,
    {
        assert(s[i as int] == arm_tree(arms@[i as int]));
        if arms[i].guard.is_none() && is_catch_all_pattern(&arms[i].pattern) {
            return true;
        }
        i += 1;
    }
    false
}

fn any_truth(arms: &Vec<TypedMatchArm>, value: bool) -> (r: bool)
    ensures
        r == some_truth(arm_trees(arms@), value),
{
    let ghost s = arm_trees(arms@);
    assert(s.len() == arms@.len());
    let mut i: usize = 0;
    while i < arms.len()
        invariant
            i <= arms@.len(),
            s == arm_trees(arms@),
            s.len() == arms@.len(),
            forall|k: int| 0 <= k < i ==> !arm_is_truth(#[trigger] s[k], value),
        decreases arms@.len() - i,
    {
        assert(s[i as int] == arm_tree(arms@[i as int]));
        if arms[i].guard.is_none() && is_bool_literal_pattern(&arms[i].pattern, value) {
            return true;
        }
        i += 1;
    }
    false
}

fn any_covers(arms: &Vec<TypedMatchArm>, enum_name: &str, variant: &str) -> (r: bool)
    ensures
        r == some_arm_covers(arm_trees(arms@), enum_name@, variant@),
{
    let ghost s = arm_trees(arms@);
    assert(s.len() == arms@.len());
    let mut i: usize = 0;
    while i < arms.len()
        invariant
            i <= arms@.len(),
            s == arm_trees(arms@),
            s.len() == arms@.len(),
            forall|k: int| 0 <= k < i ==> !arm_covers(#[trigger] s[k], enum_name@, variant@),
        decreases arms@.len() - i,
    {
        assert(s[i as int] == arm_tree(arms@[i as int]));
        if arms[i].guard.is_none() && pattern_covers_variant(&arms[i].pattern, enum_name, variant) {
            return true;
        }
        i += 1;
    }
    false
}

fn any_spans(arms: &Vec<TypedMatchArm>, n: u64) -> (r: bool)
    ensures
        r == some_span(arm_trees(arms@), n),
{
    let ghost s = arm_trees(arms@);
    assert(s.len() == arms@.len());
    let mut i: usize = 0;
    while i < arms.len()
        invariant
            i <= arms@.len(),
            s == arm_trees(arms@),
            s.len() == arms@.len(),
            forall|k: int| 0 <= k < i ==> !arm_spans(#[trigger] s[k], n),
        decreases arms@.len() - i,
    {
        assert(s[i as int] == arm_tree(arms@[i as int]));
        if arms[i].guard.is_none() {
            if let Pattern::Array { elems, rest, .. } = &arms[i].pattern {
                assert(super::pattern::patterns_view(elems@).len() == elems@.len());
                if are_catch_all(elems) && (rest.is_some() || elems.len() as u64 == n) {
                    return true;
                }
            }
        }
        i += 1;
    }
    false
}

fn variants_handled(
    arms: &Vec<TypedMatchArm>,
    name: &str,
    info: &EnumInfo,
    remap: &Substitution,
) -> (r: bool)
    ensures
        r == variants_covered(arm_trees(arms@), name@, *info, remap@),
{
    let mut i: usize = 0;
    while i < info.variants.len()
        invariant
            i <= info.variants@.len(),
            forall|k: int|
                0 <= k < i ==> variant_handled(
                    arm_trees(arms@),
                    name@,
                    #[trigger] info.variants@[k],
                    remap@,
                ),
        decreases info.variants@.len() - i,
    {
        let v: &VariantInfo = &info.variants[i];
        if !is_variant_uninhabited(v, remap) && !any_covers(arms, name, v.name.as_str()) {
            assert(!variant_handled(arm_trees(arms@), name@, info.variants@[i as int], remap@));
            return false;
        }
        i += 1;
    }
    true
}

/// What is wrong with a match that leaves a value unmatched.
pub open spec fn coverage_error(
    reg: TypeDefinitionRegistry,
    s: Seq<ArmT>,
    ty: TypeV,
    span: SpanV,
) -> Option<MetelErrorV> {
    if exhaustive(reg, s, ty) {
        None
    } else {
        Some(
            type_failure(
                TypeErrorCode::T0008,
                "non-exhaustive match: not all cases are covered"@,
                span,
            ),
        )
    }
}

/// Check that the arms of a match leave no value of the scrutinee unmatched.
pub fn check_match_exhaustiveness(
    registry: &TypeDefinitionRegistry,
    arms: &Vec<TypedMatchArm>,
    ty: &Type,
    span: &Span,
) -> (r: Option<MetelError>)
    ensures
        crate::error::opt_error(r) == coverage_error(*registry, arm_trees(arms@), ty@, span@),
{
    let ghost s = arm_trees(arms@);
    assert(s.len() == arms@.len());
    if any_catch_all(arms) {
        return None;
    }
    let covered: bool = match ty {
        Type::Boolean => any_truth(arms, true) && any_truth(arms, false),
        Type::Named(name, args) => match registry.enum_info(name.as_str()) {
            Some(info) => {
                let remap: Substitution = type_param_remap(&info.type_params, args);
                variants_handled(arms, name.as_str(), info, &remap)
            },
            None => false,
        },
        Type::Never => true,
        Type::SizedArray(_, n) => any_spans(arms, *n),
        _ => false,
    };
    if covered {
        None
    } else {
        Some(
            MetelError::type_error(
                TypeErrorCode::T0008,
                "non-exhaustive match: not all cases are covered".to_owned(),
                span,
            ),
        )
    }
}

/// The type that the first `break` of a loop body carries, its tail first. A nested loop or a
/// closure keeps its own.
pub open spec fn break_in_block(b: BlockT) -> Option<TypeV>
    decreases b,
{
    match match b.tail {
        Some(e) => break_in_expr(*e),
        None => None,
    } {
        Some(t) => Some(t),
        None => break_in_decls(b.stmts),
    }
}

/// [`break_in_block`] for declarations: the first that has one.
pub open spec fn break_in_decls(s: Seq<DeclT>) -> Option<TypeV>
    decreases s,
{
    if s.len() == 0 {
        None
    } else {
        let i = s.len() - 1;
        match break_in_decls(s.subrange(0, i)) {
            Some(t) => Some(t),
            None => match s[i] {
                DeclT::Stmt(x) => match *x {
                    StmtT::Expr(e) => break_in_expr(e),
                    _ => None,
                },
                _ => None,
            },
        }
    }
}

/// [`break_in_block`] for an expression.
pub open spec fn break_in_expr(e: ExprT) -> Option<TypeV>
    decreases e,
{
    match e {
        ExprT::Break(value, _) => Some(
            match value {
                Some(v) => tree_ty(*v),
                None => TypeV::Unit,
            },
        ),
        ExprT::If { taken, other, .. } => match break_in_block(taken) {
            Some(t) => Some(t),
            None => match other {
                Some(b) => break_in_block(b),
                None => None,
            },
        },
        ExprT::Match { arms, .. } => break_in_arms(arms),
        _ => None,
    }
}

/// [`break_in_block`] for match arms: the first that has one.
pub open spec fn break_in_arms(s: Seq<ArmT>) -> Option<TypeV>
    decreases s,
{
    if s.len() == 0 {
        None
    } else {
        let i = s.len() - 1;
        match break_in_arms(s.subrange(0, i)) {
            Some(t) => Some(t),
            None => break_in_block(s[i].body),
        }
    }
}

/// The type that the first `break` of a loop body carries.
pub fn find_loop_break_type(b: &TypedBlock) -> (r: Option<Type>)
    ensures
        opt_type(r) == break_in_block(block_tree(*b)),
    decreases *b,
{
    if let Some(tail) = &b.tail {
        let found: Option<Type> = find_break_in_expr(tail);
        if found.is_some() {
            return found;
        }
    }
    find_break_in_decls(&b.stmts)
}

fn find_break_in_decls(v: &Vec<TypedDecl>) -> (r: Option<Type>)
    ensures
        opt_type(r) == break_in_decls(decl_trees(v@)),
    decreases v@,
{
    let ghost s = decl_trees(v@);
    assert(s.len() == v@.len());
    let mut found: Option<Type> = None;
    let mut i: usize = 0;
    while i < v.len()
        invariant
            i <= v@.len(),
            s == decl_trees(v@),
            s.len() == v@.len(),
            opt_type(found) == break_in_decls(s.subrange(0, i as int)),
        decreases v@.len() - i,
    {
        let ghost after = s.subrange(0, i + 1);
        assert(after.subrange(0, after.len() - 1) =~= s.subrange(0, i as int));
        assert(s[i as int] == decl_tree(v@[i as int]));
        if found.is_none() {
            if let TypedDecl::Stmt(x) = &v[i] {
                if let TypedStmt::Expr(e) = &**x {
                    found = find_break_in_expr(e);
                }
            }
        }
        i += 1;
    }
    assert(s.subrange(0, i as int) =~= s);
    found
}

fn find_break_in_expr(e: &TypedExpr) -> (r: Option<Type>)
    ensures
        opt_type(r) == break_in_expr(expr_tree(*e)),
    decreases *e,
{
    broadcast use lemma_tree_ty;

    match e {
        TypedExpr::Break(b) => match &b.value {
            Some(v) => {
                assert(tree_ty(expr_tree(**v)) == ty_of(**v)@);
                Some(v.ty().copy())
            },
            None => Some(Type::Unit),
        },
        TypedExpr::If { then_branch, else_branch, .. } => {
            let found: Option<Type> = find_loop_break_type(then_branch);
            if found.is_some() {
                return found;
            }
            match else_branch {
                Some(b) => find_loop_break_type(b),
                None => None,
            }
        },
        TypedExpr::Match(m) => find_break_in_arms(&m.arms),
        _ => None,
    }
}

fn find_break_in_arms(v: &Vec<TypedMatchArm>) -> (r: Option<Type>)
    ensures
        opt_type(r) == break_in_arms(arm_trees(v@)),
    decreases v@,
{
    let ghost s = arm_trees(v@);
    assert(s.len() == v@.len());
    let mut found: Option<Type> = None;
    let mut i: usize = 0;
    while i < v.len()
        invariant
            i <= v@.len(),
            s == arm_trees(v@),
            s.len() == v@.len(),
            opt_type(found) == break_in_arms(s.subrange(0, i as int)),
        decreases v@.len() - i,
    {
        let ghost after = s.subrange(0, i + 1);
        assert(after.subrange(0, after.len() - 1) =~= s.subrange(0, i as int));
        assert(s[i as int] == arm_tree(v@[i as int]));
        if found.is_none() {
            found = find_loop_break_type(&v[i].body);
        }
        i += 1;
    }
    assert(s.subrange(0, i as int) =~= s);
    found
}

/// Whether an expression names a place.
pub open spec fn names_place(e: ExprT) -> bool
    decreases e,
{
    match e {
        ExprT::Ident(_, _, _) => true,
        ExprT::FieldAccess { object, .. } => names_place(*object),
        ExprT::TupleAccess { object, .. } => names_place(*object),
        ExprT::Index { object, .. } => names_place(*object),
        ExprT::UnaryOp(op, object, _, _) => op == UnaryOp::Deref && names_place(*object),
        _ => false,
    }
}

/// Whether an expression names a place.
pub fn is_lvalue_path(e: &TypedExpr) -> (r: bool)
    ensures
        r == names_place(expr_tree(*e)),
    decreases *e,
{
    match e {
        TypedExpr::Ident(_, _, _) => true,
        TypedExpr::FieldAccess { object, .. } => is_lvalue_path(object),
        TypedExpr::TupleAccess { object, .. } => is_lvalue_path(object),
        TypedExpr::Index { object, .. } => is_lvalue_path(object),
        TypedExpr::UnaryOp(UnaryOp::Deref, object, _, _) => is_lvalue_path(object),
        _ => false,
    }
}

/// What the first shared reference along a path towards its root refers to.
pub open spec fn shared_root(e: ExprT) -> Option<TypeV>
    decreases e,
{
    match e {
        ExprT::FieldAccess { object, .. } => shared_step(*object),
        ExprT::TupleAccess { object, .. } => shared_step(*object),
        ExprT::Index { object, .. } => shared_step(*object),
        ExprT::UnaryOp(op, object, _, _) => if op == UnaryOp::Deref {
            shared_step(*object)
        } else {
            None
        },
        _ => None,
    }
}

/// [`shared_root`], starting with the expression itself.
pub open spec fn shared_step(e: ExprT) -> Option<TypeV>
    decreases e,
{
    match tree_ty(e) {
        TypeV::Reference(inner) => Some(*inner),
        _ => match e {
            ExprT::FieldAccess { object, .. } => shared_step(*object),
            ExprT::TupleAccess { object, .. } => shared_step(*object),
            ExprT::Index { object, .. } => shared_step(*object),
            ExprT::UnaryOp(op, object, _, _) => if op == UnaryOp::Deref {
                shared_step(*object)
            } else {
                None
            },
            _ => None,
        },
    }
}

/// What the first shared reference along a path towards its root refers to.
pub fn shared_reference_root_in_lvalue_path(e: &TypedExpr) -> (r: Option<Type>)
    ensures
        opt_type(r) == shared_root(expr_tree(*e)),
    decreases *e,
{
    broadcast use lemma_tree_ty;

    let object: &TypedExpr = match e {
        TypedExpr::FieldAccess { object, .. } => object,
        TypedExpr::TupleAccess { object, .. } => object,
        TypedExpr::Index { object, .. } => object,
        TypedExpr::UnaryOp(UnaryOp::Deref, object, _, _) => object,
        _ => {
            return None;
        },
    };
    assert(tree_ty(expr_tree(*object)) == ty_of(*object)@);
    if let Type::Reference(inner) = object.ty() {
        return Some(inner.copy());
    }
    shared_reference_root_in_lvalue_path(object)
}

/// The type of a binary operation, from that of its left operand.
pub open spec fn binop_type(op: BinOp, t: TypeV, span: SpanV) -> Result<TypeV, MetelErrorV> {
    match op {
        BinOp::Add => if t is Str || t is Never || crate::types::numeric(t) {
            Ok(t)
        } else {
            Err(
                type_failure(
                    TypeErrorCode::T0005,
                    "`+` requires a numeric type or String operands, got `"@ + type_text(t) + "`"@,
                    span,
                ),
            )
        },
        BinOp::Sub | BinOp::Mul | BinOp::Div | BinOp::Rem => if t is Never
            || crate::types::numeric(t) {
            Ok(t)
        } else {
            Err(
                type_failure(
                    TypeErrorCode::T0005,
                    "arithmetic operator requires a numeric type operand, got `"@ + type_text(t)
                        + "`"@,
                    span,
                ),
            )
        },
        BinOp::Lt | BinOp::Le | BinOp::Gt | BinOp::Ge => if t is Str || t is Char || t is Never
            || crate::types::numeric(t) {
            Ok(TypeV::Boolean)
        } else {
            Err(
                type_failure(
                    TypeErrorCode::T0005,
                    "ordering comparison requires a numeric type or String operands, got `"@
                        + type_text(t) + "`"@,
                    span,
                ),
            )
        },
        BinOp::Eq | BinOp::Ne => if t is Str || t is Char || t is Boolean || t is Never
            || crate::types::numeric(t) {
            Ok(TypeV::Boolean)
        } else {
            Err(
                type_failure(
                    TypeErrorCode::T0005,
                    "equality comparison requires a primitive operand (numeric, boolean, String, or char), got `"@
                        + type_text(t)
                        + "`; `==` does not yet dispatch through the `Eq` aspect — use `.eq(..)` on a type that implements it"@,
                    span,
                ),
            )
        },
        BinOp::And | BinOp::Or => Ok(TypeV::Boolean),
        BinOp::Range | BinOp::RangeInclusive => Ok(TypeV::Named("Range"@, seq![TypeV::I64])),
    }
}

fn operand_error(before: &str, t: &Type, after: &str, span: &Span) -> (r: Result<Type, MetelError>)
    ensures
        r matches Err(e) && e@ == type_failure(
            TypeErrorCode::T0005,
            before@ + type_text(t@) + after@,
            span@,
        ),
{
    Err(
        MetelError::type_error(
            TypeErrorCode::T0005,
            joined3(before, t.describe().as_str(), after),
            span,
        ),
    )
}

/// The type of a binary operation, from that of its left operand.
pub fn binop_result(op: BinOp, t: &Type, span: &Span) -> (r: Result<Type, MetelError>)
    ensures
        match binop_type(op, t@, span@) {
            Ok(x) => r matches Ok(y) && y@ == x,
            Err(e) => r matches Err(x) && x@ == e,
        },
{
    match op {
        BinOp::Add => {
            if !matches!(t, Type::Str | Type::Never) && !t.is_numeric() {
                return operand_error(
                    "`+` requires a numeric type or String operands, got `",
                    t,
                    "`",
                    span,
                );
            }
            Ok(t.copy())
        },
        BinOp::Sub | BinOp::Mul | BinOp::Div | BinOp::Rem => {
            if !matches!(t, Type::Never) && !t.is_numeric() {
                return operand_error(
                    "arithmetic operator requires a numeric type operand, got `",
                    t,
                    "`",
                    span,
                );
            }
            Ok(t.copy())
        },
        BinOp::Lt | BinOp::Le | BinOp::Gt | BinOp::Ge => {
            if !matches!(t, Type::Str | Type::Char | Type::Never) && !t.is_numeric() {
                return operand_error(
                    "ordering comparison requires a numeric type or String operands, got `",
                    t,
                    "`",
                    span,
                );
            }
            Ok(Type::Boolean)
        },
        BinOp::Eq | BinOp::Ne => {
            if !matches!(t, Type::Str | Type::Char | Type::Boolean | Type::Never)
                && !t.is_numeric() {
                return operand_error(
                    "equality comparison requires a primitive operand (numeric, boolean, String, or char), got `",
                    t,
                    "`; `==` does not yet dispatch through the `Eq` aspect — use `.eq(..)` on a type that implements it",
                    span,
                );
            }
            Ok(Type::Boolean)
        },
        BinOp::And | BinOp::Or => Ok(Type::Boolean),
        BinOp::Range | BinOp::RangeInclusive => {
            let mut args: Vec<Type> = Vec::new();
            args.push(Type::I64);
            assert(types_view(args@) =~= seq![TypeV::I64]);
            Ok(Type::Named("Range".to_owned(), args))
        },
    }
}

/// Whether a chain of references grants write access: every layer above the first `&var` is a
/// shared one that only reads.
pub open spec fn grants_write(t: TypeV) -> bool
    decreases t,
{
    match t {
        TypeV::MutReference(_) => true,
        TypeV::Reference(inner) => grants_write(*inner),
        _ => false,
    }
}

/// Whether a chain of references grants write access.
pub fn type_chain_provides_mut_access(t: &Type) -> (r: bool)
    ensures
        r == grants_write(t@),
    decreases *t,
{
    match t {
        Type::MutReference(_) => true,
        Type::Reference(inner) => type_chain_provides_mut_access(inner),
        _ => false,
    }
}

/// A type as it is written in source.
pub open spec fn written_type(t: TypeV) -> TypeExprV
    decreases t,
{
    match t {
        TypeV::I64 => TypeExprV::Named("i64"@, Seq::empty()),
        TypeV::F64 => TypeExprV::Named("f64"@, Seq::empty()),
        TypeV::Boolean => TypeExprV::Named("boolean"@, Seq::empty()),
        TypeV::Char => TypeExprV::Named("Char"@, Seq::empty()),
        TypeV::Str => TypeExprV::Named("String"@, Seq::empty()),
        TypeV::Unit => TypeExprV::Unit,
        TypeV::Never => TypeExprV::Named("!"@, Seq::empty()),
        TypeV::I8 => TypeExprV::Named("i8"@, Seq::empty()),
        TypeV::I16 => TypeExprV::Named("i16"@, Seq::empty()),
        TypeV::I32 => TypeExprV::Named("i32"@, Seq::empty()),
        TypeV::U8 => TypeExprV::Named("u8"@, Seq::empty()),
        TypeV::U16 => TypeExprV::Named("u16"@, Seq::empty()),
        TypeV::U32 => TypeExprV::Named("u32"@, Seq::empty()),
        TypeV::U64 => TypeExprV::Named("u64"@, Seq::empty()),
        TypeV::F32 => TypeExprV::Named("f32"@, Seq::empty()),
        TypeV::Tuple(items) => TypeExprV::Tuple(written_types(items)),
        TypeV::Record(fields) => TypeExprV::Record(written_fields(fields)),
        TypeV::Array(item) => TypeExprV::Array(Box::new(written_type(*item))),
        TypeV::SizedArray(item, n) => TypeExprV::SizedArray(Box::new(written_type(*item)), n),
        TypeV::Reference(item) => TypeExprV::Reference(Box::new(written_type(*item))),
        TypeV::MutReference(item) => TypeExprV::MutReference(Box::new(written_type(*item))),
        TypeV::Fun(params, ret) => TypeExprV::Fun(
            written_types(params),
            Some(Box::new(written_type(*ret))),
        ),
        TypeV::Named(name, args) => TypeExprV::Named(name, written_types(args)),
    }
}

/// Types as they are written in source.
pub open spec fn written_types(s: Seq<TypeV>) -> Seq<TypeExprV>
    decreases s,
{
    Seq::new(s.len(), |i: int| if 0 <= i < s.len() { written_type(s[i]) } else { arbitrary() })
}

/// Fields as they are written in source.
pub open spec fn written_fields(s: Seq<(Seq<char>, TypeV)>) -> Seq<(Seq<char>, TypeExprV)>
    decreases s,
{
    Seq::new(
        s.len(),
        |i: int| if 0 <= i < s.len() { (s[i].0, written_type(s[i].1)) } else { arbitrary() },
    )
}

fn named(name: &str) -> (r: TypeExpr)
    ensures
        r@ == TypeExprV::Named(name@, Seq::empty()),
{
    let args: Vec<TypeExpr> = Vec::new();
    assert(type_exprs_view(args@) =~= Seq::empty());
    TypeExpr::Named(name.to_owned(), args)
}

/// A type as it is written in source.
pub fn type_to_type_expr(t: &Type) -> (r: TypeExpr)
    ensures
        r@ == written_type(t@),
    decreases *t,
{
    match t {
        Type::I64 => named("i64"),
        Type::F64 => named("f64"),
        Type::Boolean => named("boolean"),
        Type::Char => named("Char"),
        Type::Str => named("String"),
        Type::Unit => TypeExpr::Unit,
        Type::Never => named("!"),
        Type::I8 => named("i8"),
        Type::I16 => named("i16"),
        Type::I32 => named("i32"),
        Type::U8 => named("u8"),
        Type::U16 => named("u16"),
        Type::U32 => named("u32"),
        Type::U64 => named("u64"),
        Type::F32 => named("f32"),
        Type::Tuple(items) => TypeExpr::Tuple(types_to_type_exprs(items)),
        Type::Record(fields) => TypeExpr::Record(fields_to_type_exprs(fields)),
        Type::Array(item) => TypeExpr::Array(Box::new(type_to_type_expr(item))),
        Type::SizedArray(item, n) => TypeExpr::SizedArray(Box::new(type_to_type_expr(item)), *n),
        Type::Reference(item) => TypeExpr::Reference(Box::new(type_to_type_expr(item))),
        Type::MutReference(item) => TypeExpr::MutReference(Box::new(type_to_type_expr(item))),
        Type::Fun(params, ret) => TypeExpr::Fun(
            types_to_type_exprs(params),
            Some(Box::new(type_to_type_expr(ret))),
        ),
        Type::Named(name, args) => TypeExpr::Named(name.clone(), types_to_type_exprs(args)),
    }
}

fn types_to_type_exprs(v: &Vec<Type>) -> (r: Vec<TypeExpr>)
    ensures
        type_exprs_view(r@) == written_types(types_view(v@)),
    decreases v@,
{
    let mut out: Vec<TypeExpr> = Vec::new();
    let mut i: usize = 0;
    while i < v.len()
        invariant
            i <= v@.len(),
            out@.len() == i,
            forall|k: int|
                0 <= k < i ==> type_expr_view(#[trigger] out@[k]) == written_type(type_view(v@[k])),
        decreases v@.len() - i,
    {
        out.push(type_to_type_expr(&v[i]));
        i += 1;
    }
    assert(type_exprs_view(out@) =~= written_types(types_view(v@)));
    out
}

fn fields_to_type_exprs(v: &Vec<(String, Type)>) -> (r: Vec<(String, TypeExpr)>)
    ensures
        named_type_exprs_view(r@) == written_fields(named_types_view(v@)),
    decreases v@,
{
    let mut out: Vec<(String, TypeExpr)> = Vec::new();
    let mut i: usize = 0;
    while i < v.len()
        invariant
            i <= v@.len(),
            out@.len() == i,
            forall|k: int|
                0 <= k < i ==> (#[trigger] out@[k]).0@ == v@[k].0@ && type_expr_view(out@[k].1)
                    == written_type(type_view(v@[k].1)),
        decreases v@.len() - i,
    {
        out.push((v[i].0.clone(), type_to_type_expr(&v[i].1)));
        i += 1;
    }
    assert(named_type_exprs_view(out@) =~= written_fields(named_types_view(v@)));
    out
}

} // verus!
