//! The types that elaboration gives to expressions, kind by kind.
use vstd::prelude::*;
use crate::ast::{AssignOp, AssignTarget, BinOp, Block, BreakExpr, Expr, FloatKind, IntKind};
use crate::ast::{Literal, LiteralV, MatchExpr, TypeExpr, UnaryOp};
use crate::error::{MetelErrorV, TypeErrorCode};
use crate::span::{Span, SpanV};
use crate::types::{peeled, TypeV};
use super::bounds::labelled;
use super::coerce::{fitted, read_copy};
use super::rules::{block_type, merged_type};
use super::shapes::unary_expr;
use super::state::{ann_type, bound, Facts, StateV};
use super::steps::{arms_step, array_step, assign_step, binding_step, binop_step, closure_step};
use super::steps::{complete_call, expr_step, exprs_step, finish_call, if_step, index_step};
use super::steps::{left_step, match_step, named_step, operands_step, record_step};
use super::tree::{tree_ty, ArmT, BlockT, DeclT, ExprT, StmtT};

verus! {

/// Whether a type is one of the numbers.
pub open spec fn is_number(t: TypeV) -> bool {
    ||| t == TypeV::I8
    ||| t == TypeV::I16
    ||| t == TypeV::I32
    ||| t == TypeV::I64
    ||| t == TypeV::U8
    ||| t == TypeV::U16
    ||| t == TypeV::U32
    ||| t == TypeV::U64
    ||| t == TypeV::F32
    ||| t == TypeV::F64
}

/// The type that a node carries is the type of the tree: of a `return`, a `break` and a
/// `continue` it is `!`.
pub proof fn law_a_tree_has_the_type_it_carries(
    a: ExprT,
    b: ExprT,
    s: Seq<ExprT>,
    fields: Seq<(Seq<char>, ExprT)>,
    name: Seq<char>,
    op: BinOp,
    unary: UnaryOp,
    arms: Seq<ArmT>,
    block: BlockT,
    lit: LiteralV,
    i: usize,
    t: TypeV,
    span: SpanV,
)
    ensures
        tree_ty(ExprT::Literal(lit, t, span)) == t,
        tree_ty(ExprT::Ident(name, t, span)) == t,
        tree_ty(ExprT::Tuple(s, t, span)) == t,
        tree_ty(ExprT::Array(s, t, span)) == t,
        tree_ty(ExprT::RecordLiteral { fields, ty: t, span }) == t,
        tree_ty(ExprT::BinOp(Box::new(a), op, Box::new(b), t, span)) == t,
        tree_ty(ExprT::UnaryOp(unary, Box::new(a), t, span)) == t,
        tree_ty(ExprT::FieldAccess { object: Box::new(a), field: name, ty: t, span }) == t,
        tree_ty(ExprT::TupleAccess { object: Box::new(a), index: i, ty: t, span }) == t,
        tree_ty(ExprT::Index { object: Box::new(a), index: Box::new(b), ty: t, span }) == t,
        tree_ty(ExprT::Call { callee: Box::new(a), args: s, ty: t, callee_id: None, span }) == t,
        tree_ty(ExprT::Match { scrutinee: Box::new(a), arms, ty: t, span }) == t,
        tree_ty(
            ExprT::If { condition: Box::new(a), taken: block, other: Some(block), ty: t, span },
        ) == t,
        tree_ty(ExprT::Loop { body: block, ty: t, span }) == t,
        tree_ty(ExprT::Return(Some(Box::new(a)), span)) == TypeV::Never,
        tree_ty(ExprT::Break(Some(Box::new(a)), span)) == TypeV::Never,
        tree_ty(ExprT::Continue(span)) == TypeV::Never,
{
}

/// Whether an operator compares or combines truth values.
pub open spec fn tells_truth(op: BinOp) -> bool {
    ||| op == BinOp::Lt
    ||| op == BinOp::Le
    ||| op == BinOp::Gt
    ||| op == BinOp::Ge
    ||| op == BinOp::Eq
    ||| op == BinOp::Ne
    ||| op == BinOp::And
    ||| op == BinOp::Or
}

/// Whether an operator is one of arithmetic.
pub open spec fn calculates(op: BinOp) -> bool {
    ||| op == BinOp::Add
    ||| op == BinOp::Sub
    ||| op == BinOp::Mul
    ||| op == BinOp::Div
    ||| op == BinOp::Rem
}

/// A binary operation that is elaborated keeps its operator and has its operands on their sides. A
/// comparison, `&&` and `||` are boolean; arithmetic has the type of its left operand, which is a
/// number (or a string, for `+`); a range is one of `i64`.
pub proof fn law_operations_have_their_types(
    fx: Facts,
    n: nat,
    left: Expr,
    op: BinOp,
    right: Expr,
    span: Span,
    hint: Option<TypeV>,
    st: StateV,
)
    ensures
        expr_step(
            fx,
            n,
            Expr::BinOp(Box::new(left), op, Box::new(right), span),
            hint,
            st,
        ).out matches Ok(t) ==> {
            &&& t matches ExprT::BinOp(l, o, r, ty, at) && {
                &&& o == op
                &&& at == span@
                &&& tree_ty(t) == ty
                &&& tells_truth(op) ==> ty == TypeV::Boolean
                &&& calculates(op) ==> ty == tree_ty(*l) && (is_number(ty) || ty == TypeV::Never || (
                op == BinOp::Add && ty == TypeV::Str))
                &&& op == BinOp::Range || op == BinOp::RangeInclusive ==> ty == TypeV::Named(
                    "Range"@,
                    seq![TypeV::I64],
                )
                &&& op == BinOp::Lt || op == BinOp::Le || op == BinOp::Gt || op == BinOp::Ge ==> (
                is_number(tree_ty(*l)) || tree_ty(*l) == TypeV::Str || tree_ty(*l) == TypeV::Char
                    || tree_ty(*l) == TypeV::Never)
                &&& op == BinOp::Eq || op == BinOp::Ne ==> (is_number(tree_ty(*l)) || tree_ty(*l)
                    == TypeV::Str || tree_ty(*l) == TypeV::Char || tree_ty(*l) == TypeV::Boolean
                    || tree_ty(*l) == TypeV::Never)
                &&& exists|h: Option<TypeV>, s: StateV| #[trigger]
                    expr_step(fx, n, left, h, s).out == Ok::<ExprT, MetelErrorV>(*l)
                &&& exists|h: Option<TypeV>, s: StateV| #[trigger]
                    expr_step(fx, n, right, h, s).out == Ok::<ExprT, MetelErrorV>(*r)
            }
        },
{
    let e = Expr::BinOp(Box::new(left), op, Box::new(right), span);
    assert(expr_step(fx, n, e, hint, st) == binop_step(fx, n, e, st));
    let x = operands_step(fx, n, e, st);
    lemma_operands(fx, n, left, op, right, span, st);
}

proof fn lemma_operands(
    fx: Facts,
    n: nat,
    left: Expr,
    op: BinOp,
    right: Expr,
    span: Span,
    st: StateV,
)
    ensures
        operands_step(fx, n, Expr::BinOp(Box::new(left), op, Box::new(right), span), st).out
            matches Ok(p) ==> {
            &&& exists|h: Option<TypeV>, s: StateV| #[trigger]
                expr_step(fx, n, left, h, s).out == Ok::<ExprT, MetelErrorV>(p.0)
            &&& exists|h: Option<TypeV>, s: StateV| #[trigger]
                expr_step(fx, n, right, h, s).out == Ok::<ExprT, MetelErrorV>(p.1)
        },
{
    let e = Expr::BinOp(Box::new(left), op, Box::new(right), span);
    let a = expr_step(fx, n, left, None, st);
    if let Ok(l) = a.out {
        let b = expr_step(fx, n, right, None, a.st);
        if let Ok(r) = b.out {
            let c = expr_step(fx, n, left, Some(tree_ty(r)), b.st);
            let d = expr_step(fx, n, right, Some(tree_ty(l)), b.st);
            let x = operands_step(fx, n, e, st);
            assert(x.out matches Ok(p) ==> (p.0 == l || c.out == Ok::<ExprT, MetelErrorV>(p.0)));
            assert(x.out matches Ok(p) ==> (p.1 == r || d.out == Ok::<ExprT, MetelErrorV>(p.1)));
        }
    }
}

/// An operation on operands of one type that its operator takes is accepted: arithmetic and
/// comparison on numbers, `+` and comparison on strings, equality on booleans and characters, `&&`
/// and `||` on anything.
pub proof fn law_fitting_operands_are_accepted(
    fx: Facts,
    n: nat,
    left: Expr,
    op: BinOp,
    right: Expr,
    span: Span,
    hint: Option<TypeV>,
    st: StateV,
    l: ExprT,
    r: ExprT,
)
    requires
        expr_step(fx, n, left, None, st).out == Ok::<ExprT, MetelErrorV>(l),
        expr_step(fx, n, right, None, expr_step(fx, n, left, None, st).st).out == Ok::<
            ExprT,
            MetelErrorV,
        >(r),
        tree_ty(l) == tree_ty(r),
        is_number(tree_ty(l)) || op == BinOp::And || op == BinOp::Or || (tree_ty(l) == TypeV::Str && (
        op == BinOp::Add || (tells_truth(op)))) || (tree_ty(l) == TypeV::Char && tells_truth(op))
            || (tree_ty(l) == TypeV::Boolean && (op == BinOp::Eq || op == BinOp::Ne)),
    ensures
        expr_step(
            fx,
            n,
            Expr::BinOp(Box::new(left), op, Box::new(right), span),
            hint,
            st,
        ).out matches Ok(ExprT::BinOp(x, _, y, _, _)) && *x == l && *y == r,
{
    let e = Expr::BinOp(Box::new(left), op, Box::new(right), span);
    assert(expr_step(fx, n, e, hint, st) == binop_step(fx, n, e, st));
    let x = operands_step(fx, n, e, st);
    assert(x.out == Ok::<(ExprT, ExprT), MetelErrorV>((l, r)));
}

/// An operand under a unary operator: a negation has the type of its operand, which is a number; a
/// denial is boolean; a reference refers to the type of its operand, shared or not; and what a
/// reference refers to has the type that the reference says.
pub proof fn law_unary_operations_have_their_types(
    fx: Facts,
    n: nat,
    op: UnaryOp,
    operand: Expr,
    span: Span,
    hint: Option<TypeV>,
    st: StateV,
)
    ensures
        expr_step(fx, n, Expr::UnaryOp(op, Box::new(operand), span), hint, st).out
            matches Ok(t) ==> exists|h: Option<TypeV>|
            (#[trigger] expr_step(fx, n, operand, h, st)).out matches Ok(e) && under(
                op,
                e,
                t,
                span@,
            ),
{
    let h = super::shapes::operand_hint(op, hint);
    let x = expr_step(fx, n, operand, h, st);
    if let Ok(e) = x.out {
        if let Ok(t) = unary_expr(op, e, span@) {
            assert(under(op, e, t, span@));
        }
    }
}

/// Whether a tree is an operand under a unary operator.
pub open spec fn under(op: UnaryOp, e: ExprT, t: ExprT, span: SpanV) -> bool {
    let ty = tree_ty(e);
    match op {
        UnaryOp::Neg => t == ExprT::UnaryOp(op, Box::new(e), ty, span) && (is_number(ty) || ty
            == TypeV::Never),
        UnaryOp::Not => t == ExprT::UnaryOp(op, Box::new(e), TypeV::Boolean, span),
        UnaryOp::Ref => {
            let r = TypeV::Reference(Box::new(ty));
            t == ExprT::UnaryOp(op, Box::new(e), r, span) || t == (ExprT::RefTemp {
                init: Box::new(e),
                mutable: false,
                ty: r,
                span,
            })
        },
        UnaryOp::RefMut => {
            let r = TypeV::MutReference(Box::new(ty));
            t == ExprT::UnaryOp(op, Box::new(e), r, span) || t == (ExprT::RefTemp {
                init: Box::new(e),
                mutable: true,
                ty: r,
                span,
            })
        },
        UnaryOp::Deref => t matches ExprT::UnaryOp(o, x, inner, at) && o == op && *x == e && at
            == span && (ty == TypeV::Reference(Box::new(inner)) || ty == TypeV::MutReference(
            Box::new(inner),
        )),
    }
}

/// A literal keeps its value. A number has the type that is expected where that is a number, and
/// `i64` or `f64` where nothing is; one with a suffix has the type of its suffix; the others have
/// their own.
pub proof fn law_literals_have_their_types(
    fx: Facts,
    n: nat,
    lit: Literal,
    span: Span,
    hint: Option<TypeV>,
    st: StateV,
)
    ensures
        expr_step(fx, n, Expr::Literal(lit, span), hint, st).st == st,
        expr_step(fx, n, Expr::Literal(lit, span), hint, st).out matches Ok(t) ==> {
            &&& t matches ExprT::Literal(v, ty, at) && v == lit@ && at == span@ && match v {
                LiteralV::Int(k) => {
                    &&& is_number(ty)
                    &&& hint is None ==> ty == TypeV::I64
                    &&& hint matches Some(h) ==> (if is_number(h) {
                        ty == h
                    } else {
                        ty == TypeV::I64
                    })
                    &&& k < 0 ==> ty != TypeV::U64
                },
                LiteralV::Float(_) => ty == (if hint == Some(TypeV::F32) {
                    TypeV::F32
                } else {
                    TypeV::F64
                }),
                LiteralV::SizedInt { kind, .. } => match kind {
                    IntKind::I8 => ty == TypeV::I8,
                    IntKind::I16 => ty == TypeV::I16,
                    IntKind::I32 => ty == TypeV::I32,
                    IntKind::I64 => ty == TypeV::I64,
                    IntKind::U8 => ty == TypeV::U8,
                    IntKind::U16 => ty == TypeV::U16,
                    IntKind::U32 => ty == TypeV::U32,
                    IntKind::U64 => ty == TypeV::U64,
                },
                LiteralV::SizedFloat { kind, .. } => match kind {
                    FloatKind::F32 => ty == TypeV::F32,
                    FloatKind::F64 => ty == TypeV::F64,
                },
                LiteralV::Char(_) => ty == TypeV::Char,
                LiteralV::Boolean(_) => ty == TypeV::Boolean,
                LiteralV::Str(_) => ty == TypeV::Str,
                LiteralV::Unit => ty == TypeV::Unit,
            }
        },
        expr_step(fx, n, Expr::Literal(lit, span), hint, st).out is Err ==> (lit@
            matches LiteralV::Int(k) && k < 0 && hint == Some(TypeV::U64)),
{
}

/// A name that is bound is a variable of the type it is bound to.
pub proof fn law_variables_have_the_types_they_are_bound_to(
    fx: Facts,
    n: nat,
    name: String,
    span: Span,
    hint: Option<TypeV>,
    st: StateV,
    ty: TypeV,
)
    requires
        st.scopes.len() > 0,
    ensures
        expr_step(fx, n, Expr::Ident(name, span), hint, bound(st, name@, ty)).out == Ok::<
            ExprT,
            MetelErrorV,
        >(ExprT::Ident(name@, ty, span@)),
{
    super::laws::law_a_binding_shadows(st, name@, name@, ty);
}

proof fn lemma_exprs(
    fx: Facts,
    n: nat,
    s: Seq<Expr>,
    hint: Option<TypeV>,
    st: StateV,
    k: int,
    i: int,
)
    requires
        0 <= i < k <= s.len(),
    ensures
        exprs_step(fx, n, s, hint, st, k).out matches Ok(items) ==> items.len() == k && exists|
            x: StateV,
        | #[trigger] expr_step(fx, n, s[i], hint, x).out == Ok::<ExprT, MetelErrorV>(items[i]),
    decreases k,
{
    let before = exprs_step(fx, n, s, hint, st, k - 1);
    if let Ok(items) = before.out {
        let x = expr_step(fx, n, s[k - 1], hint, before.st);
        if k - 1 > 0 {
            lemma_exprs(fx, n, s, hint, st, k - 1, if i < k - 1 { i } else { 0 });
        } else {
            assert(items.len() == 0);
        }
        if let Ok(t) = x.out {
            assert(exprs_step(fx, n, s, hint, st, k).out == Ok::<Seq<ExprT>, MetelErrorV>(
                items.push(t),
            ));
        }
    }
}

/// The type of a tuple is that of its elements, one by one; each element is elaborated from the
/// one at its position.
pub proof fn law_tuples_have_the_types_of_their_elements(
    fx: Facts,
    n: nat,
    items: Vec<Expr>,
    span: Span,
    hint: Option<TypeV>,
    st: StateV,
    i: int,
)
    requires
        0 <= i < items@.len(),
    ensures
        expr_step(fx, n, Expr::Tuple(items, span), hint, st).out matches Ok(t) ==> (t
            matches ExprT::Tuple(s, ty, at) && ty matches TypeV::Tuple(types) && s.len()
            == items@.len() && types.len() == items@.len() && types[i] == tree_ty(s[i]) && at
            == span@ && exists|x: StateV| #[trigger]
            expr_step(fx, n, items@[i], None, x).out == Ok::<ExprT, MetelErrorV>(s[i])),
{
    lemma_exprs(fx, n, items@, None, st, items@.len() as int, i);
}

/// An array literal has its elements in order. Where nothing is expected it is an array of the
/// type of its first element; where an array is expected it is of that type.
pub proof fn law_arrays_have_the_type_of_their_elements(
    fx: Facts,
    n: nat,
    items: Vec<Expr>,
    span: Span,
    hint: Option<TypeV>,
    st: StateV,
    i: int,
)
    requires
        0 <= i < items@.len(),
    ensures
        expr_step(fx, n, Expr::Array(items, span), hint, st).out matches Ok(t) ==> (t
            matches ExprT::Array(s, ty, at) && {
            &&& s.len() == items@.len()
            &&& at == span@
            &&& hint is None ==> ty == TypeV::Array(Box::new(tree_ty(s[0])))
            &&& hint matches Some(TypeV::Array(item)) ==> ty == TypeV::Array(item)
            &&& hint matches Some(TypeV::SizedArray(item, len)) ==> ty == TypeV::SizedArray(
                item,
                len,
            ) && len == s.len()
            &&& exists|h: Option<TypeV>, x: StateV| #[trigger]
                expr_step(fx, n, items@[i], h, x).out == Ok::<ExprT, MetelErrorV>(s[i])
        }),
{
    let e = Expr::Array(items, span);
    assert(expr_step(fx, n, e, hint, st) == array_step(fx, n, e, hint, st));
    let h = super::steps::item_hint(hint);
    lemma_exprs(fx, n, items@, h, st, items@.len() as int, i);
}

/// An array that repeats a value has the type of the value and the count as its length.
pub proof fn law_repeated_arrays_have_their_length(
    fx: Facts,
    n: nat,
    item: Expr,
    count: u64,
    span: Span,
    hint: Option<TypeV>,
    st: StateV,
)
    ensures
        expr_step(fx, n, Expr::RepeatArray(Box::new(item), count, span), hint, st).out
            matches Ok(t) ==> (t matches ExprT::RepeatArray(x, k, ty, _) && k == count && ty
            == TypeV::SizedArray(Box::new(tree_ty(*x)), count)),
{
}

/// An element that is read is of the element type of its array, and its index is a `u64`.
pub proof fn law_elements_have_the_type_of_their_array(
    fx: Facts,
    n: nat,
    object: Expr,
    index: Expr,
    span: Span,
    hint: Option<TypeV>,
    st: StateV,
)
    ensures
        expr_step(
            fx,
            n,
            Expr::Index { object: Box::new(object), index: Box::new(index), span },
            hint,
            st,
        ).out matches Ok(t) ==> (t matches ExprT::Index { object: o, index: i, ty, span: at } && {
            &&& at == span@
            &&& tree_ty(*i) == TypeV::U64
            &&& match peeled(tree_ty(*o)) {
                TypeV::SizedArray(item, _) => *item == ty,
                TypeV::Array(item) => *item == ty,
                _ => false,
            }
            &&& expr_step(fx, n, object, None, st).out == Ok::<ExprT, MetelErrorV>(*o)
        }),
{
    let e = Expr::Index { object: Box::new(object), index: Box::new(index), span };
    assert(expr_step(fx, n, e, hint, st) == index_step(fx, n, e, st));
}

/// The references around a type are taken off one after the other, and nothing else is.
pub proof fn law_references_are_taken_off(t: TypeV)
    ensures
        peeled(TypeV::Reference(Box::new(t))) == peeled(t),
        peeled(TypeV::MutReference(Box::new(t))) == peeled(t),
        !(t is Reference) && !(t is MutReference) ==> peeled(t) == t,
        !(peeled(t) is Reference) && !(peeled(t) is MutReference),
    decreases t,
{
    match t {
        TypeV::Reference(x) => law_references_are_taken_off(*x),
        TypeV::MutReference(x) => law_references_are_taken_off(*x),
        _ => {},
    }
}

/// The element of a tuple at a position has the type at that position.
pub proof fn law_tuple_elements_go_by_position(
    fx: Facts,
    n: nat,
    object: Expr,
    index: usize,
    span: Span,
    hint: Option<TypeV>,
    st: StateV,
)
    ensures
        expr_step(
            fx,
            n,
            Expr::TupleAccess { object: Box::new(object), index, span },
            hint,
            st,
        ).out matches Ok(t) ==> (t matches ExprT::TupleAccess { object: o, index: i, ty, .. }
            && peeled(tree_ty(*o)) matches TypeV::Tuple(items) && i == index && index < items.len()
            && ty == items[index as int] && expr_step(fx, n, object, None, st).out == Ok::<
            ExprT,
            MetelErrorV,
        >(*o)),
{
}

/// A field of a record has the type that the record type has under its name: the first one.
pub proof fn law_record_fields_go_by_name(
    fx: Facts,
    n: nat,
    object: Expr,
    field: String,
    span: Span,
    hint: Option<TypeV>,
    st: StateV,
    o: ExprT,
    fields: Seq<(Seq<char>, TypeV)>,
    k: int,
)
    requires
        expr_step(fx, n, object, None, st).out == Ok::<ExprT, MetelErrorV>(o),
        peeled(tree_ty(o)) == TypeV::Record(fields),
        0 <= k < fields.len(),
        fields[k].0 == field@,
        forall|j: int| 0 <= j < k ==> (#[trigger] fields[j]).0 != field@,
    ensures
        expr_step(
            fx,
            n,
            Expr::FieldAccess { object: Box::new(object), field, span },
            hint,
            st,
        ).out == Ok::<ExprT, MetelErrorV>(
            ExprT::FieldAccess {
                object: Box::new(o),
                field: field@,
                ty: fields[k].1,
                span: span@,
            },
        ),
{
    lemma_labelled(fields, field@, k);
}

proof fn lemma_labelled(s: Seq<(Seq<char>, TypeV)>, name: Seq<char>, k: int)
    requires
        0 <= k < s.len(),
        s[k].0 == name,
        forall|j: int| 0 <= j < k ==> (#[trigger] s[j]).0 != name,
    ensures
        labelled(s, name) == Some(s[k]),
    decreases k,
{
    if k > 0 {
        assert(s[0].0 != name);
        let rest = s.skip(1);
        assert forall|j: int| 0 <= j < k - 1 implies (#[trigger] rest[j]).0 != name by {
            assert(rest[j] == s[j + 1]);
        }
        lemma_labelled(rest, name, k - 1);
        assert(labelled(s, name) == labelled(rest, name));
    }
}

/// A conditional without `else` is `()`. One with `else` diverges if both branches do, and else
/// has the type of the first branch that does not.
pub proof fn law_conditionals_have_the_type_of_a_branch(
    fx: Facts,
    n: nat,
    condition: Expr,
    then_branch: Block,
    else_branch: Option<Block>,
    span: Span,
    hint: Option<TypeV>,
    st: StateV,
)
    ensures
        expr_step(
            fx,
            n,
            Expr::If { condition: Box::new(condition), then_branch, else_branch, span },
            hint,
            st,
        ).out matches Ok(t) ==> (t matches ExprT::If { condition: c, taken, other, ty, .. } && {
            &&& expr_step(fx, n, condition, None, st).out == Ok::<ExprT, MetelErrorV>(*c)
            &&& other is None <==> else_branch is None
            &&& match other {
                None => ty == TypeV::Unit,
                Some(o) => if block_type(taken) != TypeV::Never {
                    ty == block_type(taken)
                } else {
                    ty == block_type(o)
                },
            }
        }),
{
    let e = Expr::If { condition: Box::new(condition), then_branch, else_branch, span };
    assert(expr_step(fx, n, e, hint, st) == if_step(fx, n, e, hint, st));
    if let Ok(t) = if_step(fx, n, e, hint, st).out {
        if let ExprT::If { taken, other, .. } = t {
            if let Some(o) = other {
                lemma_two_merged(block_type(taken), block_type(o));
            }
        }
    }
}

proof fn lemma_two_merged(a: TypeV, b: TypeV)
    ensures
        merged_type(seq![a, b]) == (if a != TypeV::Never {
            a
        } else {
            b
        }),
{
    reveal_with_fuel(merged_type, 3);
    let s = seq![a, b];
    assert(s.skip(1) =~= seq![b]);
    assert(s.skip(1).skip(1) =~= Seq::empty());
}

/// The type of a block is that of its tail. Without a tail it is `()`, or `!` where its last
/// statement diverges.
pub proof fn law_blocks_have_the_type_of_their_tail(b: BlockT, e: ExprT)
    ensures
        b.tail == Some(Box::new(e)) ==> block_type(b) == tree_ty(e),
        b.tail is None && b.stmts.len() == 0 ==> block_type(b) == TypeV::Unit,
        b.tail is None && b.stmts.len() > 0 && b.stmts[b.stmts.len() - 1] == DeclT::Stmt(
            Box::new(StmtT::Expr(e)),
        ) ==> block_type(b) == (if tree_ty(e) == TypeV::Never {
            TypeV::Never
        } else {
            TypeV::Unit
        }),
{
}

/// An assignment is `()`, keeps its operator, and assigns the value that is elaborated.
pub proof fn law_assignments_are_unit(
    fx: Facts,
    n: nat,
    target: AssignTarget,
    op: AssignOp,
    value: Expr,
    span: Span,
    hint: Option<TypeV>,
    st: StateV,
)
    ensures
        expr_step(
            fx,
            n,
            Expr::Assign { target, op, value: Box::new(value), span },
            hint,
            st,
        ).out matches Ok(t) ==> (t matches ExprT::Assign { op: o, value: v, ty, .. } && o == op && ty
            == TypeV::Unit && exists|h: Option<TypeV>, s: StateV| #[trigger]
            expr_step(fx, n, value, h, s).out == Ok::<ExprT, MetelErrorV>(*v)),
{
    let e = Expr::Assign { target, op, value: Box::new(value), span };
    assert(expr_step(fx, n, e, hint, st) == assign_step(fx, n, e, st));
    let h = super::steps::target_hint(fx, n, target, st);
    let x = expr_step(fx, n, value, h.0, h.1);
}

/// A cast has the type it is written with, and an ascription fits its expression to that type.
pub proof fn law_casts_have_the_type_they_name(
    fx: Facts,
    n: nat,
    expr: Expr,
    target: TypeExpr,
    span: Span,
    hint: Option<TypeV>,
    st: StateV,
)
    ensures
        expr_step(
            fx,
            n,
            Expr::Cast { expr: Box::new(expr), target_type: target, span },
            hint,
            st,
        ).out matches Ok(t) ==> (t matches ExprT::Cast { expr: x, ty, .. } && expr_step(
            fx,
            n,
            expr,
            None,
            st,
        ).out == Ok::<ExprT, MetelErrorV>(*x) && ann_type(
            fx,
            expr_step(fx, n, expr, None, st).st,
            target@,
            span@,
        ) == Ok::<TypeV, MetelErrorV>(ty)),
{
}

/// A closure is a function from the types of its parameters to the type of its result.
pub proof fn law_closures_are_functions(
    fx: Facts,
    n: nat,
    e: Expr,
    hint: Option<TypeV>,
    st: StateV,
)
    requires
        e is Closure,
    ensures
        expr_step(fx, n, e, hint, st).out matches Ok(t) ==> (t matches ExprT::Closure { params, ty, .. }
            && params == e->Closure_params && ty is Fun),
{
    assert(expr_step(fx, n, e, hint, st) == closure_step(fx, n, e, st));
}

/// A record literal has its fields in order under their names; without a record type that is
/// expected, its type has them so too.
pub proof fn law_records_have_the_types_of_their_fields(
    fx: Facts,
    n: nat,
    fields: Vec<(String, Expr)>,
    span: Span,
    st: StateV,
    i: int,
)
    requires
        0 <= i < fields@.len(),
    ensures
        expr_step(fx, n, Expr::RecordLiteral { fields, span }, None, st).out matches Ok(t) ==> (t
            matches ExprT::RecordLiteral { fields: s, ty, .. } && ty matches TypeV::Record(types) && {
            &&& s.len() == fields@.len()
            &&& types.len() == fields@.len()
            &&& s[i].0 == fields@[i].0@
            &&& types[i] == (fields@[i].0@, tree_ty(s[i].1))
        }),
{
    let e = Expr::RecordLiteral { fields, span };
    assert(expr_step(fx, n, e, None, st) == record_step(fx, n, e, None, st));
    lemma_named(fx, n, fields@, Seq::empty(), st, fields@.len() as int, i);
}

proof fn lemma_named(
    fx: Facts,
    n: nat,
    s: Seq<(String, Expr)>,
    hints: Seq<(Seq<char>, TypeV)>,
    st: StateV,
    k: int,
    i: int,
)
    requires
        0 <= i < k <= s.len(),
    ensures
        named_step(fx, n, s, hints, st, k).out matches Ok(items) ==> items.len() == k && items[i].0
            == s[i].0@,
    decreases k,
{
    let before = named_step(fx, n, s, hints, st, k - 1);
    if let Ok(items) = before.out {
        if k - 1 > 0 {
            lemma_named(fx, n, s, hints, st, k - 1, if i < k - 1 { i } else { 0 });
        } else {
            assert(items.len() == 0);
        }
    }
}

/// `break` and `continue` are refused outside of loops.
pub proof fn law_loops_are_left_from_inside(
    fx: Facts,
    n: nat,
    b: BreakExpr,
    span: Span,
    hint: Option<TypeV>,
    st: StateV,
)
    ensures
        st.depth == 0 ==> (expr_step(fx, n, Expr::Break(b), hint, st).out matches Err(
            MetelErrorV::TypeError { code, span: at, .. },
        ) && code == TypeErrorCode::T0021 && at == b.span@),
        st.depth == 0 ==> (expr_step(fx, n, Expr::Continue(span), hint, st).out matches Err(
            MetelErrorV::TypeError { code, span: at, .. },
        ) && code == TypeErrorCode::T0021 && at == span@),
        st.depth > 0 ==> expr_step(fx, n, Expr::Continue(span), hint, st).out == Ok::<
            ExprT,
            MetelErrorV,
        >(ExprT::Continue(span@)),
        st.depth > 0 && b.value is None ==> expr_step(fx, n, Expr::Break(b), hint, st).out == Ok::<
            ExprT,
            MetelErrorV,
        >(ExprT::Break(None, b.span@)),
{
    assert(left_step(fx, n, b.value, st.brk, st).out == Ok::<Option<Box<ExprT>>, MetelErrorV>(None)
        || b.value is Some);
}

/// A binding has the type that is written for it, or else the type of its value.
pub proof fn law_bindings_have_the_type_of_their_value(
    fx: Facts,
    n: nat,
    name: Seq<char>,
    value: Expr,
    span: SpanV,
    st: StateV,
)
    ensures
        ({
            let b = binding_step(fx, n, name, None, value, span, st);
            b.out matches Ok(t) ==> {
                &&& t.name == name
                &&& expr_step(fx, n, value, None, st).out == Ok::<ExprT, MetelErrorV>(t.value)
                &&& b.st == bound(expr_step(fx, n, value, None, st).st, name, tree_ty(t.value))
            }
        }),
{
}

/// A call passes the arguments one by one, as many as its callee takes, and has the type that the
/// callee returns, be it a function or a reference to one.
pub proof fn law_calls_have_the_type_their_callee_returns(
    fx: Facts,
    n: nat,
    e: Expr,
    callee: ExprT,
    s: Seq<ExprT>,
    explicit: bool,
    st: StateV,
)
    requires
        e is Call,
    ensures
        finish_call(fx, n, e, callee, s, explicit, st).out matches Ok(t) ==> (t
            matches ExprT::Call { callee: c, args, ty, .. } && *c == callee && {
            let f = tree_ty(callee);
            ||| f matches TypeV::Fun(params, ret) && *ret == ty && params.len() == args.len()
            ||| f matches TypeV::Reference(inner) && *inner matches TypeV::Fun(params, ret) && *ret
                == ty && params.len() == args.len()
            ||| f matches TypeV::MutReference(inner) && *inner matches TypeV::Fun(params, ret)
                && *ret == ty && params.len() == args.len()
        }),
{
    if let Expr::Call { callee: source, args, span, .. } = e {
        let fun = super::calls::called(tree_ty(callee));
        let x = super::steps::retyped_args(fx, n, args@, fun, s, st);
        assert(finish_call(fx, n, e, callee, s, explicit, st).out == match x.out {
            Err(f) => Err(f),
            Ok(a) => complete_call(fx, *source, callee, fun, a, explicit, span@),
        });
    }
}

/// A match has as many arms as are written, and the type of the first arm that does not diverge.
pub proof fn law_matches_have_the_type_of_an_arm(
    fx: Facts,
    n: nat,
    m: MatchExpr,
    hint: Option<TypeV>,
    st: StateV,
)
    ensures
        expr_step(fx, n, Expr::Match(m), hint, st).out matches Ok(t) ==> (t matches ExprT::Match {
            scrutinee,
            arms,
            ty,
            ..
        } && {
            &&& expr_step(fx, n, *m.scrutinee, None, st).out == Ok::<ExprT, MetelErrorV>(*scrutinee)
            &&& arms.len() == m.arms@.len()
            &&& forall|k: int|
                0 <= k < arms.len() && block_type((#[trigger] arms[k]).body) != TypeV::Never && (
                forall|j: int| 0 <= j < k ==> block_type((#[trigger] arms[j]).body) == TypeV::Never)
                    ==> ty == block_type(arms[k].body)
            &&& (forall|j: int|
                0 <= j < arms.len() ==> block_type((#[trigger] arms[j]).body) == TypeV::Never) ==> ty
                == TypeV::Never
        }),
{
    let e = Expr::Match(m);
    assert(expr_step(fx, n, e, hint, st) == match_step(fx, n, e, hint, st));
    let x = expr_step(fx, n, *m.scrutinee, None, st);
    if let Ok(scrutinee) = x.out {
        let ty = peeled(tree_ty(scrutinee));
        let y = arms_step(fx, n, m.arms@, ty, hint, x.st, m.arms@.len() as int);
        lemma_arms(fx, n, m.arms@, ty, hint, x.st, m.arms@.len() as int);
        if let Ok(arms) = y.out {
            let s = super::steps::arm_types(arms);
            assert forall|k: int|
                0 <= k < arms.len() && block_type((#[trigger] arms[k]).body) != TypeV::Never && (
                forall|j: int| 0 <= j < k ==> block_type((#[trigger] arms[j]).body) == TypeV::Never)
                implies merged_type(s) == block_type(arms[k].body) by {
                assert forall|j: int| 0 <= j < k implies (#[trigger] s[j]) == TypeV::Never by {
                    assert(block_type(arms[j].body) == TypeV::Never);
                }
                lemma_merged_at(s, k);
            }
            super::laws::law_branches_diverge_together(s);
            if forall|j: int|
                0 <= j < arms.len() ==> block_type((#[trigger] arms[j]).body) == TypeV::Never {
                assert forall|i: int| 0 <= i < s.len() implies (#[trigger] s[i]) is Never by {
                    assert(block_type(arms[i].body) == TypeV::Never);
                }
            }
        }
    }
}

proof fn lemma_merged_at(s: Seq<TypeV>, k: int)
    requires
        0 <= k < s.len(),
        s[k] != TypeV::Never,
        forall|j: int| 0 <= j < k ==> (#[trigger] s[j]) == TypeV::Never,
    ensures
        merged_type(s) == s[k],
    decreases k,
{
    if k > 0 {
        assert(s[0] == TypeV::Never);
        let rest = s.skip(1);
        assert forall|j: int| 0 <= j < k - 1 implies (#[trigger] rest[j]) == TypeV::Never by {
            assert(rest[j] == s[j + 1]);
        }
        lemma_merged_at(rest, k - 1);
    }
}

proof fn lemma_arms(
    fx: Facts,
    n: nat,
    s: Seq<crate::ast::MatchArm>,
    ty: TypeV,
    hint: Option<TypeV>,
    st: StateV,
    k: int,
)
    requires
        0 <= k <= s.len(),
    ensures
        arms_step(fx, n, s, ty, hint, st, k).out matches Ok(arms) ==> arms.len() == k,
    decreases k,
{
    if k > 0 {
        lemma_arms(fx, n, s, ty, hint, st, k - 1);
    }
}

/// A value where a type is expected keeps what it is unless it is taken out of references, or is
/// the only field that its enum can have; then it has the type that is expected.
pub proof fn law_a_value_fits_what_is_expected(
    fx: Facts,
    expected: TypeV,
    e: ExprT,
    span: SpanV,
)
    ensures
        tree_ty(e) == expected ==> fitted(fx, Some(expected), e, span) == Ok::<ExprT, MetelErrorV>(
            e,
        ),
        fitted(fx, None, e, span) == Ok::<ExprT, MetelErrorV>(e),
        fitted(fx, Some(expected), e, span) matches Ok(x) ==> (x is SingletonCoerce ==> x == e
            || tree_ty(x) == expected),
{
    if let Ok(y) = read_copy(fx, expected, e, span) {
        lemma_read(fx, expected, e, span);
    }
}

proof fn lemma_read(fx: Facts, expected: TypeV, e: ExprT, span: SpanV)
    ensures
        read_copy(fx, expected, e, span) matches Ok(y) ==> (y == e || y is UnaryOp),
{
    lemma_followed_form(e, tree_ty(e), expected, span);
}

proof fn lemma_followed_form(e: ExprT, t: TypeV, expected: TypeV, span: SpanV)
    ensures
        super::coerce::followed(e, t, expected, span) == e || super::coerce::followed(
            e,
            t,
            expected,
            span,
        ) is UnaryOp,
    decreases t,
{
    if t != expected {
        match t {
            TypeV::Reference(inner) => lemma_followed_form(
                ExprT::UnaryOp(UnaryOp::Deref, Box::new(e), *inner, span),
                *inner,
                expected,
                span,
            ),
            TypeV::MutReference(inner) => lemma_followed_form(
                ExprT::UnaryOp(UnaryOp::Deref, Box::new(e), *inner, span),
                *inner,
                expected,
                span,
            ),
            _ => {},
        }
    }
}

} // verus!
