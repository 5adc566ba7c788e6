//! Which variables a method has of its own, and what its arguments are expected to be.
use vstd::prelude::*;
use crate::ast::Expr;
use crate::infer::{lowered, resolved, substituted, InferTypeV, TypeVar};
use crate::types::TypeV;
use super::calls::{call_hints, called, method_hints, method_vars, own_of, vars_in, vars_in_all};
use super::calls::{vars_in_fields, with_var};
use super::state::{var_of, StateV};

verus! {

/// Whether a variable occurs in a type.
pub open spec fn occurs(t: InferTypeV, v: TypeVar) -> bool
    decreases t,
{
    match t {
        InferTypeV::Var(u) => u == v,
        InferTypeV::Concrete(_) => false,
        InferTypeV::Never => false,
        InferTypeV::Tuple(s) => occurs_in_some(s, v),
        InferTypeV::Record(s) => occurs_in_field(s, v),
        InferTypeV::Array(x) => occurs(*x, v),
        InferTypeV::SizedArray(x, _) => occurs(*x, v),
        InferTypeV::Reference(x) => occurs(*x, v),
        InferTypeV::MutReference(x) => occurs(*x, v),
        InferTypeV::Fun(s, x) => occurs_in_some(s, v) || occurs(*x, v),
        InferTypeV::Named(_, s) => occurs_in_some(s, v),
    }
}

/// Whether a variable occurs in one of several types.
pub open spec fn occurs_in_some(s: Seq<InferTypeV>, v: TypeVar) -> bool
    decreases s,
{
    exists|i: int| 0 <= i < s.len() && occurs(#[trigger] s[i], v)
}

/// Whether a variable occurs in the type of one of several fields.
pub open spec fn occurs_in_field(s: Seq<(Seq<char>, InferTypeV)>, v: TypeVar) -> bool
    decreases s,
{
    exists|i: int| 0 <= i < s.len() && occurs((#[trigger] s[i]).1, v)
}

/// Whether variables are in increasing order, each listed once.
pub open spec fn increasing(s: Seq<TypeVar>) -> bool {
    forall|i: int, j: int| 0 <= i < j < s.len() ==> (#[trigger] s[i]).0 < (#[trigger] s[j]).0
}

proof fn lemma_with_var(s: Seq<TypeVar>, v: TypeVar)
    requires
        increasing(s),
    ensures
        increasing(with_var(s, v)),
        forall|u: TypeVar| #[trigger] with_var(s, v).contains(u) <==> s.contains(u) || u == v,
    decreases s.len(),
{
    let r = with_var(s, v);
    if s.len() == 0 {
        assert(r[0] == v);
    } else if s.last() == v {
        assert(s.contains(v));
    } else if s.last().0 < v.0 {
        assert(r.last() == v);
        assert forall|u: TypeVar| #[trigger] r.contains(u) <==> s.contains(u) || u == v by {
            if s.contains(u) {
                let i = choose|i: int| 0 <= i < s.len() && s[i] == u;
                assert(r[i] == u);
            }
            if u == v {
                assert(r[s.len() as int] == u);
            }
        }
        assert forall|i: int, j: int| 0 <= i < j < r.len() implies (#[trigger] r[i]).0 < (
        #[trigger] r[j]).0 by {
            assert(s[i].0 <= s.last().0);
        }
    } else {
        let front = s.drop_last();
        lemma_with_var(front, v);
        let inner = with_var(front, v);
        assert forall|u: TypeVar| #[trigger] r.contains(u) <==> s.contains(u) || u == v by {
            if r.contains(u) {
                let i = choose|i: int| 0 <= i < r.len() && r[i] == u;
                if i < inner.len() {
                    assert(inner[i] == u);
                    assert(inner.contains(u));
                    if u != v {
                        let k = choose|k: int| 0 <= k < front.len() && front[k] == u;
                        assert(s[k] == u);
                    }
                } else {
                    assert(s[s.len() - 1] == u);
                }
            }
            if s.contains(u) {
                let i = choose|i: int| 0 <= i < s.len() && s[i] == u;
                if i < front.len() {
                    assert(front[i] == u);
                    assert(inner.contains(u));
                    let k = choose|k: int| 0 <= k < inner.len() && inner[k] == u;
                    assert(r[k] == u);
                } else {
                    assert(r[inner.len() as int] == u);
                }
            }
            if u == v {
                assert(inner.contains(u));
                let k = choose|k: int| 0 <= k < inner.len() && inner[k] == u;
                assert(r[k] == u);
            }
        }
        assert forall|i: int, j: int| 0 <= i < j < r.len() implies (#[trigger] r[i]).0 < (
        #[trigger] r[j]).0 by {
            if j == inner.len() {
                assert(inner[i] == r[i]);
                assert(inner.contains(inner[i]));
                if inner[i] != v {
                    let k = choose|k: int| 0 <= k < front.len() && front[k] == inner[i];
                    assert(s[k].0 < s[s.len() - 1].0);
                } else {
                    assert(s.last().0 != v.0);
                }
            } else {
                assert(inner[i].0 < inner[j].0);
            }
        }
    }
}

proof fn lemma_vars(t: InferTypeV, acc: Seq<TypeVar>)
    requires
        increasing(acc),
    ensures
        increasing(vars_in(t, acc)),
        forall|v: TypeVar| #[trigger] vars_in(t, acc).contains(v) <==> acc.contains(v) || occurs(t, v),
    decreases t, 0int,
{
    match t {
        InferTypeV::Var(v) => lemma_with_var(acc, v),
        InferTypeV::Concrete(_) => {},
        InferTypeV::Never => {},
        InferTypeV::Tuple(s) => {
            lemma_vars_all(s, acc);
            assert(vars_in(t, acc) == vars_in_all(s, acc));
        },
        InferTypeV::Record(s) => {
            lemma_vars_fields(s, acc);
            assert(vars_in(t, acc) == vars_in_fields(s, acc));
        },
        InferTypeV::Array(x) => lemma_vars(*x, acc),
        InferTypeV::SizedArray(x, _) => lemma_vars(*x, acc),
        InferTypeV::Reference(x) => lemma_vars(*x, acc),
        InferTypeV::MutReference(x) => lemma_vars(*x, acc),
        InferTypeV::Fun(s, x) => {
            lemma_vars_all(s, acc);
            lemma_vars(*x, vars_in_all(s, acc));
            assert(vars_in(t, acc) == vars_in(*x, vars_in_all(s, acc)));
        },
        InferTypeV::Named(_, s) => {
            lemma_vars_all(s, acc);
            assert(vars_in(t, acc) == vars_in_all(s, acc));
        },
    }
}

proof fn lemma_vars_all(s: Seq<InferTypeV>, acc: Seq<TypeVar>)
    requires
        increasing(acc),
    ensures
        increasing(vars_in_all(s, acc)),
        forall|v: TypeVar| #[trigger]
            vars_in_all(s, acc).contains(v) <==> acc.contains(v) || occurs_in_some(s, v),
    decreases s, 0int,
{
    if s.len() > 0 {
        let n = s.len() - 1;
        let front = s.subrange(0, n);
        lemma_vars_all(front, acc);
        let before = vars_in_all(front, acc);
        lemma_vars(s[n], before);
        assert forall|v: TypeVar| #[trigger]
            vars_in_all(s, acc).contains(v) <==> acc.contains(v) || occurs_in_some(s, v) by {
            assert(vars_in(s[n], before).contains(v) <==> before.contains(v) || occurs(s[n], v));
            if occurs_in_some(front, v) {
                let i = choose|i: int| 0 <= i < front.len() && occurs(#[trigger] front[i], v);
                assert(occurs(s[i], v));
            }
            if occurs_in_some(s, v) {
                let i = choose|i: int| 0 <= i < s.len() && occurs(#[trigger] s[i], v);
                if i < n {
                    assert(occurs(front[i], v));
                }
            }
        }
    }
}

proof fn lemma_vars_fields(s: Seq<(Seq<char>, InferTypeV)>, acc: Seq<TypeVar>)
    requires
        increasing(acc),
    ensures
        increasing(vars_in_fields(s, acc)),
        forall|v: TypeVar| #[trigger]
            vars_in_fields(s, acc).contains(v) <==> acc.contains(v) || occurs_in_field(s, v),
    decreases s, 0int,
{
    if s.len() > 0 {
        let n = s.len() - 1;
        let front = s.subrange(0, n);
        lemma_vars_fields(front, acc);
        let before = vars_in_fields(front, acc);
        lemma_vars(s[n].1, before);
        assert forall|v: TypeVar| #[trigger]
            vars_in_fields(s, acc).contains(v) <==> acc.contains(v) || occurs_in_field(s, v) by {
            assert(vars_in(s[n].1, before).contains(v) <==> before.contains(v) || occurs(s[n].1, v));
            if occurs_in_field(front, v) {
                let i = choose|i: int| 0 <= i < front.len() && occurs((#[trigger] front[i]).1, v);
                assert(occurs(s[i].1, v));
            }
            if occurs_in_field(s, v) {
                let i = choose|i: int| 0 <= i < s.len() && occurs((#[trigger] s[i]).1, v);
                if i < n {
                    assert(occurs(front[i].1, v));
                }
            }
        }
    }
}

proof fn lemma_own(s: Seq<TypeVar>, others: Seq<TypeVar>, n: int)
    requires
        increasing(s),
        0 <= n <= s.len(),
    ensures
        increasing(own_of(s, others, n)),
        forall|v: TypeVar| #[trigger]
            own_of(s, others, n).contains(v) <==> s.subrange(0, n).contains(v) && !others.contains(v),
    decreases n,
{
    let r = own_of(s, others, n);
    if n > 0 {
        lemma_own(s, others, n - 1);
        let inner = own_of(s, others, n - 1);
        let a = s.subrange(0, n - 1);
        let b = s.subrange(0, n);
        assert(b[n - 1] == s[n - 1]);
        assert(b =~= a.push(s[n - 1]));
        assert forall|v: TypeVar| b.contains(v) <==> a.contains(v) || v == s[n - 1] by {
            if a.contains(v) {
                let i = choose|i: int| 0 <= i < a.len() && a[i] == v;
                assert(b[i] == v);
            }
            if b.contains(v) {
                let i = choose|i: int| 0 <= i < b.len() && b[i] == v;
                if i < n - 1 {
                    assert(a[i] == v);
                }
            }
        }
        if !others.contains(s[n - 1]) {
            assert(r == inner.push(s[n - 1]));
            assert forall|v: TypeVar| #[trigger] r.contains(v) <==> inner.contains(v) || v == s[n - 1] by {
                if inner.contains(v) {
                    let i = choose|i: int| 0 <= i < inner.len() && inner[i] == v;
                    assert(r[i] == v);
                }
                if v == s[n - 1] {
                    assert(r[inner.len() as int] == v);
                }
            }
            assert forall|i: int, j: int| 0 <= i < j < r.len() implies (#[trigger] r[i]).0 < (
            #[trigger] r[j]).0 by {
                assert(inner[i] == r[i]);
                assert(inner.contains(inner[i]));
                if j == inner.len() {
                    assert(a.contains(r[i]));
                    let k = choose|k: int| 0 <= k < a.len() && a[k] == r[i];
                    assert(s[k].0 < s[n - 1].0);
                } else {
                    assert(inner[i].0 < inner[j].0);
                }
            }
        }
    }
}

/// The type parameters that a method has of its own are those that occur in its type and do not
/// stand for type arguments of the receiver, in increasing order.
pub proof fn law_a_method_owns_what_its_receiver_does_not(
    t: InferTypeV,
    struct_vars: Seq<TypeVar>,
    v: TypeVar,
)
    ensures
        method_vars(t, struct_vars).contains(v) <==> occurs(t, v) && !struct_vars.contains(v),
        increasing(method_vars(t, struct_vars)),
{
    let none = Seq::<TypeVar>::empty();
    lemma_vars(t, none);
    let s = vars_in(t, none);
    lemma_own(s, struct_vars, s.len() as int);
    assert(s.subrange(0, s.len() as int) =~= s);
    assert(s.contains(v) <==> none.contains(v) || occurs(t, v));
    assert(method_vars(t, struct_vars).contains(v) <==> s.contains(v) && !struct_vars.contains(v));
}

/// An argument of a method is expected to be what the parameter behind the receiver at its position
/// is, where that is known.
pub proof fn law_method_arguments_go_by_position(
    m: Map<TypeVar, InferTypeV>,
    params: Seq<InferTypeV>,
    n: nat,
    i: int,
)
    requires
        0 <= i < n,
    ensures
        method_hints(m, params, n).len() == n,
        i + 1 < params.len() && resolved(substituted(m, params[i + 1])) ==> method_hints(
            m,
            params,
            n,
        )[i] == Some(lowered(substituted(m, params[i + 1]))),
        i + 1 >= params.len() ==> method_hints(m, params, n)[i] is None,
{
}

/// An argument of a function is expected to be what its parameter is, where the callee is a variable
/// of a function type with as many parameters as there are arguments.
pub proof fn law_arguments_are_expected_by_position(
    st: StateV,
    callee: Expr,
    name: String,
    params: Seq<TypeV>,
    ret: TypeV,
    i: int,
)
    requires
        callee matches Expr::Ident(n, _) && n@ == name@,
        var_of(st.scopes, name@) == Some(TypeV::Fun(params, Box::new(ret))),
        0 <= i < params.len(),
    ensures
        call_hints(st, callee, params.len()).len() == params.len(),
        call_hints(st, callee, params.len())[i] == Some(params[i]),
        forall|n: nat| n != params.len() ==> (#[trigger] call_hints(st, callee, n)).len() == 0,
{
}

/// A function is called through a reference to it as it is called itself; nothing else is.
pub proof fn law_functions_are_called_through_references(params: Seq<TypeV>, ret: TypeV, t: TypeV)
    ensures
        called(TypeV::Fun(params, Box::new(ret))) == TypeV::Fun(params, Box::new(ret)),
        called(TypeV::Reference(Box::new(TypeV::Fun(params, Box::new(ret))))) == TypeV::Fun(
            params,
            Box::new(ret),
        ),
        called(TypeV::MutReference(Box::new(TypeV::Fun(params, Box::new(ret))))) == TypeV::Fun(
            params,
            Box::new(ret),
        ),
        called(t) is Fun ==> called(t) == t || t == TypeV::Reference(Box::new(called(t))) || t
            == TypeV::MutReference(Box::new(called(t))),
        !(called(t) is Fun) ==> called(t) == t,
{
}

} // verus!
