//! Every body of a program is walked, and what is found becomes an error.
use vstd::prelude::*;
use crate::place::{place_text, ProjectionV};
use crate::text::decimal;
use crate::typed_ast::{FunBody, TypedBlock, TypedDecl, TypedFunDecl};
use super::flow::{bind_all, empty_flow, push_scope};
use super::free_roots::param_names;
use super::report::{extends, in_embedded_std, MoveCheckReportV, MoveViolationV};
use super::taking_laws::lemma_extends;
use super::walk::{walk_block, walk_decl, walk_decls, walk_fun, walk_funs, Cx, WorldV};
use super::walk_laws::{advances, law_declarations_advance, lemma_decl, lemma_fun, lemma_funs};
use super::{first_violation, unchecked_texts};

verus! {

/// The body of a function is walked from a flow in which its parameters are all there is, and what
/// is found in it is reported.
pub proof fn law_function_bodies_are_walked(cx: Cx, f: TypedFunDecl, b: TypedBlock, w: WorldV)
    requires
        f.body == FunBody::Typed(b),
    ensures
        walk_fun(cx, f, w).report == walk_block(
            cx,
            b,
            WorldV {
                flow: bind_all(push_scope(empty_flow()), param_names(f.params@)),
                ..w
            },
        ).report,
{
}

/// Whether a walk came by some state in which `step` was taken, and reported what was found there.
pub open spec fn passes_by(
    before: WorldV,
    at: WorldV,
    step: WorldV,
    after: WorldV,
) -> bool {
    &&& extends(at.report, before.report)
    &&& extends(after.report, step.report)
    &&& at.envs == before.envs
}

proof fn lemma_grown(a: WorldV, b: WorldV)
    requires
        advances(a, b),
    ensures
        extends(b.report, a.report),
        a.envs == b.envs,
{
    reveal(advances);
}

/// Every declaration of a block or a module is walked, whatever stands before and behind it.
pub proof fn law_every_declaration_is_walked(cx: Cx, s: Seq<TypedDecl>, k: int, w: WorldV)
    requires
        0 <= k < s.len(),
    ensures
        exists|at: WorldV| #[trigger]
            passes_by(w, at, walk_decl(cx, s[k], at), walk_decls(cx, s, w)),
    decreases s.len(),
{
    let n = s.len() - 1;
    let front = s.subrange(0, n);
    let before = walk_decls(cx, front, w);
    law_declarations_advance(cx, front, w);
    lemma_grown(w, before);
    lemma_decl(cx, s[n], before);
    lemma_grown(before, walk_decl(cx, s[n], before));
    let after = walk_decls(cx, s, w);
    assert(after == walk_decl(cx, s[n], before));
    if k < n {
        assert(front[k] == s[k]);
        law_every_declaration_is_walked(cx, front, k, w);
        let at = choose|at: WorldV| #[trigger]
            passes_by(w, at, walk_decl(cx, front[k], at), before);
        lemma_extends(after.report, before.report, walk_decl(cx, s[k], at).report);
        assert(passes_by(w, at, walk_decl(cx, s[k], at), after));
    } else {
        assert(after.report.violations =~= after.report.violations.take(
            after.report.violations.len() as int,
        ));
        assert(passes_by(w, before, walk_decl(cx, s[k], before), after));
    }
}

/// Every method of an impl is walked, and every function is.
pub proof fn law_every_method_is_walked(cx: Cx, d: TypedDecl, s: Seq<TypedFunDecl>, k: int, w: WorldV)
    requires
        d matches TypedDecl::Impl(ib) && ib.methods@ == s,
        0 <= k < s.len(),
    ensures
        exists|at: WorldV| #[trigger]
            passes_by(w, at, walk_fun(cx, s[k], at), walk_decl(cx, d, w)),
{
    lemma_methods(cx, s, k, w);
    assert(walk_decl(cx, d, w) == walk_funs(cx, s, w));
}

proof fn lemma_methods(cx: Cx, s: Seq<TypedFunDecl>, k: int, w: WorldV)
    requires
        0 <= k < s.len(),
    ensures
        exists|at: WorldV| #[trigger]
            passes_by(w, at, walk_fun(cx, s[k], at), walk_funs(cx, s, w)),
    decreases s.len(),
{
    let n = s.len() - 1;
    let front = s.subrange(0, n);
    let before = walk_funs(cx, front, w);
    lemma_funs(cx, front, w);
    lemma_grown(w, before);
    lemma_fun(cx, s[n], before);
    lemma_grown(before, walk_fun(cx, s[n], before));
    let after = walk_funs(cx, s, w);
    assert(after == walk_fun(cx, s[n], before));
    if k < n {
        assert(front[k] == s[k]);
        lemma_methods(cx, front, k, w);
        let at = choose|at: WorldV| #[trigger]
            passes_by(w, at, walk_fun(cx, front[k], at), before);
        lemma_extends(after.report, before.report, walk_fun(cx, s[k], at).report);
        assert(passes_by(w, at, walk_fun(cx, s[k], at), after));
    } else {
        assert(passes_by(w, before, walk_fun(cx, s[k], before), after));
    }
}

/// A report with a violation outside the embedded standard library has a first one of them, which is
/// what is said; a report without any has none.
pub proof fn law_the_first_violation_of_the_user_counts(r: MoveCheckReportV, k: int)
    requires
        0 <= k < r.violations.len(),
        !in_embedded_std(r.violations[k].use_span),
    ensures
        first_violation(r) matches Some(v) && !in_embedded_std(v.use_span) && exists|i: int|
            0 <= i <= k && #[trigger] r.violations[i] == v && forall|j: int|
                0 <= j < i ==> in_embedded_std((#[trigger] r.violations[j]).use_span),
{
    let p = |v: MoveViolationV| super::in_user_code(v);
    let i = crate::registry::lemma_first_at(r.violations, p);
    assert(p(r.violations[k]));
    if first_violation(r) is Some {
        assert forall|j: int| 0 <= j < i implies in_embedded_std(
            (#[trigger] r.violations[j]).use_span,
        ) by {
            assert(!p(r.violations[j]));
        }
        if k < i {
            assert(!p(r.violations[k]));
        }
    } else {
        assert(!p(r.violations[k]));
    }
}

/// A report whose violations are all in the embedded standard library is none of the user's.
pub proof fn law_violations_of_the_library_are_not_the_users(r: MoveCheckReportV)
    requires
        forall|k: int|
            0 <= k < r.violations.len() ==> in_embedded_std((#[trigger] r.violations[k]).use_span),
    ensures
        first_violation(r) is None,
{
    let p = |v: MoveViolationV| super::in_user_code(v);
    let i = crate::registry::lemma_first_at(r.violations, p);
    if first_violation(r) is Some {
        assert(in_embedded_std(r.violations[i].use_span));
    }
}

/// What is said of bodies that could not be checked: one text each, in their order, which ends with
/// the reason.
pub proof fn law_every_unchecked_body_is_told(r: MoveCheckReportV, k: int)
    requires
        0 <= k < r.unchecked_generic_bodies.len(),
    ensures
        unchecked_texts(r).len() == r.unchecked_generic_bodies.len(),
        r.unchecked_generic_bodies[k].reason.is_suffix_of(unchecked_texts(r)[k]),
        "move checking could not analyze generic body at "@.is_prefix_of(unchecked_texts(r)[k]),
{
    let u = r.unchecked_generic_bodies[k];
    let t = unchecked_texts(r)[k];
    let head = "move checking could not analyze generic body at "@ + u.span.filename + ":"@ + decimal(
        u.span.line as nat,
    ) + ":"@ + decimal(u.span.col as nat) + ": "@;
    assert(t == head + u.reason);
    assert(t.skip(head.len() as int) =~= u.reason);
    assert(t.subrange(t.len() - u.reason.len(), t.len() as int) =~= u.reason);
    let start = "move checking could not analyze generic body at "@;
    assert(t.subrange(0, start.len() as int) =~= start);
}

/// A place is written as it is in source: fields and elements behind a dot, an element of an array
/// as `[_]`, and what is behind a reference as `(*..)`.
pub proof fn law_places_are_written_as_in_source(
    root: Seq<char>,
    steps: Seq<ProjectionV>,
    field: Seq<char>,
    i: usize,
)
    ensures
        place_text(root, Seq::empty()) == root,
        place_text(root, steps.push(ProjectionV::Field(field))) == place_text(root, steps) + "."@
            + field,
        place_text(root, steps.push(ProjectionV::TupleIndex(i))) == place_text(root, steps) + "."@
            + decimal(i as nat),
        place_text(root, steps.push(ProjectionV::OpaqueIndex)) == place_text(root, steps)
            + "[_]"@,
        place_text(root, steps.push(ProjectionV::Deref)) == "(*"@ + place_text(root, steps)
            + ")"@,
{
    assert(steps.push(ProjectionV::Field(field)).drop_last() =~= steps);
    assert(steps.push(ProjectionV::TupleIndex(i)).drop_last() =~= steps);
    assert(steps.push(ProjectionV::OpaqueIndex).drop_last() =~= steps);
    assert(steps.push(ProjectionV::Deref).drop_last() =~= steps);
}

} // verus!
