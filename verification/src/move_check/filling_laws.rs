//! What becomes of generic bodies.
use vstd::prelude::*;
use crate::ast::{Block, GenericParam, Param};
use crate::elaborate::program::{body_facts, elaborated_body};
use crate::elaborate::tree::{block_tree, decl_tree, decl_trees, fun_tree};
use crate::registry::Additions;
use crate::scheme::TypeSchemeV;
use crate::span::SpanV;
use crate::typed_ast::{FunBody, GenericBody, GenericMoveEnv, SymbolicBody, TypedBlock};
use crate::typed_ast::{TypedDecl, TypedFunDecl, TypedModuleGraph};
use crate::types::types_view;
use super::filling::{additions_of, came_out, came_out_for, contains_itself, filled_block};
use super::filling::{filled_decl, filled_fun, filled_method, filled_within, graph_filled, inside};
use super::filling::{module_filled, right_function, typing_of, TypingV};
use super::flow::{empty_flow, push_scope};
use super::free_roots::{free_roots, param_names};
use super::generic_bodies::{case_of, function_scheme, method_scheme, no_arguments, reason_for};
use super::generic_bodies::{ImplSite, SymbolicCase};
use super::report::with_skipped;
use super::walk::{bind_params, closure_flow, params_len, popped, take_captures};
use super::walk::{walk_block, walk_fun, walk_generic, walk_generic_closure, Cx, WorldV};

verus! {

/// The walk after a generic body was passed over for a reason.
pub open spec fn skipping(w: WorldV, span: SpanV, reason: Seq<char>) -> WorldV {
    WorldV { report: with_skipped(w.report, span, reason), ..w }
}

/// The walk after a generic body was walked in a typed form: under what is known of its type
/// parameters, with its parameters of their symbolic types, and with a flow of its own.
pub open spec fn walked_inside(
    cx: Cx,
    typed: TypedBlock,
    env: GenericMoveEnv,
    params: Seq<Param>,
    w: WorldV,
) -> WorldV {
    let types = types_view(env.arg_types@);
    let w1 = walk_block(
        cx,
        typed,
        WorldV {
            envs: w.envs.push(env),
            flow: bind_params(
                push_scope(empty_flow()),
                params,
                types,
                params_len(params, types),
            ),
            ..w
        },
    );
    WorldV { envs: popped(w1.envs), flow: w.flow, ..w1 }
}

/// The walk after a generic closure was walked in a typed form: what it captures moves into it,
/// and its body is walked as a generic body is.
pub open spec fn walked_closure(
    cx: Cx,
    typed: TypedBlock,
    env: GenericMoveEnv,
    params: Seq<Param>,
    span: SpanV,
    w: WorldV,
) -> WorldV {
    let types = types_view(env.arg_types@);
    let w1 = take_captures(cx, free_roots(typed, param_names(params).to_set()), span, w);
    let w2 = walk_block(
        cx,
        typed,
        WorldV {
            envs: w1.envs.push(env),
            flow: bind_params(closure_flow(typed), params, types, params_len(params, types)),
            ..w1
        },
    );
    WorldV { envs: popped(w2.envs), flow: w1.flow, ..w2 }
}

/// A generic body on which a walk comes by: its name, its parameters, its source, where it stands,
/// and whether it is that of a closure.
pub ghost struct BodyV {
    pub name: Seq<char>,
    pub params: Seq<Param>,
    pub source: Block,
    pub span: SpanV,
    pub closure: bool,
}

/// Whether a walk is the one after the typed form of a generic body, in which the generic bodies
/// have their own symbolic forms.
pub open spec fn walked_as(
    t: TypingV,
    cx: Cx,
    b: BodyV,
    typed: TypedBlock,
    env: GenericMoveEnv,
    before: WorldV,
    after: WorldV,
) -> bool {
    &&& filled_block(inside(t, b.name, b.source), typed)
    &&& after == if b.closure {
        walked_closure(cx, typed, env, b.params, b.span, before)
    } else {
        walked_inside(cx, typed, env, b.params, before)
    }
}

/// Whether a walk is the one after a generic body that is ready to be elaborated: the elaborated
/// body is walked, and one that elaboration refuses is passed over for the reason it gives.
pub open spec fn elaborated_and_walked(
    t: TypingV,
    cx: Cx,
    b: BodyV,
    case: SymbolicCase,
    extra: Additions,
    before: WorldV,
    after: WorldV,
) -> bool {
    match elaborated_body(
        body_facts(&case.context, &t.schemes, &t.reg, &extra),
        case.context@,
        b.params,
        b.source,
    ) {
        Ok(tree) => exists|typed: TypedBlock|
            block_tree(typed) == tree && #[trigger] walked_as(
                t,
                cx,
                b,
                typed,
                case.env,
                before,
                after,
            ),
        Err(e) => after == skipping(before, b.span, reason_for(t.reg, case.env@.symbolic, e)),
    }
}

/// Whether a walk is the one after a generic body with a scheme.
pub open spec fn checked_by(
    t: TypingV,
    cx: Cx,
    b: BodyV,
    raw: TypeSchemeV,
    generics: Seq<GenericParam>,
    before: WorldV,
    after: WorldV,
) -> bool {
    exists|case: SymbolicCase, extra: Additions|
        case_of(case, raw, generics, t.reg) && additions_of(t, case, extra)
            && #[trigger] elaborated_and_walked(t, cx, b, case, extra, before, after)
}

/// Whether a walk is the one after a generic function, or a generic closure under a name.
pub open spec fn function_checked(
    t: TypingV,
    cx: Cx,
    b: BodyV,
    generics: Seq<GenericParam>,
    before: WorldV,
    after: WorldV,
) -> bool {
    if contains_itself(t, b.name, b.source) {
        after == skipping(before, b.span, "generic body contains itself"@)
    } else {
        match function_scheme(t.schemes@, b.name) {
            None => after == skipping(before, b.span, "function type scheme was unavailable"@),
            Some(raw) => if no_arguments(raw, generics, t.reg) {
                after == skipping(
                    before,
                    b.span,
                    "function type scheme could not be converted to symbolic arguments"@,
                )
            } else {
                checked_by(t, cx, b, raw, generics, before, after)
            },
        }
    }
}

proof fn lemma_came_out(
    t: TypingV,
    cx: Cx,
    b: BodyV,
    raw: TypeSchemeV,
    generics: Seq<GenericParam>,
    g: GenericBody,
    before: WorldV,
)
    requires
        *g.source == b.source,
        filled_within(t, b.name, g),
        came_out_for(t, raw, generics, b.params, b.source, *g.symbolic->0),
    ensures
        checked_by(
            t,
            cx,
            b,
            raw,
            generics,
            before,
            if b.closure {
                walk_generic_closure(cx, g, b.params, b.span, before)
            } else {
                walk_generic(cx, g, b.params, b.span, before)
            },
        ),
{
    let s = *g.symbolic->0;
    let after = if b.closure {
        walk_generic_closure(cx, g, b.params, b.span, before)
    } else {
        walk_generic(cx, g, b.params, b.span, before)
    };
    let (case, extra) = choose|case: SymbolicCase, extra: Additions|
        case_of(case, raw, generics, t.reg) && additions_of(t, case, extra) && #[trigger] came_out(
            t,
            case,
            extra,
            b.params,
            b.source,
            s,
        );
    match s {
        SymbolicBody::Elaborated { body, env } => {
            assert(walked_as(t, cx, b, body, case.env, before, after));
        },
        SymbolicBody::Unavailable { reason } => {},
    }
    assert(elaborated_and_walked(t, cx, b, case, extra, before, after));
}

/// A generic function is checked: where its scheme gives symbolic type arguments, its body is
/// elaborated for them and walked; where there is no scheme or no such arguments, or elaboration
/// refuses the body, it is reported as passed over, with the reason. So is a body that contains
/// itself.
pub proof fn law_generic_functions_are_checked(
    t: TypingV,
    cx: Cx,
    f: TypedFunDecl,
    g: GenericBody,
    w: WorldV,
)
    requires
        f.body == FunBody::Generic(g),
        filled_fun(t, f),
    ensures
        function_checked(
            t,
            cx,
            (BodyV {
                name: f.name@,
                params: f.params@,
                source: *g.source,
                span: f.span@,
                closure: false,
            }),
            f.generics@,
            w,
            walk_fun(cx, f, w),
        ),
{
    let b = BodyV {
        name: f.name@,
        params: f.params@,
        source: *g.source,
        span: f.span@,
        closure: false,
    };
    assert(walk_fun(cx, f, w) == walk_generic(cx, g, b.params, b.span, w));
    if let Some(raw) = function_scheme(t.schemes@, f.name@) {
        if !contains_itself(t, b.name, b.source) && !no_arguments(raw, f.generics@, t.reg) {
            lemma_came_out(t, cx, b, raw, f.generics@, g, w);
        }
    }
}

/// In a program whose generic bodies got their symbolic forms, every generic function that a
/// module declares is the one that was declared, and is checked by the schemes of that module.
pub proof fn law_declared_generic_functions_are_checked(
    before: TypedModuleGraph,
    after: TypedModuleGraph,
    i: int,
    j: int,
    f: TypedFunDecl,
    g: GenericBody,
    cx: Cx,
    w: WorldV,
)
    requires
        graph_filled(before, after),
        0 <= i < after.modules@.len(),
        0 <= j < after.modules@[i].decls@.len(),
        after.modules@[i].decls@[j] == TypedDecl::Fun(f),
        f.body == FunBody::Generic(g),
    ensures
        j < before.modules@[i].decls@.len(),
        before.modules@[i].decls@[j] matches TypedDecl::Fun(d) && fun_tree(d) == fun_tree(f),
        function_checked(
            typing_of(*before.type_registry, before.modules@[i]),
            cx,
            (BodyV {
                name: f.name@,
                params: f.params@,
                source: *g.source,
                span: f.span@,
                closure: false,
            }),
            f.generics@,
            w,
            walk_fun(cx, f, w),
        ),
{
    let m = after.modules@[i];
    let b = before.modules@[i];
    assert(module_filled(*after.type_registry, b, m));
    assert(decl_trees(m.decls@).len() == m.decls@.len());
    assert(decl_trees(b.decls@).len() == b.decls@.len());
    assert(decl_trees(m.decls@)[j] == decl_tree(m.decls@[j]));
    assert(decl_trees(b.decls@)[j] == decl_tree(b.decls@[j]));
    let t = typing_of(*after.type_registry, m);
    assert(filled_decl(t, m.decls@[j]));
    law_generic_functions_are_checked(t, cx, f, g, w);
}

/// A generic method is checked in the same way, by the scheme that is known of its declaration or
/// else the one that the declaration gives, with the type parameters of its impl before its own.
pub proof fn law_generic_methods_are_checked(
    t: TypingV,
    cx: Cx,
    site: ImplSite,
    f: TypedFunDecl,
    g: GenericBody,
    w: WorldV,
)
    requires
        f.body == FunBody::Generic(g),
        filled_method(t, site, f),
    ensures
        contains_itself(t, f.name@, *g.source) ==> walk_fun(cx, f, w) == skipping(
            w,
            f.span@,
            "generic body contains itself"@,
        ),
        !contains_itself(t, f.name@, *g.source) ==> match method_scheme(
            t.reg,
            site,
            f.span@,
            f.generics@,
            f.params@,
            *f.return_type,
        ) {
            None => walk_fun(cx, f, w) == skipping(
                w,
                f.span@,
                "method type scheme was unavailable"@,
            ),
            Some(raw) => if no_arguments(raw, site.generics@ + f.generics@, t.reg) {
                walk_fun(cx, f, w) == skipping(
                    w,
                    f.span@,
                    "method type scheme could not be converted to symbolic arguments"@,
                )
            } else {
                checked_by(
                    t,
                    cx,
                    (BodyV {
                        name: f.name@,
                        params: f.params@,
                        source: *g.source,
                        span: f.span@,
                        closure: false,
                    }),
                    raw,
                    site.generics@ + f.generics@,
                    w,
                    walk_fun(cx, f, w),
                )
            },
        },
{
    let b = BodyV {
        name: f.name@,
        params: f.params@,
        source: *g.source,
        span: f.span@,
        closure: false,
    };
    let generics = site.generics@ + f.generics@;
    assert(walk_fun(cx, f, w) == walk_generic(cx, g, b.params, b.span, w));
    if let Some(raw) = method_scheme(
        t.reg,
        site,
        f.span@,
        f.generics@,
        f.params@,
        *f.return_type,
    ) {
        if !contains_itself(t, b.name, b.source) && !no_arguments(raw, generics, t.reg) {
            lemma_came_out(t, cx, b, raw, generics, g, w);
        }
    }
}

/// A generic closure under a name is checked as a generic function is that declares no type
/// parameters; besides, what its body captures moves into it.
pub proof fn law_generic_closures_are_checked(
    t: TypingV,
    cx: Cx,
    name: Seq<char>,
    params: Seq<Param>,
    span: SpanV,
    g: GenericBody,
    w: WorldV,
)
    requires
        filled_within(t, name, g),
        right_function(t, name, Seq::empty(), params, *g.source, *g.symbolic->0),
    ensures
        function_checked(
            t,
            cx,
            (BodyV { name, params, source: *g.source, span, closure: true }),
            Seq::empty(),
            w,
            walk_generic_closure(cx, g, params, span, w),
        ),
{
    let b = BodyV { name, params, source: *g.source, span, closure: true };
    if let Some(raw) = function_scheme(t.schemes@, name) {
        if !contains_itself(t, b.name, b.source) && !no_arguments(raw, Seq::empty(), t.reg) {
            lemma_came_out(t, cx, b, raw, Seq::empty(), g, w);
        }
    }
}

} // verus!
