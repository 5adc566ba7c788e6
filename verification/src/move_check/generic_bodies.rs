//! Generic bodies, elaborated once for symbolic type arguments.
use vstd::prelude::*;
use crate::ast::{Block, GenericParam, Param, TypeExpr};
use crate::elaborate::program::{body_facts, construct_generic_body, context_of, elaborated_body};
use crate::elaborate::program::GenericContext;
use crate::elaborate::state::{find_scheme, scheme_in, SchemeEntry};
use crate::elaborate::symbolic::{impl_method_scheme, symbolic_impl_method_scheme};
use crate::elaborate::tree::block_tree;
use crate::error::{error_text, MetelError, MetelErrorV};
use crate::lookup::scheme_of_decl;
use crate::registry::{aspect_of, Additions, AspectInfo, TypeDefinitionRegistry};
use crate::scheme::{TypeScheme, TypeSchemeV};
use crate::span::{Span, SpanV};
use crate::text::{ends_with, join_spec, join_texts, joined3, joined5, precedes};
use crate::text::{starts_with, text_before, texts};
use crate::typed_ast::{GenericMoveEnv, SymbolicAspects, SymbolicBody};
use super::assumptions::{symbolics, SymbolicV};
use super::generics::{find_aspect_method, method_in_aspect};
use super::samples::{generic_sample_args, repaired, sampled_env, scheme_with_source_generics};

verus! {

/// The method that a message says a symbolic type lacks, if that is what it says.
pub open spec fn lacking(message: Seq<char>, owner: Seq<char>) -> Option<Seq<char>> {
    let prefix = "no method `"@;
    let suffix = "` on `"@ + owner + "`"@;
    if prefix.is_prefix_of(message) && suffix.is_suffix_of(message.skip(prefix.len() as int)) {
        Some(message.subrange(prefix.len() as int, message.len() - suffix.len()))
    } else {
        None
    }
}

/// The aspects, of the first `k`, that declare a method.
pub open spec fn declarers(
    reg: TypeDefinitionRegistry,
    aspects: Seq<Seq<char>>,
    method: Seq<char>,
    k: int,
) -> Seq<Seq<char>>
    decreases k,
{
    if k <= 0 || k > aspects.len() {
        Seq::empty()
    } else {
        let before = declarers(reg, aspects, method, k - 1);
        if method_in_aspect(reg, aspects[k - 1], method) is Some {
            placed(before, aspects[k - 1])
        } else {
            before
        }
    }
}

/// A sorted sequence of texts with one more in its place.
pub open spec fn placed(s: Seq<Seq<char>>, x: Seq<char>) -> Seq<Seq<char>>
    decreases s.len(),
{
    if s.len() == 0 {
        seq![x]
    } else if text_before(x, s[0]) {
        seq![x] + s
    } else {
        seq![s[0]] + placed(s.skip(1), x)
    }
}

/// Why a method was not found on one of the first `k` symbolic types: several of its aspects
/// declare it.
pub open spec fn ambiguity(
    reg: TypeDefinitionRegistry,
    s: Seq<SymbolicV>,
    message: Seq<char>,
    i: int,
) -> Option<Seq<char>>
    decreases s.len() - i,
{
    if i < 0 || i >= s.len() {
        None
    } else {
        match lacking(message, s[i].name) {
            Some(method) => {
                let found = declarers(reg, s[i].aspects, method, s[i].aspects.len() as int);
                if found.len() < 2 {
                    ambiguity(reg, s, message, i + 1)
                } else {
                    Some(
                        "ambiguous aspect method `"@ + method + "` on symbolic type `"@ + s[i].name
                            + "`; candidates: "@ + join_spec(found, ", "@),
                    )
                }
            },
            None => ambiguity(reg, s, message, i + 1),
        }
    }
}

/// Why a generic body was left unchecked when it could not be elaborated.
pub open spec fn reason_for(
    reg: TypeDefinitionRegistry,
    s: Seq<SymbolicV>,
    e: MetelErrorV,
) -> Seq<char> {
    match e {
        MetelErrorV::Internal { message } => match ambiguity(reg, s, message, 0) {
            Some(reason) => reason,
            None => error_text(e),
        },
        _ => error_text(e),
    }
}

fn lacking_method(message: &str, owner: &str) -> (r: Option<String>)
    ensures
        match r {
            Some(m) => lacking(message@, owner@) == Some(m@),
            None => lacking(message@, owner@) is None,
        },
{
    let prefix: &str = "no method `";
    let suffix: String = joined3("` on `", owner, "`");
    assert(suffix@ =~= "` on `"@ + owner@ + "`"@);
    if !starts_with(message, prefix) {
        return None;
    }
    let n: usize = prefix.unicode_len();
    let m: usize = message.unicode_len();
    let rest: &str = message.substring_char(n, m);
    assert(rest@ =~= message@.skip(n as int));
    if !ends_with(rest, suffix.as_str()) {
        return None;
    }
    let k: usize = suffix.as_str().unicode_len();
    Some(message.substring_char(n, m - k).to_owned())
}

proof fn lemma_placed_later(s: Seq<Seq<char>>, x: Seq<char>, i: int)
    requires
        0 <= i <= s.len(),
        forall|k: int| 0 <= k < i ==> !text_before(x, #[trigger] s[k]),
    ensures
        placed(s, x) == s.take(i) + placed(s.skip(i), x),
    decreases i,
{
    if i == 0 {
        assert(s.skip(0) =~= s);
        assert(s.take(0) + placed(s, x) =~= placed(s, x));
    } else {
        let rest = s.skip(1);
        assert forall|k: int| 0 <= k < i - 1 implies !text_before(x, #[trigger] rest[k]) by {
            assert(rest[k] == s[k + 1]);
        }
        lemma_placed_later(rest, x, i - 1);
        assert(rest.skip(i - 1) =~= s.skip(i));
        assert(seq![s[0]] + (rest.take(i - 1) + placed(s.skip(i), x)) =~= s.take(i) + placed(
            s.skip(i),
            x,
        ));
    }
}

fn place_text(out: &mut Vec<String>, x: &String)
    ensures
        texts(final(out)@) == placed(texts(old(out)@), x@),
{
    let ghost start = texts(out@);
    let mut i: usize = 0;
    while i < out.len() && !precedes(x.as_str(), out[i].as_str())
        invariant
            i <= out@.len(),
            start == texts(out@),
            start.len() == out@.len(),
            forall|k: int| 0 <= k < i ==> !text_before(x@, #[trigger] start[k]),
        decreases out@.len() - i,
    {
        assert(start[i as int] == out@[i as int]@);
        i += 1;
    }
    proof {
        lemma_placed_later(start, x@, i as int);
    }
    let ghost rest = start.skip(i as int);
    if i < out.len() {
        assert(rest[0] == start[i as int]);
        assert(start[i as int] == out@[i as int]@);
    }
    out.insert(i, x.clone());
    assert(texts(out@) =~= start.take(i as int) + (seq![x@] + rest));
    assert(rest.len() == 0 ==> seq![x@] + rest =~= seq![x@]);
}

fn find_declarers(registry: &TypeDefinitionRegistry, e: &SymbolicAspects, method: &str) -> (r: Vec<
    String,
>)
    ensures
        texts(r@) == declarers(*registry, e@.aspects, method@, e@.aspects.len() as int),
{
    let mut out: Vec<String> = Vec::new();
    assert(texts(out@) =~= Seq::empty());
    assert(e@.aspects.len() == e.aspects@.len());
    let mut i: usize = 0;
    while i < e.aspects.len()
        invariant
            i <= e.aspects@.len(),
            e@.aspects.len() == e.aspects@.len(),
            texts(out@) == declarers(*registry, e@.aspects, method@, i as int),
        decreases e.aspects@.len() - i,
    {
        assert(e@.aspects[i as int] == e.aspects@[i as int]@);
        if let Some(info) = registry.aspect_info(e.aspects[i].as_str()) {
            if find_aspect_method(info, method).is_some() {
                place_text(&mut out, &e.aspects[i]);
            }
        }
        i += 1;
    }
    out
}

/// Why a method was not found on a symbolic type, where several of its aspects declare it.
pub fn symbolic_method_ambiguity_reason(
    message: &str,
    env: &GenericMoveEnv,
    registry: &TypeDefinitionRegistry,
) -> (r: Option<String>)
    ensures
        match r {
            Some(reason) => ambiguity(*registry, env@.symbolic, message@, 0) == Some(reason@),
            None => ambiguity(*registry, env@.symbolic, message@, 0) is None,
        },
{
    let list: &Vec<SymbolicAspects> = &env.symbolic_aspects;
    let ghost views = symbolics(list@);
    assert(views.len() == list@.len());
    let mut i: usize = 0;
    while i < list.len()
        invariant
            i <= list@.len(),
            *list == env.symbolic_aspects,
            views == symbolics(list@),
            views.len() == list@.len(),
            ambiguity(*registry, views, message@, 0) == ambiguity(
                *registry,
                views,
                message@,
                i as int,
            ),
        decreases list@.len() - i,
    {
        assert(views[i as int] == list@[i as int]@);
        if let Some(method) = lacking_method(message, list[i].name.as_str()) {
            let found: Vec<String> = find_declarers(registry, &list[i], method.as_str());
            assert(texts(found@).len() == found@.len());
            if found.len() >= 2 {
                let names: String = join_texts(&found, ", ");
                let head: String = joined5(
                    "ambiguous aspect method `",
                    method.as_str(),
                    "` on symbolic type `",
                    list[i].name.as_str(),
                    "`; candidates: ",
                );
                let mut reason: String = head;
                reason.append(names.as_str());
                assert(reason@ =~= "ambiguous aspect method `"@ + method@
                    + "` on symbolic type `"@ + views[i as int].name + "`; candidates: "@
                    + join_spec(texts(found@), ", "@));
                return Some(reason);
            }
        }
        i += 1;
    }
    None
}

/// A generic body ready to be elaborated: its scheme, what is known of its type parameters, and
/// what it is elaborated with.
pub struct SymbolicCase {
    pub scheme: TypeScheme,
    pub env: GenericMoveEnv,
    pub context: GenericContext,
}

/// Whether a case is that of a scheme with the type parameters of the source.
pub open spec fn case_of(
    case: SymbolicCase,
    raw: TypeSchemeV,
    generics: Seq<GenericParam>,
    reg: TypeDefinitionRegistry,
) -> bool {
    &&& case.scheme@ == repaired(raw, generics)
    &&& sampled_env(case.scheme@, reg) == Some(case.env@)
    &&& context_of(case.scheme, case.env@.args, None) == Ok::<_, MetelErrorV>(case.context@)
    &&& case.context.overloads@.len() == 0
    &&& case.context.module@.len() == 0
    &&& case.context.refusals@.len() == 0
}

/// Whether a scheme cannot be turned into symbolic arguments.
pub open spec fn no_arguments(
    raw: TypeSchemeV,
    generics: Seq<GenericParam>,
    reg: TypeDefinitionRegistry,
) -> bool {
    sampled_env(repaired(raw, generics), reg) is None
}

fn case_for(
    raw: &TypeScheme,
    impl_generics: &Vec<GenericParam>,
    generics: &Vec<GenericParam>,
    registry: &TypeDefinitionRegistry,
) -> (r: Option<SymbolicCase>)
    ensures
        match r {
            Some(case) => case_of(case, raw@, impl_generics@ + generics@, *registry),
            None => no_arguments(raw@, impl_generics@ + generics@, *registry),
        },
{
    let scheme: TypeScheme = scheme_with_source_generics(raw, impl_generics, generics);
    match generic_sample_args(&scheme, registry) {
        None => None,
        Some(env) => {
            match GenericContext::for_call(&scheme, &env.arg_types, None) {
                Ok(context) => Some(SymbolicCase { scheme, env, context }),
                Err(_) => None,
            }
        },
    }
}

/// The scheme that a generic function is elaborated by.
pub open spec fn function_scheme(schemes: Seq<SchemeEntry>, name: Seq<char>) -> Option<TypeSchemeV> {
    match scheme_in(schemes, name) {
        Some(s) => Some(s@),
        None => None,
    }
}

/// Make a generic function ready to be elaborated for symbolic type arguments. Where that cannot
/// be, say why.
pub fn prepare_function(
    schemes: &Vec<SchemeEntry>,
    name: &str,
    generics: &Vec<GenericParam>,
    registry: &TypeDefinitionRegistry,
) -> (r: Result<SymbolicCase, String>)
    ensures
        match function_scheme(schemes@, name@) {
            None => r matches Err(reason) && reason@ == "function type scheme was unavailable"@,
            Some(raw) => match r {
                Ok(case) => case_of(case, raw, generics@, *registry),
                Err(reason) => no_arguments(raw, generics@, *registry) && reason@
                    == "function type scheme could not be converted to symbolic arguments"@,
            },
        },
{
    let raw: &TypeScheme = match find_scheme(schemes, name) {
        Some(s) => s,
        None => {
            return Err("function type scheme was unavailable".to_owned());
        },
    };
    let none: Vec<GenericParam> = Vec::new();
    assert(none@ + generics@ =~= generics@);
    match case_for(raw, &none, generics, registry) {
        Some(case) => Ok(case),
        None => Err(
            "function type scheme could not be converted to symbolic arguments".to_owned(),
        ),
    }
}

/// The impl that a generic method is declared in.
#[derive(Clone, Copy)]
pub struct ImplSite<'a> {
    pub generics: &'a Vec<GenericParam>,
    pub target_type: &'a TypeExpr,
    pub aspect_name: &'a Option<String>,
}

/// The aspect that an impl is of, where there is one and it is declared.
pub open spec fn site_aspect(reg: TypeDefinitionRegistry, site: ImplSite) -> Option<AspectInfo> {
    match *site.aspect_name {
        Some(name) => aspect_of(reg, name@),
        None => None,
    }
}

/// The scheme that a generic method is elaborated by: the one that is known of it, else the one
/// that its declaration gives.
pub open spec fn method_scheme(
    reg: TypeDefinitionRegistry,
    site: ImplSite,
    span: SpanV,
    generics: Seq<GenericParam>,
    params: Seq<Param>,
    ret: Option<TypeExpr>,
) -> Option<TypeSchemeV> {
    match scheme_of_decl(reg, span) {
        Some(s) => Some(s@),
        None => impl_method_scheme(
            site.generics@ + generics,
            *site.target_type,
            site_aspect(reg, site),
            params,
            ret,
        ),
    }
}

/// Make a generic method ready to be elaborated for symbolic type arguments. Where that cannot
/// be, say why.
pub fn prepare_method(
    registry: &TypeDefinitionRegistry,
    site: &ImplSite,
    span: &Span,
    generics: &Vec<GenericParam>,
    params: &Vec<Param>,
    return_type: &Option<TypeExpr>,
) -> (r: Result<SymbolicCase, String>)
    ensures
        match method_scheme(*registry, *site, span@, generics@, params@, *return_type) {
            None => r matches Err(reason) && reason@ == "method type scheme was unavailable"@,
            Some(raw) => match r {
                Ok(case) => case_of(case, raw, site.generics@ + generics@, *registry),
                Err(reason) => no_arguments(raw, site.generics@ + generics@, *registry) && reason@
                    == "method type scheme could not be converted to symbolic arguments"@,
            },
        },
{
    let found: Option<SymbolicCase> = match registry.generic_method_scheme_for_decl(span) {
        Some(raw) => case_for(raw, site.generics, generics, registry),
        None => {
            let aspect: Option<&AspectInfo> = match site.aspect_name {
                Some(name) => registry.aspect_info(name.as_str()),
                None => None,
            };
            match symbolic_impl_method_scheme(
                site.generics,
                generics,
                site.target_type,
                aspect,
                params,
                return_type,
            ) {
                Some(raw) => case_for(&raw, site.generics, generics, registry),
                None => {
                    return Err("method type scheme was unavailable".to_owned());
                },
            }
        },
    };
    match found {
        Some(case) => Ok(case),
        None => Err("method type scheme could not be converted to symbolic arguments".to_owned()),
    }
}

/// The typed form of a generic body for symbolic type arguments, where `extra` holds what the
/// symbolic types add to the declarations of the program.
pub fn symbolic_body<'a>(
    case: SymbolicCase,
    schemes: &Vec<SchemeEntry>,
    registry: &'a TypeDefinitionRegistry,
    extra: &Additions,
    params: &'a Vec<Param>,
    body: &'a Block,
) -> (r: SymbolicBody<'a>)
    ensures
        match elaborated_body(
            body_facts(&case.context, schemes, registry, extra),
            case.context@,
            params@,
            *body,
        ) {
            Ok(tree) => r matches SymbolicBody::Elaborated { body: typed, env } && block_tree(typed)
                == tree && env == case.env,
            Err(e) => r matches SymbolicBody::Unavailable { reason } && reason@ == reason_for(
                *registry,
                case.env@.symbolic,
                e,
            ),
        },
{
    match construct_generic_body(&case.context, schemes, registry, extra, params, body) {
        Ok(typed) => SymbolicBody::Elaborated { body: typed, env: case.env },
        Err(e) => {
            let found: Option<String> = match &e {
                MetelError::Internal { message } => symbolic_method_ambiguity_reason(
                    message.as_str(),
                    &case.env,
                    registry,
                ),
                _ => None,
            };
            SymbolicBody::Unavailable {
                reason: match found {
                    Some(reason) => reason,
                    None => e.describe(),
                },
            }
        },
    }
}

} // verus!
