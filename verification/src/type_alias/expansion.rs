//! Expansion of aliases inside one type.
use vstd::prelude::*;
use crate::ast::{named_type_exprs_view, type_expr_view};
use crate::ast::{type_exprs_view, TypeExpr, TypeExprV};
use crate::error::{type_failure, MetelError, MetelErrorV, TypeErrorCode};
use crate::registry::{first_where, lemma_first_where_skip};
use crate::span::{Span, SpanV};
use crate::text::{copy_texts, decimal, decimal_text, has_text, same_text, texts};

verus! {

/// A type alias.
#[derive(Debug)]
pub struct AliasDef {
    pub name: String,
    pub params: Vec<String>,
    pub target: TypeExpr,
    pub span: Span,
}

/// An [`AliasDef`] as a mathematical object.
pub ghost struct AliasV {
    pub name: Seq<char>,
    pub params: Seq<Seq<char>>,
    pub target: TypeExprV,
    pub span: SpanV,
}

impl View for AliasDef {
    type V = AliasV;

    open spec fn view(&self) -> AliasV {
        AliasV {
            name: self.name@,
            params: texts(self.params@),
            target: self.target@,
            span: self.span@,
        }
    }
}

/// The views of aliases.
pub open spec fn aliases_view(s: Seq<AliasDef>) -> Seq<AliasV> {
    Seq::new(s.len(), |i: int| s[i]@)
}

/// The alias of a name.
pub open spec fn alias_named(al: Seq<AliasV>, name: Seq<char>) -> Option<AliasV> {
    first_where(al, |a: AliasV| a.name == name)
}

/// What the last of the first `k` parameters of a name is bound to.
pub open spec fn bound_to(
    params: Seq<Seq<char>>,
    args: Seq<TypeExprV>,
    name: Seq<char>,
    k: int,
) -> Option<TypeExprV>
    decreases k,
{
    if k <= 0 || k > params.len() || k > args.len() {
        None
    } else if params[k - 1] == name {
        Some(args[k - 1])
    } else {
        bound_to(params, args, name, k - 1)
    }
}

/// A type with parameters replaced by what they are bound to. A parameter stands by itself,
/// without type arguments.
pub open spec fn instantiated(params: Seq<Seq<char>>, args: Seq<TypeExprV>, t: TypeExprV) -> TypeExprV
    decreases t,
{
    match t {
        TypeExprV::Named(name, s) => if s.len() == 0 {
            match bound_to(params, args, name, params.len() as int) {
                Some(x) => x,
                None => TypeExprV::Named(name, s),
            }
        } else {
            TypeExprV::Named(name, all_instantiated(params, args, s))
        },
        TypeExprV::Unit => t,
        TypeExprV::Tuple(s) => TypeExprV::Tuple(all_instantiated(params, args, s)),
        TypeExprV::Record(s) => TypeExprV::Record(fields_instantiated(params, args, s)),
        TypeExprV::Array(x) => TypeExprV::Array(Box::new(instantiated(params, args, *x))),
        TypeExprV::SizedArray(x, n) => TypeExprV::SizedArray(
            Box::new(instantiated(params, args, *x)),
            n,
        ),
        TypeExprV::Reference(x) => TypeExprV::Reference(Box::new(instantiated(params, args, *x))),
        TypeExprV::MutReference(x) => TypeExprV::MutReference(
            Box::new(instantiated(params, args, *x)),
        ),
        TypeExprV::Fun(s, x) => TypeExprV::Fun(
            all_instantiated(params, args, s),
            match x {
                Some(x) => Some(Box::new(instantiated(params, args, *x))),
                None => None,
            },
        ),
        TypeExprV::ImplAspect { bound } => TypeExprV::ImplAspect {
            bound: Box::new(instantiated(params, args, *bound)),
        },
        TypeExprV::DynAspect { bound } => TypeExprV::DynAspect {
            bound: Box::new(instantiated(params, args, *bound)),
        },
        TypeExprV::Projection { base, assoc } => TypeExprV::Projection {
            base: Box::new(instantiated(params, args, *base)),
            assoc,
        },
        TypeExprV::RecordProjection { .. } => t,
    }
}

/// [`instantiated`] for types.
pub open spec fn all_instantiated(
    params: Seq<Seq<char>>,
    args: Seq<TypeExprV>,
    s: Seq<TypeExprV>,
) -> Seq<TypeExprV>
    decreases s,
{
    Seq::new(
        s.len(),
        |i: int| if 0 <= i < s.len() { instantiated(params, args, s[i]) } else { arbitrary() },
    )
}

/// [`instantiated`] for the types of fields.
pub open spec fn fields_instantiated(
    params: Seq<Seq<char>>,
    args: Seq<TypeExprV>,
    s: Seq<(Seq<char>, TypeExprV)>,
) -> Seq<(Seq<char>, TypeExprV)>
    decreases s,
{
    Seq::new(
        s.len(),
        |i: int|
            if 0 <= i < s.len() {
                (s[i].0, instantiated(params, args, s[i].1))
            } else {
                arbitrary()
            },
    )
}

/// The error of an alias with the wrong number of type arguments.
pub open spec fn arity_error(a: AliasV, got: nat) -> MetelErrorV {
    type_failure(
        TypeErrorCode::T0004,
        "type alias `"@ + a.name + "` takes "@ + decimal(a.params.len())
            + " type argument(s), but "@ + decimal(got) + " were supplied"@,
        a.span,
    )
}

/// The error of an alias that stands inside its own expansion.
pub open spec fn recursion_error(a: AliasV) -> MetelErrorV {
    type_failure(
        TypeErrorCode::T0003,
        "recursive type alias `"@ + a.name
            + "` \u{2014} a transparent alias must expand to a finite type; use a `struct` or `enum` for a genuinely recursive shape"@,
        a.span,
    )
}

/// What stands for aliases in a type: their targets, each to be expanded in turn on the way, or
/// targets that hold no alias any more.
pub ghost struct Expansion {
    pub aliases: Seq<AliasV>,
    /// Names that are parameters here and no aliases.
    pub local: Seq<Seq<char>>,
    /// The aliases whose expansion is under way.
    pub chain: Seq<Seq<char>>,
    /// Whether the targets hold no alias any more.
    pub flat: bool,
}

/// A type with its aliases expanded, innermost first. `fuel` is how many aliases may still be
/// under way.
pub open spec fn expanded(x: Expansion, t: TypeExprV, fuel: nat) -> Result<TypeExprV, MetelErrorV>
    decreases fuel, 1int, t, 0int,
{
    match t {
        TypeExprV::Named(name, s) => match all_expanded(x, s, s.len() as int, fuel) {
            Err(e) => Err(e),
            Ok(args) => name_expanded(x, name, args, fuel),
        },
        TypeExprV::Unit => Ok(t),
        TypeExprV::Tuple(s) => match all_expanded(x, s, s.len() as int, fuel) {
            Err(e) => Err(e),
            Ok(s) => Ok(TypeExprV::Tuple(s)),
        },
        TypeExprV::Record(s) => match fields_expanded(x, s, s.len() as int, fuel) {
            Err(e) => Err(e),
            Ok(s) => Ok(TypeExprV::Record(s)),
        },
        TypeExprV::Array(y) => match expanded(x, *y, fuel) {
            Err(e) => Err(e),
            Ok(y) => Ok(TypeExprV::Array(Box::new(y))),
        },
        TypeExprV::SizedArray(y, n) => match expanded(x, *y, fuel) {
            Err(e) => Err(e),
            Ok(y) => Ok(TypeExprV::SizedArray(Box::new(y), n)),
        },
        TypeExprV::Reference(y) => match expanded(x, *y, fuel) {
            Err(e) => Err(e),
            Ok(y) => Ok(TypeExprV::Reference(Box::new(y))),
        },
        TypeExprV::MutReference(y) => match expanded(x, *y, fuel) {
            Err(e) => Err(e),
            Ok(y) => Ok(TypeExprV::MutReference(Box::new(y))),
        },
        TypeExprV::Fun(s, ret) => match all_expanded(x, s, s.len() as int, fuel) {
            Err(e) => Err(e),
            Ok(s) => match ret {
                None => Ok(TypeExprV::Fun(s, None)),
                Some(y) => match expanded(x, *y, fuel) {
                    Err(e) => Err(e),
                    Ok(y) => Ok(TypeExprV::Fun(s, Some(Box::new(y)))),
                },
            },
        },
        TypeExprV::ImplAspect { bound } => match expanded(x, *bound, fuel) {
            Err(e) => Err(e),
            Ok(y) => Ok(TypeExprV::ImplAspect { bound: Box::new(y) }),
        },
        TypeExprV::DynAspect { bound } => match expanded(x, *bound, fuel) {
            Err(e) => Err(e),
            Ok(y) => Ok(TypeExprV::DynAspect { bound: Box::new(y) }),
        },
        TypeExprV::Projection { base, assoc } => match expanded(x, *base, fuel) {
            Err(e) => Err(e),
            Ok(y) => Ok(TypeExprV::Projection { base: Box::new(y), assoc }),
        },
        TypeExprV::RecordProjection { .. } => Ok(t),
    }
}

/// The use of a name with expanded type arguments.
pub open spec fn name_expanded(
    x: Expansion,
    name: Seq<char>,
    args: Seq<TypeExprV>,
    fuel: nat,
) -> Result<TypeExprV, MetelErrorV>
    decreases fuel, 0int, args, 0int,
{
    if x.local.contains(name) {
        Ok(TypeExprV::Named(name, args))
    } else {
        match alias_named(x.aliases, name) {
            None => Ok(TypeExprV::Named(name, args)),
            Some(a) => if x.flat {
                used(a, a.target, args)
            } else if x.chain.contains(a.name) || fuel == 0 {
                Err(recursion_error(a))
            } else {
                match expanded(
                    Expansion { local: a.params, chain: x.chain.push(a.name), ..x },
                    a.target,
                    (fuel - 1) as nat,
                ) {
                    Err(e) => Err(e),
                    Ok(body) => used(a, body, args),
                }
            },
        }
    }
}

/// The use of an alias whose body is known.
pub open spec fn used(a: AliasV, body: TypeExprV, args: Seq<TypeExprV>) -> Result<
    TypeExprV,
    MetelErrorV,
> {
    if a.params.len() != args.len() {
        Err(arity_error(a, args.len()))
    } else {
        Ok(instantiated(a.params, args, body))
    }
}

/// [`expanded`] for the first `k` types.
pub open spec fn all_expanded(x: Expansion, s: Seq<TypeExprV>, k: int, fuel: nat) -> Result<
    Seq<TypeExprV>,
    MetelErrorV,
>
    decreases fuel, 1int, s, k,
{
    if k <= 0 || k > s.len() {
        Ok(Seq::empty())
    } else {
        match all_expanded(x, s, k - 1, fuel) {
            Err(e) => Err(e),
            Ok(before) => match expanded(x, s[k - 1], fuel) {
                Err(e) => Err(e),
                Ok(t) => Ok(before.push(t)),
            },
        }
    }
}

/// [`expanded`] for the types of the first `k` fields.
pub open spec fn fields_expanded(
    x: Expansion,
    s: Seq<(Seq<char>, TypeExprV)>,
    k: int,
    fuel: nat,
) -> Result<Seq<(Seq<char>, TypeExprV)>, MetelErrorV>
    decreases fuel, 1int, s, k,
{
    if k <= 0 || k > s.len() {
        Ok(Seq::empty())
    } else {
        match fields_expanded(x, s, k - 1, fuel) {
            Err(e) => Err(e),
            Ok(before) => match expanded(x, s[k - 1].1, fuel) {
                Err(e) => Err(e),
                Ok(t) => Ok(before.push((s[k - 1].0, t))),
            },
        }
    }
}

/// The alias of a name.
pub fn find_alias<'a>(al: &'a Vec<AliasDef>, name: &str) -> (r: Option<&'a AliasDef>)
    ensures
        match r {
            Some(a) => alias_named(aliases_view(al@), name@) == Some(a@),
            None => alias_named(aliases_view(al@), name@) is None,
        },
{
    let ghost views = aliases_view(al@);
    let ghost p = |a: AliasV| a.name == name@;
    assert(views.skip(0) =~= views);
    let mut i: usize = 0;
    while i < al.len()
        invariant
            i <= al@.len(),
            views == aliases_view(al@),
            p == (|a: AliasV| a.name == name@),
            first_where(views, p) == first_where(views.skip(i as int), p),
        decreases al@.len() - i,
    {
        proof {
            lemma_first_where_skip(views, p, i as int);
            assert(views[i as int] == al@[i as int]@);
        }
        if same_text(al[i].name.as_str(), name) {
            return Some(&al[i]);
        }
        i += 1;
    }
    None
}

fn find_bound<'a>(params: &Vec<String>, args: &'a Vec<TypeExpr>, name: &str) -> (r: Option<
    &'a TypeExpr,
>)
    requires
        params@.len() == args@.len(),
    ensures
        match r {
            Some(t) => bound_to(
                texts(params@),
                type_exprs_view(args@),
                name@,
                params@.len() as int,
            ) == Some(t@),
            None => bound_to(
                texts(params@),
                type_exprs_view(args@),
                name@,
                params@.len() as int,
            ) is None,
        },
{
    let ghost ps = texts(params@);
    let ghost views = type_exprs_view(args@);
    assert(ps.len() == params@.len());
    assert(views.len() == args@.len());
    let mut i: usize = params.len();
    while i > 0
        invariant
            i <= params@.len(),
            params@.len() == args@.len(),
            ps == texts(params@),
            views == type_exprs_view(args@),
            ps.len() == params@.len(),
            views.len() == args@.len(),
            bound_to(ps, views, name@, params@.len() as int) == bound_to(
                ps,
                views,
                name@,
                i as int,
            ),
        decreases i,
    {
        i -= 1;
        assert(ps[i as int] == params@[i as int]@);
        assert(views[i as int] == type_expr_view(args@[i as int]));
        if same_text(params[i].as_str(), name) {
            return Some(&args[i]);
        }
    }
    None
}

/// A type with parameters replaced by what they are bound to.
pub fn instantiate(params: &Vec<String>, args: &Vec<TypeExpr>, t: &TypeExpr) -> (r: TypeExpr)
    requires
        params@.len() == args@.len(),
    ensures
        r@ == instantiated(texts(params@), type_exprs_view(args@), t@),
    decreases *t,
{
    match t {
        TypeExpr::Named(name, s) => {
            assert(type_exprs_view(s@).len() == s@.len());
            assert(texts(params@).len() == params@.len());
            if s.len() == 0 {
                match find_bound(params, args, name.as_str()) {
                    Some(x) => x.copy(),
                    None => t.copy(),
                }
            } else {
                TypeExpr::Named(name.clone(), instantiate_all(params, args, s))
            }
        },
        TypeExpr::Unit => TypeExpr::Unit,
        TypeExpr::Tuple(s) => TypeExpr::Tuple(instantiate_all(params, args, s)),
        TypeExpr::Record(s) => TypeExpr::Record(instantiate_fields(params, args, s)),
        TypeExpr::Array(x) => TypeExpr::Array(Box::new(instantiate(params, args, x))),
        TypeExpr::SizedArray(x, n) => TypeExpr::SizedArray(
            Box::new(instantiate(params, args, x)),
            *n,
        ),
        TypeExpr::Reference(x) => TypeExpr::Reference(Box::new(instantiate(params, args, x))),
        TypeExpr::MutReference(x) => TypeExpr::MutReference(
            Box::new(instantiate(params, args, x)),
        ),
        TypeExpr::Fun(s, x) => {
            let ret: Option<Box<TypeExpr>> = match x {
                Some(x) => Some(Box::new(instantiate(params, args, x))),
                None => None,
            };
            TypeExpr::Fun(instantiate_all(params, args, s), ret)
        },
        TypeExpr::ImplAspect { bound } => TypeExpr::ImplAspect {
            bound: Box::new(instantiate(params, args, bound)),
        },
        TypeExpr::DynAspect { bound } => TypeExpr::DynAspect {
            bound: Box::new(instantiate(params, args, bound)),
        },
        TypeExpr::Projection { base, assoc } => TypeExpr::Projection {
            base: Box::new(instantiate(params, args, base)),
            assoc: assoc.clone(),
        },
        TypeExpr::RecordProjection { .. } => t.copy(),
    }
}

fn instantiate_all(params: &Vec<String>, args: &Vec<TypeExpr>, v: &Vec<TypeExpr>) -> (r: Vec<
    TypeExpr,
>)
    requires
        params@.len() == args@.len(),
    ensures
        type_exprs_view(r@) == all_instantiated(
            texts(params@),
            type_exprs_view(args@),
            type_exprs_view(v@),
        ),
    decreases v@,
{
    let ghost ps = texts(params@);
    let ghost xs = type_exprs_view(args@);
    let ghost views = type_exprs_view(v@);
    assert(views.len() == v@.len());
    let mut out: Vec<TypeExpr> = Vec::new();
    let mut i: usize = 0;
    while i < v.len()
        invariant
            i <= v@.len(),
            params@.len() == args@.len(),
            ps == texts(params@),
            xs == type_exprs_view(args@),
            views == type_exprs_view(v@),
            views.len() == v@.len(),
            out@.len() == i,
            forall|k: int|
                0 <= k < i ==> type_expr_view(#[trigger] out@[k]) == instantiated(
                    ps,
                    xs,
                    views[k],
                ),
        decreases v@.len() - i,
    {
        assert(views[i as int] == type_expr_view(v@[i as int]));
        out.push(instantiate(params, args, &v[i]));
        i += 1;
    }
    assert(type_exprs_view(out@) =~= all_instantiated(ps, xs, views));
    out
}

fn instantiate_fields(
    params: &Vec<String>,
    args: &Vec<TypeExpr>,
    v: &Vec<(String, TypeExpr)>,
) -> (r: Vec<(String, TypeExpr)>)
    requires
        params@.len() == args@.len(),
    ensures
        named_type_exprs_view(r@) == fields_instantiated(
            texts(params@),
            type_exprs_view(args@),
            named_type_exprs_view(v@),
        ),
    decreases v@,
{
    let ghost ps = texts(params@);
    let ghost xs = type_exprs_view(args@);
    let ghost views = named_type_exprs_view(v@);
    assert(views.len() == v@.len());
    let mut out: Vec<(String, TypeExpr)> = Vec::new();
    let mut i: usize = 0;
    while i < v.len()
        invariant
            i <= v@.len(),
            params@.len() == args@.len(),
            ps == texts(params@),
            xs == type_exprs_view(args@),
            views == named_type_exprs_view(v@),
            views.len() == v@.len(),
            out@.len() == i,
            forall|k: int|
                0 <= k < i ==> (#[trigger] out@[k]).0@ == views[k].0 && type_expr_view(out@[k].1)
                    == instantiated(ps, xs, views[k].1),
        decreases v@.len() - i,
    {
        assert(views[i as int] == (v@[i as int].0@, type_expr_view(v@[i as int].1)));
        out.push((v[i].0.clone(), instantiate(params, args, &v[i].1)));
        i += 1;
    }
    assert(named_type_exprs_view(out@) =~= fields_instantiated(ps, xs, views));
    out
}

/// A type, or what went wrong, as a mathematical object.
pub open spec fn type_expr_result(r: Result<TypeExpr, MetelError>) -> Result<TypeExprV, MetelErrorV> {
    match r {
        Ok(t) => Ok(t@),
        Err(e) => Err(e@),
    }
}

/// Types, or what went wrong, as a mathematical object.
pub open spec fn type_exprs_result(r: Result<Vec<TypeExpr>, MetelError>) -> Result<
    Seq<TypeExprV>,
    MetelErrorV,
> {
    match r {
        Ok(v) => Ok(type_exprs_view(v@)),
        Err(e) => Err(e@),
    }
}

/// Named types, or what went wrong, as a mathematical object.
pub open spec fn named_type_exprs_result(r: Result<Vec<(String, TypeExpr)>, MetelError>) -> Result<
    Seq<(Seq<char>, TypeExprV)>,
    MetelErrorV,
> {
    match r {
        Ok(v) => Ok(named_type_exprs_view(v@)),
        Err(e) => Err(e@),
    }
}

/// What stands for aliases while a type is expanded.
pub struct Expander<'a> {
    pub aliases: &'a Vec<AliasDef>,
    pub local: &'a Vec<String>,
    pub chain: Vec<String>,
    pub flat: bool,
}

impl<'a> View for Expander<'a> {
    type V = Expansion;

    open spec fn view(&self) -> Expansion {
        Expansion {
            aliases: aliases_view(self.aliases@),
            local: texts(self.local@),
            chain: texts(self.chain@),
            flat: self.flat,
        }
    }
}

fn recursion(a: &AliasDef) -> (r: MetelError)
    ensures
        r@ == recursion_error(a@),
{
    let mut message: String = "recursive type alias `".to_owned();
    message.append(a.name.as_str());
    message.append(
        "` \u{2014} a transparent alias must expand to a finite type; use a `struct` or `enum` for a genuinely recursive shape",
    );
    MetelError::type_error(TypeErrorCode::T0003, message, &a.span)
}

fn check_arity(a: &AliasDef, got: usize) -> (r: Option<MetelError>)
    ensures
        match r {
            Some(e) => a.params@.len() != got && e@ == arity_error(a@, got as nat),
            None => a.params@.len() == got,
        },
{
    if a.params.len() == got {
        return None;
    }
    assert(a@.params.len() == a.params@.len());
    let mut message: String = "type alias `".to_owned();
    message.append(a.name.as_str());
    message.append("` takes ");
    message.append(decimal_text(a.params.len() as u64).as_str());
    message.append(" type argument(s), but ");
    message.append(decimal_text(got as u64).as_str());
    message.append(" were supplied");
    Some(MetelError::type_error(TypeErrorCode::T0004, message, &a.span))
}

fn use_alias(a: &AliasDef, body: &TypeExpr, args: &Vec<TypeExpr>) -> (r: Result<
    TypeExpr,
    MetelError,
>)
    ensures
        type_expr_result(r) == used(a@, body@, type_exprs_view(args@)),
{
    assert(type_exprs_view(args@).len() == args@.len());
    assert(a@.params.len() == a.params@.len());
    match check_arity(a, args.len()) {
        Some(e) => Err(e),
        None => Ok(instantiate(&a.params, args, body)),
    }
}

impl<'a> Expander<'a> {
    fn expand_name(&self, name: &String, args: Vec<TypeExpr>, fuel: usize) -> (r: Result<
        TypeExpr,
        MetelError,
    >)
        ensures
            type_expr_result(r) == name_expanded(
                self@,
                name@,
                type_exprs_view(args@),
                fuel as nat,
            ),
        decreases fuel, 1int, args@,
    {
        if has_text(self.local, name.as_str()) {
            return Ok(TypeExpr::Named(name.clone(), args));
        }
        let a: &AliasDef = match find_alias(self.aliases, name.as_str()) {
            None => {
                return Ok(TypeExpr::Named(name.clone(), args));
            },
            Some(a) => a,
        };
        if self.flat {
            return use_alias(a, &a.target, &args);
        }
        if has_text(&self.chain, a.name.as_str()) || fuel == 0 {
            return Err(recursion(a));
        }
        let mut chain: Vec<String> = copy_texts(&self.chain);
        let ghost before = chain@;
        chain.push(a.name.clone());
        assert(texts(chain@) =~= texts(before).push(a.name@));
        let inner: Expander = Expander {
            aliases: self.aliases,
            local: &a.params,
            chain,
            flat: false,
        };
        assert(inner@ == (Expansion {
            local: a@.params,
            chain: self@.chain.push(a@.name),
            ..self@
        }));
        match inner.expand_type(&a.target, fuel - 1) {
            Err(e) => Err(e),
            Ok(body) => use_alias(a, &body, &args),
        }
    }

    /// A type with its aliases expanded.
    pub fn expand_type(&self, t: &TypeExpr, fuel: usize) -> (r: Result<TypeExpr, MetelError>)
        ensures
            type_expr_result(r) == expanded(self@, t@, fuel as nat),
        decreases fuel, 2int, *t,
    {
        match t {
            TypeExpr::Named(name, s) => {
                assert(type_exprs_view(s@).len() == s@.len());
                match self.expand_all(s, fuel) {
                    Err(e) => Err(e),
                    Ok(args) => self.expand_name(name, args, fuel),
                }
            },
            TypeExpr::Unit => Ok(TypeExpr::Unit),
            TypeExpr::Tuple(s) => {
                assert(type_exprs_view(s@).len() == s@.len());
                match self.expand_all(s, fuel) {
                    Err(e) => Err(e),
                    Ok(s) => Ok(TypeExpr::Tuple(s)),
                }
            },
            TypeExpr::Record(s) => {
                assert(named_type_exprs_view(s@).len() == s@.len());
                match self.expand_fields(s, fuel) {
                    Err(e) => Err(e),
                    Ok(s) => Ok(TypeExpr::Record(s)),
                }
            },
            TypeExpr::Array(y) => match self.expand_type(y, fuel) {
                Err(e) => Err(e),
                Ok(y) => Ok(TypeExpr::Array(Box::new(y))),
            },
            TypeExpr::SizedArray(y, n) => match self.expand_type(y, fuel) {
                Err(e) => Err(e),
                Ok(y) => Ok(TypeExpr::SizedArray(Box::new(y), *n)),
            },
            TypeExpr::Reference(y) => match self.expand_type(y, fuel) {
                Err(e) => Err(e),
                Ok(y) => Ok(TypeExpr::Reference(Box::new(y))),
            },
            TypeExpr::MutReference(y) => match self.expand_type(y, fuel) {
                Err(e) => Err(e),
                Ok(y) => Ok(TypeExpr::MutReference(Box::new(y))),
            },
            TypeExpr::Fun(s, ret) => {
                assert(type_exprs_view(s@).len() == s@.len());
                match self.expand_all(s, fuel) {
                    Err(e) => Err(e),
                    Ok(s) => match ret {
                        None => Ok(TypeExpr::Fun(s, None)),
                        Some(y) => match self.expand_type(y, fuel) {
                            Err(e) => Err(e),
                            Ok(y) => Ok(TypeExpr::Fun(s, Some(Box::new(y)))),
                        },
                    },
                }
            },
            TypeExpr::ImplAspect { bound } => match self.expand_type(bound, fuel) {
                Err(e) => Err(e),
                Ok(y) => Ok(TypeExpr::ImplAspect { bound: Box::new(y) }),
            },
            TypeExpr::DynAspect { bound } => match self.expand_type(bound, fuel) {
                Err(e) => Err(e),
                Ok(y) => Ok(TypeExpr::DynAspect { bound: Box::new(y) }),
            },
            TypeExpr::Projection { base, assoc } => match self.expand_type(base, fuel) {
                Err(e) => Err(e),
                Ok(y) => Ok(TypeExpr::Projection { base: Box::new(y), assoc: assoc.clone() }),
            },
            TypeExpr::RecordProjection { .. } => Ok(t.copy()),
        }
    }

    fn expand_all(&self, v: &Vec<TypeExpr>, fuel: usize) -> (r: Result<Vec<TypeExpr>, MetelError>)
        ensures
            type_exprs_result(r) == all_expanded(
                self@,
                type_exprs_view(v@),
                v@.len() as int,
                fuel as nat,
            ),
        decreases fuel, 2int, v@,
    {
        let ghost views = type_exprs_view(v@);
        assert(views.len() == v@.len());
        let mut out: Vec<TypeExpr> = Vec::new();
        assert(type_exprs_view(out@) =~= Seq::empty());
        let mut stopped: Option<MetelError> = None;
        let mut i: usize = 0;
        while i < v.len()
            invariant
                i <= v@.len(),
                views == type_exprs_view(v@),
                views.len() == v@.len(),
                all_expanded(self@, views, i as int, fuel as nat) == (match stopped {
                    Some(e) => Err(e@),
                    None => Ok(type_exprs_view(out@)),
                }),
            decreases v@.len() - i,
        {
            if stopped.is_none() {
                assert(views[i as int] == type_expr_view(v@[i as int]));
                let ghost before = out@;
                match self.expand_type(&v[i], fuel) {
                    Ok(t) => {
                        let ghost tv = t@;
                        out.push(t);
                        assert(type_exprs_view(out@) =~= type_exprs_view(before).push(tv));
                    },
                    Err(e) => {
                        stopped = Some(e);
                    },
                }
            }
            i += 1;
        }
        match stopped {
            Some(e) => Err(e),
            None => Ok(out),
        }
    }

    fn expand_fields(&self, v: &Vec<(String, TypeExpr)>, fuel: usize) -> (r: Result<
        Vec<(String, TypeExpr)>,
        MetelError,
    >)
        ensures
            named_type_exprs_result(r) == fields_expanded(
                self@,
                named_type_exprs_view(v@),
                v@.len() as int,
                fuel as nat,
            ),
        decreases fuel, 2int, v@,
    {
        let ghost views = named_type_exprs_view(v@);
        assert(views.len() == v@.len());
        let mut out: Vec<(String, TypeExpr)> = Vec::new();
        assert(named_type_exprs_view(out@) =~= Seq::empty());
        let mut stopped: Option<MetelError> = None;
        let mut i: usize = 0;
        while i < v.len()
            invariant
                i <= v@.len(),
                views == named_type_exprs_view(v@),
                views.len() == v@.len(),
                fields_expanded(self@, views, i as int, fuel as nat) == (match stopped {
                    Some(e) => Err(e@),
                    None => Ok(named_type_exprs_view(out@)),
                }),
            decreases v@.len() - i,
        {
            if stopped.is_none() {
                assert(views[i as int] == (v@[i as int].0@, type_expr_view(v@[i as int].1)));
                let ghost before = out@;
                match self.expand_type(&v[i].1, fuel) {
                    Ok(t) => {
                        let ghost tv = t@;
                        out.push((v[i].0.clone(), t));
                        assert(named_type_exprs_view(out@) =~= named_type_exprs_view(before).push(
                            (v@[i as int].0@, tv),
                        ));
                    },
                    Err(e) => {
                        stopped = Some(e);
                    },
                }
            }
            i += 1;
        }
        match stopped {
            Some(e) => Err(e),
            None => Ok(out),
        }
    }
}

} // verus!
