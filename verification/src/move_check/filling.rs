//! The symbolic forms of generic bodies.
//!
//! Elaboration leaves a generic body as its source. Before a program is walked, every generic body
//! of it gets its typed form for symbolic type arguments, or the reason why it has none: in
//! functions, in impls, in the blocks inside them, in closures, and in the generic bodies that
//! come up inside such a form.
use vstd::prelude::*;
use crate::ast::{Block, GenericParam, Param};
use crate::elaborate::program::{body_facts, elaborated_body};
use crate::elaborate::state::SchemeEntry;
use crate::elaborate::tree::{arm_tree, arm_trees, block_tree, decl_tree, decl_trees, expr_tree};
use crate::elaborate::tree::{expr_trees, field_trees, fun_tree, fun_trees, init_tree, place_tree};
use crate::elaborate::tree::{stmt_tree, BlockT, ExprT, InitT};
use crate::registry::{Additions, TypeDefinitionRegistry};
use crate::scheme::TypeSchemeV;
use crate::span::{Span, SpanV};
use crate::text::same_text;
use crate::typed_ast::{FunBody, GenericBody, SymbolicBody, TypedBlock, TypedDecl, TypedExpr};
use crate::typed_ast::{TypedForInit, TypedForStmt, TypedFunDecl, TypedLetDecl, TypedMatchArm};
use crate::typed_ast::{TypedModule, TypedModuleGraph, TypedMutDecl, TypedPlace, TypedStmt};
use super::generic_bodies::{case_of, function_scheme, method_scheme, no_arguments};
use super::generic_bodies::{prepare_function, prepare_method, reason_for, symbolic_body, ImplSite};
use super::generic_bodies::SymbolicCase;
use super::plain::{is_plain_decl, plain_decl};
use super::symbolic::{additions, additions_for, methods_of, symbolic_methods, SymbolicMethod};

verus! {

/// A generic body that is being typed: the name it stands under, and where it is.
pub struct OpenBody {
    pub name: String,
    pub span: Span,
}

/// The generic bodies that are being typed, from the outermost in, as a mathematical object.
pub open spec fn trail_view(s: Seq<OpenBody>) -> Seq<(Seq<char>, SpanV)> {
    Seq::new(s.len(), |i: int| (s[i].name@, s[i].span@))
}

/// What generic bodies are typed with: the declarations of the program, the schemes of the module,
/// and the generic bodies around them.
pub struct Typing<'a, 'c> {
    pub registry: &'a TypeDefinitionRegistry,
    pub schemes: &'c Vec<SchemeEntry>,
    pub trail: &'c Vec<OpenBody>,
}

/// What generic bodies are typed with, as a mathematical object.
pub ghost struct TypingV {
    pub reg: TypeDefinitionRegistry,
    pub schemes: Vec<SchemeEntry>,
    pub trail: Seq<(Seq<char>, SpanV)>,
}

impl<'a, 'c> View for Typing<'a, 'c> {
    type V = TypingV;

    open spec fn view(&self) -> TypingV {
        TypingV { reg: *self.registry, schemes: *self.schemes, trail: trail_view(self.trail@) }
    }
}

/// Whether a body has no symbolic form, for a reason.
pub open spec fn passed_over(s: SymbolicBody, reason: Seq<char>) -> bool {
    s matches SymbolicBody::Unavailable { reason: r } && r@ == reason
}

/// Whether a body that is ready to be elaborated came out as elaboration has it, with what its
/// symbolic types add to the declarations.
pub open spec fn came_out(
    t: TypingV,
    case: SymbolicCase,
    extra: Additions,
    params: Seq<Param>,
    source: Block,
    s: SymbolicBody,
) -> bool {
    match elaborated_body(
        body_facts(&case.context, &t.schemes, &t.reg, &extra),
        case.context@,
        params,
        source,
    ) {
        Ok(tree) => s matches SymbolicBody::Elaborated { body, env } && block_tree(body) == tree
            && env == case.env,
        Err(e) => passed_over(s, reason_for(t.reg, case.env@.symbolic, e)),
    }
}

/// Whether additions are those that the symbolic types of a body call for.
pub open spec fn additions_of(t: TypingV, case: SymbolicCase, extra: Additions) -> bool {
    let symbolic = case.env@.symbolic;
    additions_for(extra, symbolic, methods_of(t.reg, symbolic, symbolic.len() as int).methods)
}

/// Whether a body with a scheme came out as elaboration for symbolic type arguments has it.
pub open spec fn came_out_for(
    t: TypingV,
    raw: TypeSchemeV,
    generics: Seq<GenericParam>,
    params: Seq<Param>,
    source: Block,
    s: SymbolicBody,
) -> bool {
    exists|case: SymbolicCase, extra: Additions|
        case_of(case, raw, generics, t.reg) && additions_of(t, case, extra) && #[trigger] came_out(
            t,
            case,
            extra,
            params,
            source,
            s,
        )
}

/// Whether a generic body is one of those that are being typed, and so contains itself. There are
/// never more of them than can be counted.
pub open spec fn contains_itself(t: TypingV, name: Seq<char>, source: Block) -> bool {
    t.trail.contains((name, source.span@)) || t.trail.len() >= usize::MAX
}

/// Whether the symbolic form of a generic function, or of a closure under a name, is right.
pub open spec fn right_function(
    t: TypingV,
    name: Seq<char>,
    generics: Seq<GenericParam>,
    params: Seq<Param>,
    source: Block,
    s: SymbolicBody,
) -> bool {
    if contains_itself(t, name, source) {
        passed_over(s, "generic body contains itself"@)
    } else {
        match function_scheme(t.schemes@, name) {
            None => passed_over(s, "function type scheme was unavailable"@),
            Some(raw) => if no_arguments(raw, generics, t.reg) {
                passed_over(
                    s,
                    "function type scheme could not be converted to symbolic arguments"@,
                )
            } else {
                came_out_for(t, raw, generics, params, source, s)
            },
        }
    }
}

/// Whether the symbolic form of a generic method is right.
pub open spec fn right_method(
    t: TypingV,
    site: ImplSite,
    f: TypedFunDecl,
    source: Block,
    s: SymbolicBody,
) -> bool {
    if contains_itself(t, f.name@, source) {
        passed_over(s, "generic body contains itself"@)
    } else {
        match method_scheme(t.reg, site, f.span@, f.generics@, f.params@, *f.return_type) {
            None => passed_over(s, "method type scheme was unavailable"@),
            Some(raw) => if no_arguments(raw, site.generics@ + f.generics@, t.reg) {
                passed_over(s, "method type scheme could not be converted to symbolic arguments"@)
            } else {
                came_out_for(t, raw, site.generics@ + f.generics@, f.params@, source, s)
            },
        }
    }
}

/// What the generic bodies inside a generic body are typed with.
pub open spec fn inside(t: TypingV, name: Seq<char>, source: Block) -> TypingV {
    TypingV { trail: t.trail.push((name, source.span@)), ..t }
}

/// Whether a generic body has a symbolic form, and the generic bodies in that form have theirs.
pub open spec fn filled_within(t: TypingV, name: Seq<char>, g: GenericBody) -> bool
    decreases g, 0int,
{
    match g.symbolic {
        None => false,
        Some(s) => match *s {
            SymbolicBody::Unavailable { reason } => true,
            SymbolicBody::Elaborated { body, env } => filled_block(
                inside(t, name, *g.source),
                body,
            ),
        },
    }
}

/// Whether the generic bodies of a function that stands in no impl have their symbolic forms.
pub open spec fn filled_fun(t: TypingV, f: TypedFunDecl) -> bool
    decreases f, 0int,
{
    match f.body {
        FunBody::Typed(b) => filled_block(t, b),
        FunBody::Generic(g) => filled_within(t, f.name@, g) && right_function(
            t,
            f.name@,
            f.generics@,
            f.params@,
            *g.source,
            *g.symbolic->0,
        ),
        FunBody::Native(_) => true,
    }
}

/// Whether the generic bodies of a method have their symbolic forms.
pub open spec fn filled_method(t: TypingV, site: ImplSite, f: TypedFunDecl) -> bool
    decreases f, 0int,
{
    match f.body {
        FunBody::Typed(b) => filled_block(t, b),
        FunBody::Generic(g) => filled_within(t, f.name@, g) && right_method(
            t,
            site,
            f,
            *g.source,
            *g.symbolic->0,
        ),
        FunBody::Native(_) => true,
    }
}

/// Whether the generic bodies of methods have their symbolic forms.
pub open spec fn filled_methods(t: TypingV, site: ImplSite, s: Seq<TypedFunDecl>) -> bool
    decreases s, 0int,
{
    forall|i: int| 0 <= i < s.len() ==> filled_method(t, site, #[trigger] s[i])
}

/// Whether the generic bodies of a declaration have their symbolic forms.
pub open spec fn filled_decl(t: TypingV, d: TypedDecl) -> bool
    decreases d, 0int,
{
    match d {
        TypedDecl::Let(x) => filled_expr(t, x.value),
        TypedDecl::Mut(x) => filled_expr(t, x.value),
        TypedDecl::Fun(f) => filled_fun(t, f),
        TypedDecl::Impl(x) => filled_methods(
            t,
            (ImplSite {
                generics: x.generics,
                target_type: x.target_type,
                aspect_name: x.aspect_name,
            }),
            x.methods@,
        ),
        TypedDecl::Stmt(s) => filled_stmt(t, *s),
        _ => true,
    }
}

/// Whether the generic bodies of declarations have their symbolic forms.
pub open spec fn filled_decls(t: TypingV, s: Seq<TypedDecl>) -> bool
    decreases s, 0int,
{
    forall|i: int| 0 <= i < s.len() ==> filled_decl(t, #[trigger] s[i])
}

/// Whether the generic bodies of an optional expression have their symbolic forms.
pub open spec fn filled_part(t: TypingV, e: Option<TypedExpr>) -> bool
    decreases e, 0int,
{
    match e {
        Some(x) => filled_expr(t, x),
        None => true,
    }
}

/// Whether the generic bodies of an optional boxed expression have their symbolic forms.
pub open spec fn filled_tail(t: TypingV, e: Option<Box<TypedExpr>>) -> bool
    decreases e, 0int,
{
    match e {
        Some(x) => filled_expr(t, *x),
        None => true,
    }
}

/// Whether the generic bodies of a block have their symbolic forms.
pub open spec fn filled_block(t: TypingV, b: TypedBlock) -> bool
    decreases b, 0int,
{
    filled_decls(t, b.stmts@) && filled_tail(t, b.tail)
}

/// Whether the generic bodies of what a counted loop starts with have their symbolic forms.
pub open spec fn filled_start(t: TypingV, i: TypedForInit) -> bool
    decreases i, 0int,
{
    match i {
        TypedForInit::Let(x) => filled_expr(t, x.value),
        TypedForInit::Mut(x) => filled_expr(t, x.value),
        TypedForInit::Expr(e) => filled_expr(t, e),
    }
}

/// Whether the generic bodies of what a counted loop may start with have their symbolic forms.
pub open spec fn filled_init(t: TypingV, i: Option<TypedForInit>) -> bool
    decreases i, 0int,
{
    match i {
        Some(x) => filled_start(t, x),
        None => true,
    }
}

/// Whether the generic bodies of a statement have their symbolic forms.
pub open spec fn filled_stmt(t: TypingV, s: TypedStmt) -> bool
    decreases s, 0int,
{
    match s {
        TypedStmt::Expr(e) => filled_expr(t, e),
        TypedStmt::While(x) => filled_expr(t, x.condition) && filled_block(t, x.body),
        TypedStmt::For(x) => {
            &&& filled_init(t, x.init)
            &&& filled_part(t, x.condition)
            &&& filled_part(t, x.step)
            &&& filled_block(t, x.body)
        },
        TypedStmt::ForIn(x) => filled_expr(t, x.iterable) && filled_block(t, x.body),
    }
}

/// Whether the generic bodies of a match arm have their symbolic forms.
pub open spec fn filled_arm(t: TypingV, a: TypedMatchArm) -> bool
    decreases a, 0int,
{
    filled_part(t, a.guard) && filled_block(t, a.body)
}

/// Whether the generic bodies of match arms have their symbolic forms.
pub open spec fn filled_arms(t: TypingV, s: Seq<TypedMatchArm>) -> bool
    decreases s, 0int,
{
    forall|i: int| 0 <= i < s.len() ==> filled_arm(t, #[trigger] s[i])
}

/// Whether the generic bodies of expressions have their symbolic forms.
pub open spec fn filled_exprs(t: TypingV, s: Seq<TypedExpr>) -> bool
    decreases s, 0int,
{
    forall|i: int| 0 <= i < s.len() ==> filled_expr(t, #[trigger] s[i])
}

/// Whether the generic bodies of named expressions have their symbolic forms.
pub open spec fn filled_fields(t: TypingV, s: Seq<(String, TypedExpr)>) -> bool
    decreases s, 0int,
{
    forall|i: int| 0 <= i < s.len() ==> filled_expr(t, (#[trigger] s[i]).1)
}

/// Whether the generic bodies of an assignment target have their symbolic forms.
pub open spec fn filled_place(t: TypingV, p: TypedPlace) -> bool
    decreases p, 0int,
{
    match p {
        TypedPlace::Ident(_, _) => true,
        TypedPlace::Field { object, .. } => filled_place(t, *object),
        TypedPlace::Tuple { object, .. } => filled_place(t, *object),
        TypedPlace::Index { object, index, .. } => filled_place(t, *object) && filled_expr(
            t,
            *index,
        ),
        TypedPlace::Deref { object, .. } => filled_expr(t, *object),
    }
}

/// Whether the generic bodies of an expression have their symbolic forms. A generic closure that
/// stands under no name has none: there is no scheme to type it by.
pub open spec fn filled_expr(t: TypingV, e: TypedExpr) -> bool
    decreases e, 0int,
{
    match e {
        TypedExpr::Literal(_, _, _) => true,
        TypedExpr::Ident(_, _, _) => true,
        TypedExpr::Path(_, _, _) => true,
        TypedExpr::Tuple(items, _, _) => filled_exprs(t, items@),
        TypedExpr::Array(items, _, _) => filled_exprs(t, items@),
        TypedExpr::RepeatArray(value, _, _, _) => filled_expr(t, *value),
        TypedExpr::RecordLiteral { fields, .. } => filled_fields(t, fields@),
        TypedExpr::StructLiteral { fields, .. } => filled_fields(t, fields@),
        TypedExpr::BinOp(left, _, right, _, _) => filled_expr(t, *left) && filled_expr(t, *right),
        TypedExpr::UnaryOp(_, inner, _, _) => filled_expr(t, *inner),
        TypedExpr::RefTemp { init, .. } => filled_expr(t, *init),
        TypedExpr::Assign { target, value, .. } => filled_place(t, target) && filled_expr(
            t,
            *value,
        ),
        TypedExpr::Call { callee, args, .. } => filled_expr(t, *callee) && filled_exprs(t, args@),
        TypedExpr::MethodCall { receiver, args, .. } => filled_expr(t, *receiver) && filled_exprs(
            t,
            args@,
        ),
        TypedExpr::FieldAccess { object, .. } => filled_expr(t, *object),
        TypedExpr::TupleAccess { object, .. } => filled_expr(t, *object),
        TypedExpr::Index { object, index, .. } => filled_expr(t, *object) && filled_expr(
            t,
            *index,
        ),
        TypedExpr::Cast { expr, .. } => filled_expr(t, *expr),
        TypedExpr::SingletonCoerce { inner, .. } => filled_expr(t, *inner),
        TypedExpr::Match(m) => filled_expr(t, *m.scrutinee) && filled_arms(t, m.arms@),
        TypedExpr::If { condition, then_branch, else_branch, .. } => {
            &&& filled_expr(t, *condition)
            &&& filled_block(t, then_branch)
            &&& match else_branch {
                Some(b) => filled_block(t, b),
                None => true,
            }
        },
        TypedExpr::Loop { body, .. } => filled_block(t, body),
        TypedExpr::Closure { body, .. } => filled_block(t, body),
        TypedExpr::GenericClosure { name, params, body, .. } => match name {
            Some(n) => filled_within(t, n@, body) && right_function(
                t,
                n@,
                Seq::empty(),
                params@,
                *body.source,
                *body.symbolic->0,
            ),
            None => true,
        },
        TypedExpr::Return(r) => filled_tail(t, r.value),
        TypedExpr::Break(b) => filled_tail(t, b.value),
        TypedExpr::Continue(_) => true,
    }
}

/// The tree of an optional expression.
pub open spec fn part_tree(e: Option<TypedExpr>) -> Option<ExprT> {
    match e {
        Some(x) => Some(expr_tree(x)),
        None => None,
    }
}

/// The tree of an optional boxed expression.
pub open spec fn tail_tree(e: Option<Box<TypedExpr>>) -> Option<Box<ExprT>> {
    match e {
        Some(x) => Some(Box::new(expr_tree(*x))),
        None => None,
    }
}

/// The tree of an optional block.
pub open spec fn branch_tree(b: Option<TypedBlock>) -> Option<BlockT> {
    match b {
        Some(x) => Some(block_tree(x)),
        None => None,
    }
}

/// The tree of what a counted loop may start with.
pub open spec fn started(i: Option<TypedForInit>) -> Option<InitT> {
    match i {
        Some(x) => Some(init_tree(x)),
        None => None,
    }
}

/// Whether one `let` is another up to the symbolic forms in its value.
pub open spec fn same_let(a: TypedLetDecl, b: TypedLetDecl) -> bool {
    &&& b.name == a.name
    &&& b.type_ann == a.type_ann
    &&& b.def_id == a.def_id
    &&& b.span == a.span
    &&& expr_tree(b.value) == expr_tree(a.value)
}

/// Whether one `var` is another up to the symbolic forms in its value.
pub open spec fn same_mut(a: TypedMutDecl, b: TypedMutDecl) -> bool {
    &&& b.name == a.name
    &&& b.type_ann == a.type_ann
    &&& b.def_id == a.def_id
    &&& b.span == a.span
    &&& expr_tree(b.value) == expr_tree(a.value)
}

/// Whether the declarations without generic bodies stayed as they were.
pub open spec fn kept_plain(before: Seq<TypedDecl>, after: Seq<TypedDecl>) -> bool {
    &&& after.len() == before.len()
    &&& forall|i: int|
        0 <= i < after.len() && plain_decl(before[i]) ==> #[trigger] after[i] == before[i]
}

fn is_open(trail: &Vec<OpenBody>, name: &str, source: &Block) -> (r: bool)
    ensures
        r == trail_view(trail@).contains((name@, source.span@)),
{
    let ghost views = trail_view(trail@);
    let mut i: usize = 0;
    while i < trail.len()
        invariant
            i <= trail@.len(),
            views == trail_view(trail@),
            forall|k: int| 0 <= k < i ==> #[trigger] views[k] != (name@, source.span@),
        decreases trail@.len() - i,
    {
        assert(views[i as int] == (trail@[i as int].name@, trail@[i as int].span@));
        if same_text(trail[i].name.as_str(), name) && trail[i].span.same(&source.span) {
            return true;
        }
        i += 1;
    }
    false
}

fn opened(trail: &Vec<OpenBody>, name: &str, source: &Block) -> (r: Vec<OpenBody>)
    ensures
        trail_view(r@) == trail_view(trail@).push((name@, source.span@)),
{
    let mut out: Vec<OpenBody> = Vec::new();
    let mut i: usize = 0;
    while i < trail.len()
        invariant
            i <= trail@.len(),
            out@.len() == i,
            forall|k: int|
                0 <= k < i ==> (#[trigger] out@[k]).name@ == trail@[k].name@ && out@[k].span@
                    == trail@[k].span@,
        decreases trail@.len() - i,
    {
        out.push(OpenBody { name: trail[i].name.clone(), span: trail[i].span.copy() });
        i += 1;
    }
    out.push(OpenBody { name: name.to_owned(), span: source.span.copy() });
    assert(trail_view(out@) =~= trail_view(trail@).push((name@, source.span@)));
    out
}

fn contained<'a>() -> (r: SymbolicBody<'a>)
    ensures
        passed_over(r, "generic body contains itself"@),
{
    SymbolicBody::Unavailable { reason: "generic body contains itself".to_owned() }
}

/// Give a body that is ready to be elaborated its symbolic form, and the generic bodies in it
/// theirs.
fn fill_case<'a>(
    t: &Typing<'a, '_>,
    name: &str,
    case: SymbolicCase,
    params: &'a Vec<Param>,
    source: &'a Block,
) -> (r: SymbolicBody<'a>)
    requires
        !contains_itself(t@, name@, *source),
    ensures
        exists|extra: Additions|
            additions_of(t@, case, extra) && #[trigger] came_out(
                t@,
                case,
                extra,
                params@,
                *source,
                r,
            ),
        r matches SymbolicBody::Elaborated { body, env } ==> filled_block(
            inside(t@, name@, *source),
            body,
        ),
    decreases usize::MAX - t.trail@.len(), 0int,
{
    let methods: Vec<SymbolicMethod> = symbolic_methods(t.registry, &case.env.symbolic_aspects);
    let extra: Additions = additions(&case.env.symbolic_aspects, methods);
    assert(additions_of(t@, case, extra));
    match symbolic_body(case, t.schemes, t.registry, &extra, params, source) {
        SymbolicBody::Unavailable { reason } => {
            let made: SymbolicBody<'a> = SymbolicBody::Unavailable { reason };
            assert(came_out(t@, case, extra, params@, *source, made));
            made
        },
        SymbolicBody::Elaborated { body, env } => {
            let mut typed: TypedBlock<'a> = body;
            let trail: Vec<OpenBody> = opened(t.trail, name, source);
            assert(trail_view(trail@).len() == trail_view(t.trail@).len() + 1);
            assert(trail.len() <= usize::MAX);
            let within: Typing<'a, '_> = Typing {
                registry: t.registry,
                schemes: t.schemes,
                trail: &trail,
            };
            fill_block(&within, &mut typed);
            let made: SymbolicBody<'a> = SymbolicBody::Elaborated { body: typed, env };
            assert(came_out(t@, case, extra, params@, *source, made));
            made
        },
    }
}

/// Give the generic body of a function its symbolic form.
fn fill_function<'a>(
    t: &Typing<'a, '_>,
    name: &str,
    generics: &Vec<GenericParam>,
    params: &'a Vec<Param>,
    g: &mut GenericBody<'a>,
)
    ensures
        final(g).source == old(g).source,
        filled_within(t@, name@, *final(g)),
        right_function(t@, name@, generics@, params@, *old(g).source, *final(g).symbolic->0),
    decreases usize::MAX - t.trail@.len(), 1int,
{
    assert(trail_view(t.trail@).len() == t.trail@.len());
    let source: &'a Block = g.source;
    if is_open(t.trail, name, source) || t.trail.len() == usize::MAX {
        g.symbolic = Some(Box::new(contained()));
        return;
    }
    let made: SymbolicBody<'a> = match prepare_function(t.schemes, name, generics, t.registry) {
        Err(reason) => SymbolicBody::Unavailable { reason },
        Ok(case) => fill_case(t, name, case, params, source),
    };
    g.symbolic = Some(Box::new(made));
}

/// Give the generic body of a method its symbolic form.
fn fill_generic_method<'a>(t: &Typing<'a, '_>, site: &ImplSite, f: &mut TypedFunDecl<'a>)
    requires
        old(f).body is Generic,
    ensures
        fun_tree(*final(f)) == fun_tree(*old(f)),
        filled_method(t@, *site, *final(f)),
    decreases usize::MAX - t.trail@.len(), 1int,
{
    assert(trail_view(t.trail@).len() == t.trail@.len());
    let params: &'a Vec<Param> = f.params;
    match &mut f.body {
        FunBody::Generic(g) => {
            let source: &'a Block = g.source;
            let made: SymbolicBody<'a> = if is_open(t.trail, f.name.as_str(), source)
                || t.trail.len() == usize::MAX {
                contained()
            } else {
                match prepare_method(
                    t.registry,
                    site,
                    &f.span,
                    f.generics,
                    params,
                    f.return_type,
                ) {
                    Err(reason) => SymbolicBody::Unavailable { reason },
                    Ok(case) => fill_case(t, f.name.as_str(), case, params, source),
                }
            };
            g.symbolic = Some(Box::new(made));
        },
        _ => {},
    }
}

fn fill_fun<'a>(t: &Typing<'a, '_>, x: &mut TypedFunDecl<'a>)
    ensures
        fun_tree(*final(x)) == fun_tree(*old(x)),
        filled_fun(t@, *final(x)),
    decreases usize::MAX - t.trail@.len(), 2int, *old(x), 0int,
{
    match &mut x.body {
        FunBody::Typed(b) => fill_block(t, b),
        FunBody::Generic(g) => fill_function(t, x.name.as_str(), x.generics, x.params, g),
        FunBody::Native(_) => {},
    }
}

fn fill_method<'a>(t: &Typing<'a, '_>, site: &ImplSite, x: &mut TypedFunDecl<'a>)
    ensures
        fun_tree(*final(x)) == fun_tree(*old(x)),
        filled_method(t@, *site, *final(x)),
    decreases usize::MAX - t.trail@.len(), 2int, *old(x), 0int,
{
    let generic: bool = matches!(&x.body, FunBody::Generic(_));
    if generic {
        fill_generic_method(t, site, x);
        return;
    }
    match &mut x.body {
        FunBody::Typed(b) => fill_block(t, b),
        _ => {},
    }
}

fn fill_methods<'a>(t: &Typing<'a, '_>, site: &ImplSite, x: &mut Vec<TypedFunDecl<'a>>)
    ensures
        fun_trees(final(x)@) == fun_trees(old(x)@),
        filled_methods(t@, *site, final(x)@),
    decreases usize::MAX - t.trail@.len(), 2int, old(x)@, 0int,
{
    let ghost before = x@;
    let n: usize = x.len();
    let mut i: usize = 0;
    while i < n
        invariant
            i <= n,
            n == before.len(),
            before == old(x)@,
            x@.len() == before.len(),
            forall|k: int| 0 <= k < i ==> fun_tree(#[trigger] x@[k]) == fun_tree(before[k]),
            forall|k: int| 0 <= k < i ==> filled_method(t@, *site, #[trigger] x@[k]),
            forall|k: int| i <= k < n ==> #[trigger] x@[k] == before[k],
        decreases n - i,
    {
        fill_method(t, site, &mut x[i]);
        i += 1;
    }
    assert(fun_trees(x@) =~= fun_trees(before));
}

fn fill_decl<'a>(t: &Typing<'a, '_>, x: &mut TypedDecl<'a>)
    ensures
        decl_tree(*final(x)) == decl_tree(*old(x)),
        filled_decl(t@, *final(x)),
        plain_decl(*old(x)) ==> *final(x) == *old(x),
    decreases usize::MAX - t.trail@.len(), 2int, *old(x), 0int,
{
    if is_plain_decl(t, x) {
        return;
    }
    match x {
        TypedDecl::Let(d) => fill_let(t, d),
        TypedDecl::Mut(d) => fill_mut(t, d),
        TypedDecl::Fun(f) => fill_fun(t, f),
        TypedDecl::Impl(b) => {
            let site: ImplSite = ImplSite {
                generics: b.generics,
                target_type: b.target_type,
                aspect_name: b.aspect_name,
            };
            fill_methods(t, &site, &mut b.methods);
        },
        TypedDecl::Stmt(s) => fill_stmt(t, s),
        TypedDecl::Struct(_) => {},
        TypedDecl::Enum(_) => {},
        TypedDecl::Aspect(_) => {},
    }
}

/// Give the generic bodies of declarations their symbolic forms.
pub(super) fn fill_decls<'a>(t: &Typing<'a, '_>, x: &mut Vec<TypedDecl<'a>>)
    ensures
        decl_trees(final(x)@) == decl_trees(old(x)@),
        filled_decls(t@, final(x)@),
        kept_plain(old(x)@, final(x)@),
    decreases usize::MAX - t.trail@.len(), 2int, old(x)@, 0int,
{
    let ghost before = x@;
    let n: usize = x.len();
    let mut i: usize = 0;
    while i < n
        invariant
            i <= n,
            n == before.len(),
            before == old(x)@,
            x@.len() == before.len(),
            forall|k: int| 0 <= k < i ==> decl_tree(#[trigger] x@[k]) == decl_tree(before[k]),
            forall|k: int| 0 <= k < i ==> filled_decl(t@, #[trigger] x@[k]),
            forall|k: int|
                0 <= k < i && plain_decl(before[k]) ==> #[trigger] x@[k] == before[k],
            forall|k: int| i <= k < n ==> #[trigger] x@[k] == before[k],
        decreases n - i,
    {
        fill_decl(t, &mut x[i]);
        i += 1;
    }
    assert(decl_trees(x@) =~= decl_trees(before));
}

fn fill_part<'a>(t: &Typing<'a, '_>, x: &mut Option<TypedExpr<'a>>)
    ensures
        part_tree(*final(x)) == part_tree(*old(x)),
        filled_part(t@, *final(x)),
    decreases usize::MAX - t.trail@.len(), 2int, *old(x), 0int,
{
    match x {
        Some(e) => fill_expr(t, e),
        None => {},
    }
}

fn fill_tail<'a>(t: &Typing<'a, '_>, x: &mut Option<Box<TypedExpr<'a>>>)
    ensures
        tail_tree(*final(x)) == tail_tree(*old(x)),
        filled_tail(t@, *final(x)),
    decreases usize::MAX - t.trail@.len(), 2int, *old(x), 0int,
{
    match x {
        Some(e) => fill_expr(t, e),
        None => {},
    }
}

fn fill_block<'a>(t: &Typing<'a, '_>, x: &mut TypedBlock<'a>)
    ensures
        block_tree(*final(x)) == block_tree(*old(x)),
        filled_block(t@, *final(x)),
    decreases usize::MAX - t.trail@.len(), 2int, *old(x), 0int,
{
    fill_decls(t, &mut x.stmts);
    fill_tail(t, &mut x.tail);
}

fn fill_init<'a>(t: &Typing<'a, '_>, x: &mut Option<TypedForInit<'a>>)
    ensures
        started(*final(x)) == started(*old(x)),
        filled_init(t@, *final(x)),
    decreases usize::MAX - t.trail@.len(), 2int, *old(x), 0int,
{
    let start: Option<TypedForInit<'a>> = x.take();
    *x = match start {
        Some(i) => {
            let made: TypedForInit<'a> = filled_anew(t, i);
            proof {
                lemma_start(t@, i, made);
            }
            Some(made)
        },
        None => None,
    };
}

/// Whether what a counted loop starts with is right up to the symbolic forms in it.
spec fn start_is(t: TypingV, x: TypedForInit, r: TypedForInit) -> bool {
    match x {
        TypedForInit::Let(d) => r matches TypedForInit::Let(e) && same_let(d, e) && filled_expr(
            t,
            e.value,
        ),
        TypedForInit::Mut(d) => r matches TypedForInit::Mut(e) && same_mut(d, e) && filled_expr(
            t,
            e.value,
        ),
        TypedForInit::Expr(d) => r matches TypedForInit::Expr(e) && expr_tree(d) == expr_tree(e)
            && filled_expr(t, e),
    }
}

proof fn lemma_start(t: TypingV, x: TypedForInit, r: TypedForInit)
    requires
        start_is(t, x, r),
    ensures
        init_tree(r) == init_tree(x),
        filled_start(t, r),
{
}

fn filled_anew<'a>(t: &Typing<'a, '_>, x: TypedForInit<'a>) -> (r: TypedForInit<'a>)
    ensures
        start_is(t@, x, r),
    decreases usize::MAX - t.trail@.len(), 2int, x, 0int,
{
    match x {
        TypedForInit::Let(d) => {
            let mut d: TypedLetDecl<'a> = d;
            fill_let(t, &mut d);
            TypedForInit::Let(d)
        },
        TypedForInit::Mut(d) => {
            let mut d: TypedMutDecl<'a> = d;
            fill_mut(t, &mut d);
            TypedForInit::Mut(d)
        },
        TypedForInit::Expr(e) => {
            let mut e: TypedExpr<'a> = e;
            fill_expr(t, &mut e);
            TypedForInit::Expr(e)
        },
    }
}

fn fill_let<'a>(t: &Typing<'a, '_>, x: &mut TypedLetDecl<'a>)
    ensures
        same_let(*old(x), *final(x)),
        filled_expr(t@, final(x).value),
    decreases usize::MAX - t.trail@.len(), 2int, *old(x), 0int,
{
    fill_expr(t, &mut x.value);
}

fn fill_mut<'a>(t: &Typing<'a, '_>, x: &mut TypedMutDecl<'a>)
    ensures
        same_mut(*old(x), *final(x)),
        filled_expr(t@, final(x).value),
    decreases usize::MAX - t.trail@.len(), 2int, *old(x), 0int,
{
    fill_expr(t, &mut x.value);
}

/// Whether a counted loop is another one whose generic bodies got their symbolic forms.
spec fn for_is(t: TypingV, x: TypedForStmt, r: TypedForStmt) -> bool {
    &&& started(r.init) == started(x.init)
    &&& part_tree(r.condition) == part_tree(x.condition)
    &&& part_tree(r.step) == part_tree(x.step)
    &&& block_tree(r.body) == block_tree(x.body)
    &&& r.span == x.span
    &&& filled_init(t, r.init)
    &&& filled_part(t, r.condition)
    &&& filled_part(t, r.step)
    &&& filled_block(t, r.body)
}

proof fn lemma_for(t: TypingV, x: TypedForStmt, r: TypedForStmt)
    requires
        for_is(t, x, r),
    ensures
        stmt_tree(TypedStmt::For(Box::new(r))) == stmt_tree(TypedStmt::For(Box::new(x))),
        filled_stmt(t, TypedStmt::For(Box::new(r))),
{
}

fn fill_for<'a>(t: &Typing<'a, '_>, x: &mut TypedForStmt<'a>)
    ensures
        for_is(t@, *old(x), *final(x)),
    decreases usize::MAX - t.trail@.len(), 2int, *old(x), 0int,
{
    fill_init(t, &mut x.init);
    fill_part(t, &mut x.condition);
    fill_part(t, &mut x.step);
    fill_block(t, &mut x.body);
}

/// Whether a statement is another one whose generic bodies got their symbolic forms.
spec fn stmt_is(t: TypingV, x: TypedStmt, r: TypedStmt) -> bool {
    match x {
        TypedStmt::Expr(a) => r matches TypedStmt::Expr(b) && expr_tree(a) == expr_tree(b)
            && filled_expr(t, b),
        TypedStmt::While(a) => {
            &&& r is While
            &&& expr_tree(r->While_0.condition) == expr_tree(a.condition)
            &&& block_tree(r->While_0.body) == block_tree(a.body)
            &&& r->While_0.span == a.span
            &&& filled_expr(t, r->While_0.condition)
            &&& filled_block(t, r->While_0.body)
        },
        TypedStmt::For(a) => r matches TypedStmt::For(b) && for_is(t, *a, *b),
        TypedStmt::ForIn(a) => {
            &&& r is ForIn
            &&& r->ForIn_0.binding == a.binding
            &&& r->ForIn_0.mutable == a.mutable
            &&& expr_tree(r->ForIn_0.iterable) == expr_tree(a.iterable)
            &&& block_tree(r->ForIn_0.body) == block_tree(a.body)
            &&& r->ForIn_0.span == a.span
            &&& filled_expr(t, r->ForIn_0.iterable)
            &&& filled_block(t, r->ForIn_0.body)
        },
    }
}

proof fn lemma_stmt(t: TypingV, x: TypedStmt, r: TypedStmt)
    requires
        stmt_is(t, x, r),
    ensures
        stmt_tree(r) == stmt_tree(x),
        filled_stmt(t, r),
{
    if let TypedStmt::For(a) = x {
        lemma_for(t, *a, *(r->For_0));
    }
}

fn fill_stmt_parts<'a>(t: &Typing<'a, '_>, x: &mut TypedStmt<'a>)
    ensures
        stmt_is(t@, *old(x), *final(x)),
    decreases usize::MAX - t.trail@.len(), 2int, *old(x), 0int,
{
    match x {
        TypedStmt::Expr(e) => fill_expr(t, e),
        TypedStmt::While(s) => {
            fill_expr(t, &mut s.condition);
            fill_block(t, &mut s.body);
        },
        TypedStmt::For(s) => fill_for(t, s),
        TypedStmt::ForIn(s) => {
            fill_expr(t, &mut s.iterable);
            fill_block(t, &mut s.body);
        },
    }
}

fn fill_stmt<'a>(t: &Typing<'a, '_>, x: &mut TypedStmt<'a>)
    ensures
        stmt_tree(*final(x)) == stmt_tree(*old(x)),
        filled_stmt(t@, *final(x)),
    decreases usize::MAX - t.trail@.len(), 2int, *old(x), 1int,
{
    fill_stmt_parts(t, x);
    proof {
        lemma_stmt(t@, *old(x), *x);
    }
}

fn fill_arm<'a>(t: &Typing<'a, '_>, x: &mut TypedMatchArm<'a>)
    ensures
        arm_tree(*final(x)) == arm_tree(*old(x)),
        filled_arm(t@, *final(x)),
    decreases usize::MAX - t.trail@.len(), 2int, *old(x), 0int,
{
    fill_part(t, &mut x.guard);
    fill_block(t, &mut x.body);
}

fn fill_arms<'a>(t: &Typing<'a, '_>, x: &mut Vec<TypedMatchArm<'a>>)
    ensures
        arm_trees(final(x)@) == arm_trees(old(x)@),
        filled_arms(t@, final(x)@),
    decreases usize::MAX - t.trail@.len(), 2int, old(x)@, 0int,
{
    let ghost before = x@;
    let n: usize = x.len();
    let mut i: usize = 0;
    while i < n
        invariant
            i <= n,
            n == before.len(),
            before == old(x)@,
            x@.len() == before.len(),
            forall|k: int| 0 <= k < i ==> arm_tree(#[trigger] x@[k]) == arm_tree(before[k]),
            forall|k: int| 0 <= k < i ==> filled_arm(t@, #[trigger] x@[k]),
            forall|k: int| i <= k < n ==> #[trigger] x@[k] == before[k],
        decreases n - i,
    {
        fill_arm(t, &mut x[i]);
        i += 1;
    }
    assert(arm_trees(x@) =~= arm_trees(before));
}

fn fill_exprs<'a>(t: &Typing<'a, '_>, x: &mut Vec<TypedExpr<'a>>)
    ensures
        expr_trees(final(x)@) == expr_trees(old(x)@),
        filled_exprs(t@, final(x)@),
    decreases usize::MAX - t.trail@.len(), 2int, old(x)@, 0int,
{
    let ghost before = x@;
    let n: usize = x.len();
    let mut i: usize = 0;
    while i < n
        invariant
            i <= n,
            n == before.len(),
            before == old(x)@,
            x@.len() == before.len(),
            forall|k: int| 0 <= k < i ==> expr_tree(#[trigger] x@[k]) == expr_tree(before[k]),
            forall|k: int| 0 <= k < i ==> filled_expr(t@, #[trigger] x@[k]),
            forall|k: int| i <= k < n ==> #[trigger] x@[k] == before[k],
        decreases n - i,
    {
        fill_expr(t, &mut x[i]);
        i += 1;
    }
    assert(expr_trees(x@) =~= expr_trees(before));
}

fn fill_fields<'a>(t: &Typing<'a, '_>, x: &mut Vec<(String, TypedExpr<'a>)>)
    ensures
        field_trees(final(x)@) == field_trees(old(x)@),
        filled_fields(t@, final(x)@),
    decreases usize::MAX - t.trail@.len(), 2int, old(x)@, 0int,
{
    let ghost before = x@;
    let n: usize = x.len();
    let mut i: usize = 0;
    while i < n
        invariant
            i <= n,
            n == before.len(),
            before == old(x)@,
            x@.len() == before.len(),
            forall|k: int| 0 <= k < i ==> ((#[trigger] x@[k]).0@, expr_tree(x@[k].1)) == (before[k].0@, expr_tree(before[k].1)),
            forall|k: int| 0 <= k < i ==> filled_expr(t@, (#[trigger] x@[k]).1),
            forall|k: int| i <= k < n ==> #[trigger] x@[k] == before[k],
        decreases n - i,
    {
        fill_field(t, &mut x[i]);
        i += 1;
    }
    assert(field_trees(x@) =~= field_trees(before));
}

fn fill_field<'a>(t: &Typing<'a, '_>, x: &mut (String, TypedExpr<'a>))
    ensures
        final(x).0 == old(x).0,
        expr_tree(final(x).1) == expr_tree(old(x).1),
        filled_expr(t@, final(x).1),
    decreases usize::MAX - t.trail@.len(), 2int, *old(x), 0int,
{
    fill_expr(t, &mut x.1);
}

fn fill_place<'a>(t: &Typing<'a, '_>, x: &mut TypedPlace<'a>)
    ensures
        place_tree(*final(x)) == place_tree(*old(x)),
        filled_place(t@, *final(x)),
    decreases usize::MAX - t.trail@.len(), 2int, *old(x), 0int,
{
    match x {
        TypedPlace::Ident(_, _) => {},
        TypedPlace::Field { object, .. } => fill_place(t, object),
        TypedPlace::Tuple { object, .. } => fill_place(t, object),
        TypedPlace::Index { object, index, .. } => {
            fill_place(t, object);
            fill_expr(t, index);
        },
        TypedPlace::Deref { object, .. } => fill_expr(t, object),
    }
}

fn fill_expr<'a>(t: &Typing<'a, '_>, x: &mut TypedExpr<'a>)
    ensures
        expr_tree(*final(x)) == expr_tree(*old(x)),
        filled_expr(t@, *final(x)),
    decreases usize::MAX - t.trail@.len(), 2int, *old(x), 0int,
{
    match x {
        TypedExpr::Literal(_, _, _) => {},
        TypedExpr::Ident(_, _, _) => {},
        TypedExpr::Path(_, _, _) => {},
        TypedExpr::Tuple(items, _, _) => fill_exprs(t, items),
        TypedExpr::Array(items, _, _) => fill_exprs(t, items),
        TypedExpr::RepeatArray(value, _, _, _) => fill_expr(t, value),
        TypedExpr::RecordLiteral { fields, .. } => fill_fields(t, fields),
        TypedExpr::StructLiteral { fields, .. } => fill_fields(t, fields),
        TypedExpr::BinOp(left, _, right, _, _) => {
            fill_expr(t, left);
            fill_expr(t, right);
        },
        TypedExpr::UnaryOp(_, inner, _, _) => fill_expr(t, inner),
        TypedExpr::RefTemp { init, .. } => fill_expr(t, init),
        TypedExpr::Assign { target, value, .. } => {
            fill_place(t, target);
            fill_expr(t, value);
        },
        TypedExpr::Call { callee, args, .. } => {
            fill_expr(t, callee);
            fill_exprs(t, args);
        },
        TypedExpr::MethodCall { receiver, args, .. } => {
            fill_expr(t, receiver);
            fill_exprs(t, args);
        },
        TypedExpr::FieldAccess { object, .. } => fill_expr(t, object),
        TypedExpr::TupleAccess { object, .. } => fill_expr(t, object),
        TypedExpr::Index { object, index, .. } => {
            fill_expr(t, object);
            fill_expr(t, index);
        },
        TypedExpr::Cast { expr, .. } => fill_expr(t, expr),
        TypedExpr::SingletonCoerce { inner, .. } => fill_expr(t, inner),
        TypedExpr::Match(m) => {
            fill_expr(t, &mut m.scrutinee);
            fill_arms(t, &mut m.arms);
        },
        TypedExpr::If { condition, then_branch, else_branch, .. } => {
            fill_expr(t, condition);
            fill_block(t, then_branch);
            fill_branch(t, else_branch);
        },
        TypedExpr::Loop { body, .. } => fill_block(t, body),
        TypedExpr::Closure { body, .. } => fill_block(t, body),
        TypedExpr::GenericClosure { name, params, body, .. } => match name {
            Some(n) => {
                let none: Vec<GenericParam> = Vec::new();
                assert(none@ =~= Seq::empty());
                fill_function(t, n.as_str(), &none, params, body);
            },
            None => {},
        },
        TypedExpr::Return(r) => fill_tail(t, &mut r.value),
        TypedExpr::Break(b) => fill_tail(t, &mut b.value),
        TypedExpr::Continue(_) => {},
    }
}

fn fill_branch<'a>(t: &Typing<'a, '_>, x: &mut Option<TypedBlock<'a>>)
    ensures
        branch_tree(*final(x)) == branch_tree(*old(x)),
        *final(x) matches Some(b) ==> filled_block(t@, b),
    decreases usize::MAX - t.trail@.len(), 2int, *old(x), 0int,
{
    match x {
        Some(b) => fill_block(t, b),
        None => {},
    }
}

/// What the generic bodies of a module are typed with.
pub open spec fn typing_of(reg: TypeDefinitionRegistry, m: TypedModule) -> TypingV {
    TypingV { reg, schemes: *m.schemes, trail: Seq::empty() }
}

/// Whether a module is another one whose generic bodies got their symbolic forms.
pub open spec fn module_filled(
    reg: TypeDefinitionRegistry,
    before: TypedModule,
    after: TypedModule,
) -> bool {
    &&& after.path == before.path
    &&& after.schemes == before.schemes
    &&& decl_trees(after.decls@) == decl_trees(before.decls@)
    &&& filled_decls(typing_of(reg, after), after.decls@)
    &&& kept_plain(before.decls@, after.decls@)
}

/// Whether a program is another one whose generic bodies got their symbolic forms.
pub open spec fn graph_filled(before: TypedModuleGraph, after: TypedModuleGraph) -> bool {
    &&& after.type_registry == before.type_registry
    &&& after.modules@.len() == before.modules@.len()
    &&& forall|i: int|
        0 <= i < after.modules@.len() ==> module_filled(
            *after.type_registry,
            before.modules@[i],
            #[trigger] after.modules@[i],
        )
}

fn fill_module<'a>(registry: &'a TypeDefinitionRegistry, m: &mut TypedModule<'a>)
    ensures
        module_filled(*registry, *old(m), *final(m)),
{
    let trail: Vec<OpenBody> = Vec::new();
    assert(trail_view(trail@) =~= Seq::empty());
    let t: Typing<'a, '_> = Typing { registry, schemes: m.schemes, trail: &trail };
    fill_decls(&t, &mut m.decls);
}

/// Give every generic body of a program its symbolic form.
pub fn fill_graph<'a>(graph: &mut TypedModuleGraph<'a>)
    ensures
        graph_filled(*old(graph), *final(graph)),
{
    let registry: &'a TypeDefinitionRegistry = graph.type_registry;
    let ghost before = graph.modules@;
    let n: usize = graph.modules.len();
    let mut i: usize = 0;
    while i < n
        invariant
            i <= n,
            n == before.len(),
            before == old(graph).modules@,
            graph.type_registry == old(graph).type_registry,
            graph.type_registry == registry,
            graph.modules@.len() == n,
            forall|k: int|
                0 <= k < i ==> module_filled(*registry, before[k], #[trigger] graph.modules@[k]),
            forall|k: int| i <= k < n ==> #[trigger] graph.modules@[k] == before[k],
        decreases n - i,
    {
        fill_module(registry, &mut graph.modules[i]);
        i += 1;
    }
}

} // verus!
