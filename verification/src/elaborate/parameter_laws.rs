//! What type parameters, parameters, fields and patterns stand for.
use vstd::prelude::*;
use crate::ast::{Decl, Expr, FunDecl, Param, TypeExprV};
use crate::conversions::{all_denoted, denoted, generic_named, TypeScopeV};
use crate::error::{MetelErrorV, TypeErrorCode};
use crate::infer::{law_lowering_undoes_lifting, lifted, lowered, resolved, substituted};
use crate::infer::{substituted_all, substituted_fields, InferTypeV, TypeVar};
use crate::lookup::field_named;
use crate::registry::{FieldEntry, StructInfo};
use crate::scheme::TypeScheme;
use crate::span::{Span, SpanV};
use crate::types::{peeled, TypeV};
use super::fields::{bound_fields, bound_parts, bound_pattern, generic_struct, read_field};
use super::fields::{struct_field, Bound, FieldV};
use super::laws::law_a_binding_shadows;
use super::literals::{lowered_params, signature};
use super::pattern::PatternV;
use super::rules::{remapped, type_args_map};
use super::schemes::{bound_vars, call_bindings, opened_returns, projected_assocs};
use super::schemes::turbofish_instance;
use super::state::{bound, bound_params, fields_of, local_field, var_of, Facts, LocalFieldV, StateV};
use super::steps::{decl_step, decls_step, expr_step, fun_step};
use super::tree::{tree_ty, BodyT, DeclT, ExprT};

verus! {

/// A type with variables replaced: a variable that is bound is what it is bound to, one that is not
/// stays, and every other type keeps its form, with its parts in order.
pub proof fn law_substitution_replaces_variables_only(
    m: Map<TypeVar, InferTypeV>,
    v: TypeVar,
    t: InferTypeV,
    c: TypeV,
    s: Seq<InferTypeV>,
    fields: Seq<(Seq<char>, InferTypeV)>,
    name: Seq<char>,
    n: u64,
)
    ensures
        ({
            let put = |t: InferTypeV| substituted(m, t);
            let puts = Seq::new(s.len(), |i: int| substituted(m, s[i]));
            &&& m.dom().contains(v) ==> put(InferTypeV::Var(v)) == m[v]
            &&& !m.dom().contains(v) ==> put(InferTypeV::Var(v)) == InferTypeV::Var(v)
            &&& put(InferTypeV::Concrete(c)) == InferTypeV::Concrete(c)
            &&& put(InferTypeV::Never) == InferTypeV::Never
            &&& put(InferTypeV::Tuple(s)) == InferTypeV::Tuple(puts)
            &&& put(InferTypeV::Named(name, s)) == InferTypeV::Named(name, puts)
            &&& put(InferTypeV::Array(Box::new(t))) == InferTypeV::Array(Box::new(put(t)))
            &&& put(InferTypeV::SizedArray(Box::new(t), n)) == InferTypeV::SizedArray(
                Box::new(put(t)),
                n,
            )
            &&& put(InferTypeV::Reference(Box::new(t))) == InferTypeV::Reference(Box::new(put(t)))
            &&& put(InferTypeV::MutReference(Box::new(t))) == InferTypeV::MutReference(
                Box::new(put(t)),
            )
            &&& put(InferTypeV::Fun(s, Box::new(t))) == InferTypeV::Fun(puts, Box::new(put(t)))
            &&& put(InferTypeV::Record(fields)) == InferTypeV::Record(
                Seq::new(fields.len(), |i: int| (fields[i].0, substituted(m, fields[i].1))),
            )
        }),
{
    assert(substituted_all(m, s) =~= Seq::new(s.len(), |i: int| substituted(m, s[i])));
    assert(substituted_fields(m, fields) =~= Seq::new(
        fields.len(),
        |i: int| (fields[i].0, substituted(m, fields[i].1)),
    ));
}

proof fn lemma_bound_vars(
    m: Map<TypeVar, InferTypeV>,
    vars: Seq<TypeVar>,
    types: Seq<TypeV>,
    i: int,
    n: int,
)
    requires
        vars.no_duplicates(),
        0 <= i < n <= vars.len(),
        n <= types.len(),
    ensures
        bound_vars(m, vars, types, n).dom().contains(vars[i]),
        bound_vars(m, vars, types, n)[vars[i]] == lifted(types[i]),
    decreases n,
{
    if i < n - 1 {
        lemma_bound_vars(m, vars, types, i, n - 1);
        assert(vars[i] != vars[n - 1]);
    }
}

/// The variable at a position is bound to the type at that position.
pub proof fn law_variables_are_bound_by_position(
    vars: Seq<TypeVar>,
    types: Seq<TypeV>,
    i: int,
)
    requires
        vars.no_duplicates(),
        vars.len() == types.len(),
        0 <= i < vars.len(),
    ensures
        lowered(
            substituted(
                bound_vars(Map::empty(), vars, types, vars.len() as int),
                InferTypeV::Var(vars[i]),
            ),
        ) == types[i],
        lowered(substituted(type_args_map(vars, types), InferTypeV::Var(vars[i]))) == types[i],
{
    lemma_bound_vars(Map::empty(), vars, types, i, vars.len() as int);
    lemma_remapped(vars, types, i, vars.len() as int);
    law_lowering_undoes_lifting(types[i]);
}

proof fn lemma_remapped(params: Seq<TypeVar>, args: Seq<TypeV>, i: int, n: int)
    requires
        params.no_duplicates(),
        params.len() == args.len(),
        0 <= i < n <= params.len(),
    ensures
        remapped(params, args, n).dom().contains(params[i]),
        remapped(params, args, n)[params[i]] == InferTypeV::Concrete(args[i]),
    decreases n,
{
    if i < n - 1 {
        lemma_remapped(params, args, i, n - 1);
        assert(params[i] != params[n - 1]);
    }
}

/// Whether an entry is the first of its name.
pub open spec fn first_entry(s: Seq<FieldEntry>, name: Seq<char>, k: int) -> bool {
    0 <= k < s.len() && s[k].name@ == name && forall|j: int|
        0 <= j < k ==> (#[trigger] s[j]).name@ != name
}

proof fn lemma_field_named(s: Seq<FieldEntry>, name: Seq<char>, k: int)
    requires
        first_entry(s, name, k),
    ensures
        field_named(s, name) == Some(s[k]),
    decreases k,
{
    if k > 0 {
        assert(s[0].name@ != name);
        let rest = s.skip(1);
        assert forall|j: int| 0 <= j < k - 1 implies (#[trigger] rest[j]).name@ != name by {
            assert(rest[j] == s[j + 1]);
        }
        lemma_field_named(rest, name, k - 1);
        assert(field_named(s, name) == field_named(rest, name));
    }
}

/// A field of a generic struct whose type is a type parameter has the type argument at the
/// position of that parameter.
pub proof fn law_generic_fields_have_their_type_arguments(
    fx: Facts,
    n: nat,
    object: Expr,
    field: String,
    span: Span,
    hint: Option<TypeV>,
    st: StateV,
    o: ExprT,
    name: Seq<char>,
    args: Seq<TypeV>,
    params: Seq<TypeVar>,
    info: StructInfo,
    k: int,
    i: int,
)
    requires
        expr_step(fx, n, object, None, st).out == Ok::<ExprT, MetelErrorV>(o),
        peeled(tree_ty(o)) == TypeV::Named(name, args),
        generic_struct(fx, name) == Some((params, info)),
        params.no_duplicates(),
        params.len() == args.len(),
        first_entry(info.fields@, field@, k),
        0 <= i < params.len(),
        info.fields@[k].ty@ == InferTypeV::Var(params[i]),
    ensures
        expr_step(
            fx,
            n,
            Expr::FieldAccess { object: Box::new(object), field, span },
            hint,
            st,
        ).out == Ok::<ExprT, MetelErrorV>(
            ExprT::FieldAccess { object: Box::new(o), field: field@, ty: args[i], span: span@ },
        ),
{
    lemma_field_named(info.fields@, field@, k);
    lemma_bound_vars(Map::empty(), params, args, i, params.len() as int);
    law_lowering_undoes_lifting(args[i]);
    let x = expr_step(fx, n, object, None, st);
    assert(struct_field(fx, x.st, name, args, field@, span@) == FieldV::Found(
        Ok::<TypeV, MetelErrorV>(args[i]),
    ));
    assert(read_field(fx, x.st, tree_ty(o), field@, span@) == Ok::<TypeV, MetelErrorV>(args[i]));
}

proof fn lemma_local_field(s: Seq<LocalFieldV>, name: Seq<char>, k: int)
    requires
        0 <= k < s.len(),
        s[k].name == name,
        forall|j: int| 0 <= j < k ==> (#[trigger] s[j]).name != name,
    ensures
        local_field(s, name) == Some(s[k]),
    decreases k,
{
    if k > 0 {
        assert(s[0].name != name);
        let rest = s.skip(1);
        assert forall|j: int| 0 <= j < k - 1 implies (#[trigger] rest[j]).name != name by {
            assert(rest[j] == s[j + 1]);
        }
        lemma_local_field(rest, name, k - 1);
    }
}

/// A field of a struct without type parameters has the type it is declared with; a name that is no
/// field is refused.
pub proof fn law_fields_have_the_types_they_are_declared_with(
    fx: Facts,
    st: StateV,
    object: TypeV,
    name: Seq<char>,
    args: Seq<TypeV>,
    fields: Seq<LocalFieldV>,
    field: Seq<char>,
    span: SpanV,
    k: int,
)
    requires
        peeled(object) == TypeV::Named(name, args),
        generic_struct(fx, name) is None,
        fields_of(st.structs, name) == Some(fields),
    ensures
        0 <= k < fields.len() && fields[k].name == field && (forall|j: int|
            0 <= j < k ==> (#[trigger] fields[j]).name != field) ==> read_field(
            fx,
            st,
            object,
            field,
            span,
        ) == Ok::<TypeV, MetelErrorV>(fields[k].ty),
        (forall|j: int| 0 <= j < fields.len() ==> (#[trigger] fields[j]).name != field)
            ==> read_field(fx, st, object, field, span) is Err,
{
    if 0 <= k < fields.len() && fields[k].name == field && (forall|j: int|
        0 <= j < k ==> (#[trigger] fields[j]).name != field) {
        lemma_local_field(fields, field, k);
    }
    if forall|j: int| 0 <= j < fields.len() ==> (#[trigger] fields[j]).name != field {
        lemma_no_field(fields, field);
    }
}

proof fn lemma_no_field(s: Seq<LocalFieldV>, name: Seq<char>)
    requires
        forall|j: int| 0 <= j < s.len() ==> (#[trigger] s[j]).name != name,
    ensures
        local_field(s, name) is None,
    decreases s.len(),
{
    if s.len() > 0 {
        assert(s[0].name != name);
        let rest = s.skip(1);
        assert forall|j: int| 0 <= j < rest.len() implies (#[trigger] rest[j]).name != name by {
            assert(rest[j] == s[j + 1]);
        }
        lemma_no_field(rest, name);
    }
}

proof fn lemma_bound_open(st: StateV, name: Seq<char>, ty: TypeV)
    ensures
        bound(st, name, ty).scopes.len() == st.scopes.len(),
{
    reveal(bound);
}

/// The parameter at a position has the type at that position inside the body.
pub proof fn law_parameters_have_their_types_by_position(
    st: StateV,
    params: Seq<Param>,
    types: Seq<TypeV>,
    i: int,
    n: int,
)
    requires
        st.scopes.len() > 0,
        0 <= i < n <= params.len(),
        n <= types.len(),
        forall|j: int| i < j < n ==> (#[trigger] params[j]).name@ != params[i].name@,
    ensures
        var_of(bound_params(st, params, types, n).scopes, params[i].name@) == Some(types[i]),
        bound_params(st, params, types, n).scopes.len() == st.scopes.len(),
    decreases n,
{
    let before = bound_params(st, params, types, n - 1);
    lemma_params_open(st, params, types, n - 1);
    lemma_bound_open(before, params[n - 1].name@, types[n - 1]);
    law_a_binding_shadows(before, params[n - 1].name@, params[i].name@, types[n - 1]);
    if i < n - 1 {
        law_parameters_have_their_types_by_position(st, params, types, i, n - 1);
        assert(params[n - 1].name@ != params[i].name@);
    }
}

proof fn lemma_params_open(st: StateV, params: Seq<Param>, types: Seq<TypeV>, n: int)
    ensures
        bound_params(st, params, types, n).scopes.len() == st.scopes.len(),
    decreases n,
{
    if !(n <= 0 || n > params.len() || n > types.len()) {
        lemma_params_open(st, params, types, n - 1);
        lemma_bound_open(
            bound_params(st, params, types, n - 1),
            params[n - 1].name@,
            types[n - 1],
        );
    }
}

/// A name as a pattern is bound to the whole value; the names of a tuple pattern are bound to the
/// elements at their positions; `_` and literals bind nothing.
pub proof fn law_patterns_bind_by_position(
    fx: Facts,
    names: Seq<Seq<char>>,
    items: Seq<TypeV>,
    parts: Seq<PatternV>,
    at: SpanV,
    st: StateV,
    i: int,
)
    requires
        st.scopes.len() > 0,
        names.len() == items.len(),
        parts.len() == items.len(),
        forall|k: int|
            0 <= k < parts.len() ==> (#[trigger] parts[k] matches PatternV::Binding(name, _) && name
                == names[k]),
        forall|j: int, k: int| 0 <= j < k < names.len() ==> names[j] != names[k],
        0 <= i < names.len(),
    ensures
        bound_pattern(fx, PatternV::Wildcard(at), items[i], st) == (Bound { err: None, st }),
        var_of(bound_pattern(fx, parts[i], items[i], st).st.scopes, names[i]) == Some(items[i]),
        ({
            let b = bound_pattern(fx, PatternV::Tuple(parts, at), TypeV::Tuple(items), st);
            b.err is None && var_of(b.st.scopes, names[i]) == Some(items[i])
        }),
{
    let p = parts[i];
    law_a_binding_shadows(st, names[i], names[i], items[i]);
    assert(bound_pattern(fx, p, items[i], st).st == bound(st, names[i], items[i]));
    lemma_parts(fx, names, items, parts, st, i, items.len() as int);
    assert(bound_pattern(fx, PatternV::Tuple(parts, at), TypeV::Tuple(items), st) == bound_parts(
        fx,
        parts,
        items,
        st,
        items.len() as int,
    ));
}

proof fn lemma_parts(
    fx: Facts,
    names: Seq<Seq<char>>,
    items: Seq<TypeV>,
    parts: Seq<PatternV>,
    st: StateV,
    i: int,
    n: int,
)
    requires
        st.scopes.len() > 0,
        names.len() == items.len(),
        parts.len() == items.len(),
        forall|k: int|
            0 <= k < parts.len() ==> (#[trigger] parts[k] matches PatternV::Binding(name, _) && name
                == names[k]),
        forall|j: int, k: int| 0 <= j < k < names.len() ==> names[j] != names[k],
        0 <= n <= items.len(),
        0 <= i < items.len(),
    ensures
        bound_parts(fx, parts, items, st, n).err is None,
        bound_parts(fx, parts, items, st, n).st.scopes.len() == st.scopes.len(),
        i < n ==> var_of(bound_parts(fx, parts, items, st, n).st.scopes, names[i]) == Some(items[i]),
    decreases n,
{
    if n > 0 {
        lemma_parts(fx, names, items, parts, st, i, n - 1);
        let before = bound_parts(fx, parts, items, st, n - 1).st;
        let p = parts[n - 1];
        assert(bound_pattern(fx, p, items[n - 1], before) == (Bound {
            err: None,
            st: bound(before, names[n - 1], items[n - 1]),
        }));
        lemma_bound_open(before, names[n - 1], items[n - 1]);
        law_a_binding_shadows(before, names[n - 1], names[i], items[n - 1]);
        if i < n - 1 {
            assert(names[i] != names[n - 1]);
        }
    }
}

/// A field that a pattern takes out of a struct or a variant is bound to the type that the field is
/// declared with, for the type arguments of the value.
pub proof fn law_field_patterns_bind_the_type_of_the_field(
    field: Seq<char>,
    entries: Seq<FieldEntry>,
    params: Seq<TypeVar>,
    args: Seq<TypeV>,
    subject: Seq<char>,
    st: StateV,
    k: int,
    i: int,
)
    requires
        st.scopes.len() > 0,
        first_entry(entries, field, k),
        params.no_duplicates(),
        params.len() == args.len(),
        0 <= i < params.len(),
        entries[k].ty@ == InferTypeV::Var(params[i]),
    ensures
        ({
            let b = bound_fields(seq![field], entries, type_args_map(params, args), subject, st, 1);
            b.err is None && var_of(b.st.scopes, field) == Some(args[i])
        }),
{
    reveal_with_fuel(bound_fields, 2);
    lemma_field_named(entries, field, k);
    lemma_remapped(params, args, i, params.len() as int);
    law_a_binding_shadows(st, field, field, args[i]);
}

/// The types of the parameters of a function are those of its function type, one by one, and so is
/// the type it returns.
pub proof fn law_signatures_go_by_position(
    params: Seq<InferTypeV>,
    ret: InferTypeV,
    name: Seq<char>,
    span: SpanV,
    i: int,
)
    requires
        0 <= i < params.len(),
        forall|k: int| 0 <= k < params.len() ==> resolved(#[trigger] params[k]),
    ensures
        signature(InferTypeV::Fun(params, Box::new(ret)), name, span) matches Ok(sig) && {
            &&& sig.0.len() == params.len()
            &&& sig.0[i] == lowered(params[i])
            &&& resolved(ret) ==> sig.1 == Some(lowered(ret))
            &&& !resolved(ret) ==> sig.1 is None
        },
{
    lemma_lowered(params, span, i, params.len() as int);
}

proof fn lemma_lowered(s: Seq<InferTypeV>, span: SpanV, i: int, n: int)
    requires
        0 <= i < s.len(),
        0 <= n <= s.len(),
        forall|k: int| 0 <= k < s.len() ==> resolved(#[trigger] s[k]),
    ensures
        lowered_params(s, span, n) matches Ok(types) && types.len() == n && (i < n ==> types[i]
            == lowered(s[i])),
    decreases n,
{
    if n > 0 {
        lemma_lowered(s, span, i, n - 1);
        assert(resolved(s[n - 1]));
    }
}

/// The built-in types are written by their names, where no type parameter has that name.
pub proof fn law_built_in_types_are_written_by_name(scope: TypeScopeV)
    requires
        scope.generics.len() == 0,
        scope.aspect is None,
    ensures
        ({
            let named = |name: Seq<char>| denoted(scope, TypeExprV::Named(name, Seq::empty()));
            &&& named("i8"@) == InferTypeV::Concrete(TypeV::I8)
            &&& named("i16"@) == InferTypeV::Concrete(TypeV::I16)
            &&& named("i32"@) == InferTypeV::Concrete(TypeV::I32)
            &&& named("i64"@) == InferTypeV::Concrete(TypeV::I64)
            &&& named("u8"@) == InferTypeV::Concrete(TypeV::U8)
            &&& named("u16"@) == InferTypeV::Concrete(TypeV::U16)
            &&& named("u32"@) == InferTypeV::Concrete(TypeV::U32)
            &&& named("u64"@) == InferTypeV::Concrete(TypeV::U64)
            &&& named("f32"@) == InferTypeV::Concrete(TypeV::F32)
            &&& named("f64"@) == InferTypeV::Concrete(TypeV::F64)
            &&& named("boolean"@) == InferTypeV::Concrete(TypeV::Boolean)
            &&& named("Char"@) == InferTypeV::Concrete(TypeV::Char)
            &&& named("String"@) == InferTypeV::Concrete(TypeV::Str)
            &&& named("!"@) == InferTypeV::Never
        }),
{
    reveal_strlit("i8");
    reveal_strlit("i16");
    reveal_strlit("i32");
    reveal_strlit("i64");
    reveal_strlit("u8");
    reveal_strlit("u16");
    reveal_strlit("u32");
    reveal_strlit("u64");
    reveal_strlit("f32");
    reveal_strlit("f64");
    reveal_strlit("boolean");
    reveal_strlit("Char");
    reveal_strlit("String");
    reveal_strlit("!");
    reveal_strlit("Self");
    assert("i8"@.len() == 2 && "i16"@.len() == 3 && "boolean"@.len() == 7 && "Char"@.len() == 4
        && "String"@.len() == 6 && "!"@.len() == 1 && "Self"@.len() == 4);
    assert("i8"@[0] != "u8"@[0]);
    assert("i16"@[0] == 'i' && "u16"@[0] == 'u' && "f32"@[0] == 'f');
    assert("i16"@[1] == '1' && "i32"@[1] == '3' && "i64"@[1] == '6');
    assert("u16"@[1] == '1' && "u32"@[1] == '3' && "u64"@[1] == '6');
    assert("i32"@[0] == 'i' && "u32"@[0] == 'u');
    assert("i64"@[0] == 'i' && "u64"@[0] == 'u' && "f64"@[0] == 'f');
    assert("f32"@[1] == '3' && "f64"@[1] == '6');
    assert("Char"@[0] == 'C' && "Self"@[0] == 'S');
}

/// A written type denotes a type of the same form, part by part; a type parameter denotes what it
/// stands for, and a name with type arguments the type of that name with theirs.
pub proof fn law_written_types_denote_types_of_their_form(
    scope: TypeScopeV,
    name: Seq<char>,
    s: Seq<TypeExprV>,
    t: TypeExprV,
    n: u64,
    k: int,
)
    ensures
        ({
            let all = Seq::new(s.len(), |i: int| denoted(scope, s[i]));
            &&& s.len() > 0 ==> denoted(scope, TypeExprV::Named(name, s)) == InferTypeV::Named(
                name,
                all,
            )
            &&& denoted(scope, TypeExprV::Unit) == InferTypeV::Concrete(TypeV::Unit)
            &&& denoted(scope, TypeExprV::Tuple(s)) == InferTypeV::Tuple(all)
            &&& denoted(scope, TypeExprV::Array(Box::new(t))) == InferTypeV::Array(
                Box::new(denoted(scope, t)),
            )
            &&& denoted(scope, TypeExprV::SizedArray(Box::new(t), n)) == InferTypeV::SizedArray(
                Box::new(denoted(scope, t)),
                n,
            )
            &&& denoted(scope, TypeExprV::Reference(Box::new(t))) == InferTypeV::Reference(
                Box::new(denoted(scope, t)),
            )
            &&& denoted(scope, TypeExprV::MutReference(Box::new(t))) == InferTypeV::MutReference(
                Box::new(denoted(scope, t)),
            )
            &&& denoted(scope, TypeExprV::Fun(s, Some(Box::new(t)))) == InferTypeV::Fun(
                all,
                Box::new(denoted(scope, t)),
            )
            &&& denoted(scope, TypeExprV::Fun(s, None)) == InferTypeV::Fun(
                all,
                Box::new(InferTypeV::Concrete(TypeV::Unit)),
            )
            &&& 0 <= k < scope.generics.len() && scope.generics[k].0 == name && (forall|j: int|
                0 <= j < k ==> (#[trigger] scope.generics[j]).0 != name) ==> denoted(
                scope,
                TypeExprV::Named(name, Seq::empty()),
            ) == scope.generics[k].1
        }),
{
    assert(all_denoted(scope, s) =~= Seq::new(s.len(), |i: int| denoted(scope, s[i])));
    if 0 <= k < scope.generics.len() && scope.generics[k].0 == name && (forall|j: int|
        0 <= j < k ==> (#[trigger] scope.generics[j]).0 != name) {
        lemma_generic_named(scope.generics, name, k);
    }
}

proof fn lemma_generic_named(s: Seq<(Seq<char>, InferTypeV)>, name: Seq<char>, k: int)
    requires
        0 <= k < s.len(),
        s[k].0 == name,
        forall|j: int| 0 <= j < k ==> (#[trigger] s[j]).0 != name,
    ensures
        generic_named(s, name) == Some(s[k].1),
    decreases k,
{
    if k > 0 {
        assert(s[0].0 != name);
        let rest = s.skip(1);
        assert forall|j: int| 0 <= j < k - 1 implies (#[trigger] rest[j]).0 != name by {
            assert(rest[j] == s[j + 1]);
        }
        lemma_generic_named(rest, name, k - 1);
        assert(generic_named(s, name) == generic_named(rest, name));
    }
}

/// Type arguments that are written out at a call stand for the type parameters at their positions,
/// and there have to be as many.
pub proof fn law_written_type_arguments_go_by_position(
    reg: crate::registry::TypeDefinitionRegistry,
    module: Seq<Seq<char>>,
    scheme: TypeScheme,
    types: Seq<TypeV>,
    span: SpanV,
    i: int,
    j: int,
)
    requires
        scheme.assoc_projections@.len() == 0,
        scheme.opaque_returns@.len() == 0,
        scheme.quantified_vars@.no_duplicates(),
        0 <= i < scheme.quantified_vars@.len(),
        0 <= j < scheme.quantified_vars@.len(),
        scheme.ty@ == InferTypeV::Fun(
            seq![InferTypeV::Var(scheme.quantified_vars@[i])],
            Box::new(InferTypeV::Var(scheme.quantified_vars@[j])),
        ),
    ensures
        types.len() == scheme.quantified_vars@.len() ==> (turbofish_instance(
            reg,
            module,
            scheme,
            types,
            span,
        ) matches Ok(x) && x.0 == TypeV::Fun(seq![types[i]], Box::new(types[j]))),
        types.len() != scheme.quantified_vars@.len() ==> (turbofish_instance(
            reg,
            module,
            scheme,
            types,
            span,
        ) matches Err(MetelErrorV::TypeError { code, .. }) && code == TypeErrorCode::T0004),
{
    let q = scheme.quantified_vars@;
    if types.len() == q.len() {
        let m = bound_vars(Map::empty(), q, types, q.len() as int);
        lemma_bound_vars(Map::empty(), q, types, i, q.len() as int);
        lemma_bound_vars(Map::empty(), q, types, j, q.len() as int);
        law_lowering_undoes_lifting(types[i]);
        law_lowering_undoes_lifting(types[j]);
        assert(projected_assocs(reg, module, scheme, Map::empty(), m, 0) == m);
        assert(opened_returns(scheme, Map::empty(), m, 0) == m);
        assert(call_bindings(reg, module, scheme, Map::empty(), m) == m);
        let s = seq![InferTypeV::Var(q[i])];
        assert(substituted(m, InferTypeV::Var(q[i])) == lifted(types[i]));
        assert(substituted(m, InferTypeV::Var(q[j])) == lifted(types[j]));
        assert(substituted_all(m, s) =~= seq![lifted(types[i])]);
        assert(substituted(m, InferTypeV::Fun(s, Box::new(InferTypeV::Var(q[j]))))
            == InferTypeV::Fun(substituted_all(m, s), Box::new(lifted(types[j]))));
        let f = InferTypeV::Fun(seq![lifted(types[i])], Box::new(lifted(types[j])));
        assert(substituted(m, scheme.ty@) == f);
        assert(crate::infer::all_resolved(seq![lifted(types[i])]));
        assert(crate::infer::lowered_all(seq![lifted(types[i])]) =~= seq![types[i]]);
    }
}

/// Declarations are elaborated one by one and keep their order; a function keeps its name, its type
/// parameters and its parameters.
pub proof fn law_declarations_keep_their_order(
    fx: Facts,
    n: nat,
    s: Seq<Decl>,
    st: StateV,
    k: int,
    i: int,
)
    requires
        0 <= i < k <= s.len(),
    ensures
        decls_step(fx, n, s, st, k).out matches Ok(out) ==> out.len() == k && exists|x: StateV|
            #[trigger] decl_step(fx, n, s[i], x).out == Ok::<DeclT, MetelErrorV>(out[i]),
    decreases k,
{
    let before = decls_step(fx, n, s, st, k - 1);
    if let Ok(items) = before.out {
        let x = decl_step(fx, n, s[k - 1], before.st);
        if k - 1 > 0 {
            law_declarations_keep_their_order(fx, n, s, st, k - 1, if i < k - 1 { i } else { 0 });
        } else {
            assert(items.len() == 0);
        }
        if let Ok(t) = x.out {
            assert(decls_step(fx, n, s, st, k).out == Ok::<Seq<DeclT>, MetelErrorV>(items.push(t)));
        }
    }
}

/// A function that is elaborated is the function that was declared.
pub proof fn law_functions_stay_what_they_are(fx: Facts, n: nat, f: FunDecl, st: StateV)
    ensures
        fun_step(fx, n, f, st).out matches Ok(t) ==> {
            &&& t.name == f.name@
            &&& t.generics == f.generics
            &&& t.params == f.params
            &&& t.return_type == f.return_type
            &&& t.span == f.span@
            &&& f.native is Some <==> t.body is Native
            &&& t.body matches BodyT::Generic { source } ==> source == f.body
        },
{
}

} // verus!
