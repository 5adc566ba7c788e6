//! What is looked up is what was declared.
use vstd::prelude::*;
use crate::ast::{AspectMethod, SymbolId};
use crate::conversions::generic_named;
use crate::elaborate::bounds::labelled;
use crate::grammar_doc::{mode_of, Entry};
use crate::infer::{lifted, lifted_all, InferTypeV};
use crate::lookup::{array_schemes_of, assoc_impl_of, enum_of, field_named, fun_params_of, home_of};
use crate::lookup::{method_schemes_of, scheme_of_decl, type_params_of, variant_of};
use crate::move_check::generics::{placeholder_var, sample_named, symbolic_of};
use crate::move_check::walk::record_field_type;
use crate::text::texts;
use crate::registry::{all_satisfy, args_meet, array_method_of, aspect_method_named, aspect_of};
use crate::registry::{first_where, impl_is, import_of, infer_all_satisfy, infer_args_meet};
use crate::registry::{infer_named_satisfies, infer_satisfies, lemma_first_at, method_of};
use crate::registry::{named_satisfies, resolved_name, satisfies, some_impl_met, struct_of};
use crate::registry::{ArrayMethodEntry, ArrayMethodSchemes, AspectImpl, AspectInfo, AssocImpl};
use crate::registry::{DeclScheme, EnumInfo, FieldEntry, FunParamInfo, MethodEntry, MethodSchemes};
use crate::registry::{StructInfo, TypeDefinitionRegistry, TypeHome, TypeImport, TypeParamInfo};
use crate::registry::VariantInfo;
use crate::resolution::{binding_of, entry_of, scope_of, Binding, ModuleScope, ResolvedNames};
use crate::elaborate::state::SymbolEntry;
use crate::span::SpanV;
use crate::stdlib::{embedded_source, EmbeddedModule};
use crate::type_alias::expansion::{alias_named, AliasV};
use crate::typed_ast::{Assumption, GenericMoveEnv, Placeholder, SymbolicAspects};
use crate::types::TypeV;

verus! {

/// What is found first goes by what a condition says, not by how it is written.
pub broadcast proof fn lemma_first_where_congruent<T>(
    s: Seq<T>,
    p: spec_fn(T) -> bool,
    q: spec_fn(T) -> bool,
)
    requires
        forall|x: T| #[trigger] p(x) == q(x),
    ensures
        #[trigger] first_where(s, p) == #[trigger] first_where(s, q),
{
    assert(p =~= q);
}

/// An enum is found under its name: the first one declared under it.
pub proof fn law_enums_are_found_by_name(
    reg: TypeDefinitionRegistry,
    name: Seq<char>,
)
    ensures
        match enum_of(reg, name) {
            Some(e) => e.name@ == name && exists|k: int|
                0 <= k < reg.enums@.len() && #[trigger] reg.enums@[k] == e && forall|j: int|
                    0 <= j < k ==> (#[trigger] reg.enums@[j]).name@ != name,
            None => forall|j: int| 0 <= j < reg.enums@.len() ==> (#[trigger] reg.enums@[j]).name@ != name,
        },
{
    broadcast use lemma_first_where_congruent;

    let p = |e: EnumInfo| e.name@ == name;
    let k = lemma_first_at(reg.enums@, p);
    assert(enum_of(reg, name) == first_where(reg.enums@, p));
}

/// Type parameters are found under the type that has them.
pub proof fn law_type_parameters_are_found_by_type(
    reg: TypeDefinitionRegistry,
    name: Seq<char>,
)
    ensures
        match type_params_of(reg, name) {
            Some(e) => e.owner@ == name && exists|k: int|
                0 <= k < reg.type_params@.len() && #[trigger] reg.type_params@[k] == e && forall|j: int|
                    0 <= j < k ==> (#[trigger] reg.type_params@[j]).owner@ != name,
            None => forall|j: int| 0 <= j < reg.type_params@.len() ==> (#[trigger] reg.type_params@[j]).owner@ != name,
        },
{
    broadcast use lemma_first_where_congruent;

    let p = |e: TypeParamInfo| e.owner@ == name;
    let k = lemma_first_at(reg.type_params@, p);
    assert(type_params_of(reg, name) == first_where(reg.type_params@, p));
}

/// What a function asks of its type parameters is found under the function.
pub proof fn law_demands_are_found_by_function(
    reg: TypeDefinitionRegistry,
    name: Seq<char>,
)
    ensures
        match fun_params_of(reg, name) {
            Some(e) => e.fun@ == name && exists|k: int|
                0 <= k < reg.fun_params@.len() && #[trigger] reg.fun_params@[k] == e && forall|j: int|
                    0 <= j < k ==> (#[trigger] reg.fun_params@[j]).fun@ != name,
            None => forall|j: int| 0 <= j < reg.fun_params@.len() ==> (#[trigger] reg.fun_params@[j]).fun@ != name,
        },
{
    broadcast use lemma_first_where_congruent;

    let p = |e: FunParamInfo| e.fun@ == name;
    let k = lemma_first_at(reg.fun_params@, p);
    assert(fun_params_of(reg, name) == first_where(reg.fun_params@, p));
}

/// Generic methods are found under their type and their name.
pub proof fn law_generic_methods_are_found_by_type_and_name(
    reg: TypeDefinitionRegistry,
    owner: Seq<char>,
    method: Seq<char>,
)
    ensures
        match method_schemes_of(reg, owner, method) {
            Some(e) => e.owner@ == owner && e.method@ == method && exists|k: int|
                0 <= k < reg.method_schemes@.len() && #[trigger] reg.method_schemes@[k] == e && forall|j: int|
                    0 <= j < k ==> !((#[trigger] reg.method_schemes@[j]).owner@ == owner && reg.method_schemes@[j].method@ == method),
            None => forall|j: int| 0 <= j < reg.method_schemes@.len() ==> !((#[trigger] reg.method_schemes@[j]).owner@ == owner && reg.method_schemes@[j].method@ == method),
        },
{
    broadcast use lemma_first_where_congruent;

    let p = |e: MethodSchemes| e.owner@ == owner && e.method@ == method;
    let k = lemma_first_at(reg.method_schemes@, p);
    assert(method_schemes_of(reg, owner, method) == first_where(reg.method_schemes@, p));
}

/// Generic methods of arrays are found under their name.
pub proof fn law_generic_array_methods_are_found_by_name(
    reg: TypeDefinitionRegistry,
    method: Seq<char>,
)
    ensures
        match array_schemes_of(reg, method) {
            Some(e) => e.method@ == method && exists|k: int|
                0 <= k < reg.array_method_schemes@.len() && #[trigger] reg.array_method_schemes@[k] == e && forall|j: int|
                    0 <= j < k ==> (#[trigger] reg.array_method_schemes@[j]).method@ != method,
            None => forall|j: int| 0 <= j < reg.array_method_schemes@.len() ==> (#[trigger] reg.array_method_schemes@[j]).method@ != method,
        },
{
    broadcast use lemma_first_where_congruent;

    let p = |e: ArrayMethodSchemes| e.method@ == method;
    let k = lemma_first_at(reg.array_method_schemes@, p);
    assert(array_schemes_of(reg, method) == first_where(reg.array_method_schemes@, p));
}

/// An associated type is found under its type, its aspect and its name.
pub proof fn law_associated_types_are_found_by_impl(
    reg: TypeDefinitionRegistry,
    owner: Seq<char>,
    aspect: Seq<char>,
    assoc: Seq<char>,
)
    ensures
        match assoc_impl_of(reg, owner, aspect, assoc) {
            Some(e) => e.owner@ == owner && e.aspect@ == aspect && e.assoc@ == assoc && exists|k: int|
                0 <= k < reg.assoc_impls@.len() && #[trigger] reg.assoc_impls@[k] == e && forall|j: int|
                    0 <= j < k ==> !((#[trigger] reg.assoc_impls@[j]).owner@ == owner && reg.assoc_impls@[j].aspect@ == aspect && reg.assoc_impls@[j].assoc@ == assoc),
            None => forall|j: int| 0 <= j < reg.assoc_impls@.len() ==> !((#[trigger] reg.assoc_impls@[j]).owner@ == owner && reg.assoc_impls@[j].aspect@ == aspect && reg.assoc_impls@[j].assoc@ == assoc),
        },
{
    broadcast use lemma_first_where_congruent;

    let p = |e: AssocImpl| e.owner@ == owner && e.aspect@ == aspect && e.assoc@ == assoc;
    let k = lemma_first_at(reg.assoc_impls@, p);
    assert(assoc_impl_of(reg, owner, aspect, assoc) == first_where(reg.assoc_impls@, p));
}

/// The module of a type is found under the type.
pub proof fn law_homes_are_found_by_type(
    reg: TypeDefinitionRegistry,
    name: Seq<char>,
)
    ensures
        match home_of(reg, name) {
            Some(e) => e.name@ == name && exists|k: int|
                0 <= k < reg.homes@.len() && #[trigger] reg.homes@[k] == e && forall|j: int|
                    0 <= j < k ==> (#[trigger] reg.homes@[j]).name@ != name,
            None => forall|j: int| 0 <= j < reg.homes@.len() ==> (#[trigger] reg.homes@[j]).name@ != name,
        },
{
    broadcast use lemma_first_where_congruent;

    let p = |e: TypeHome| e.name@ == name;
    let k = lemma_first_at(reg.homes@, p);
    assert(home_of(reg, name) == first_where(reg.homes@, p));
}

/// A variant of an enum is found under its name.
pub proof fn law_variants_are_found_by_name(info: EnumInfo, name: Seq<char>)
    ensures
        match variant_of(info, name) {
            Some(v) => v.name@ == name && exists|k: int|
                0 <= k < info.variants@.len() && #[trigger] info.variants@[k] == v && forall|j: int|
                    0 <= j < k ==> (#[trigger] info.variants@[j]).name@ != name,
            None => forall|j: int|
                0 <= j < info.variants@.len() ==> (#[trigger] info.variants@[j]).name@ != name,
        },
{
    broadcast use lemma_first_where_congruent;

    let p = |v: VariantInfo| v.name@ == name;
    let k = lemma_first_at(info.variants@, p);
    assert(variant_of(info, name) == first_where(info.variants@, p));
}

/// A struct is found under its name: the first one declared under it.
pub proof fn law_structs_are_found_by_name(reg: TypeDefinitionRegistry, name: Seq<char>)
    ensures
        match struct_of(reg, name) {
            Some(x) => exists|k: int|
                0 <= k < reg.structs@.len() && (#[trigger] reg.structs@[k]).name@ == name && reg.structs@[k] == x && forall|j: int|
                    0 <= j < k ==> (#[trigger] reg.structs@[j]).name@ != name,
            None => forall|j: int| 0 <= j < reg.structs@.len() ==> (#[trigger] reg.structs@[j]).name@ != name,
        },
{
    broadcast use lemma_first_where_congruent;

    let p = |e: StructInfo| e.name@ == name;
    let k = lemma_first_at(reg.structs@, p);
    if let Some(x) = first_where(reg.structs@, p) {
        assert(reg.structs@[k] == x);
    }
}

/// A method is found under its type and its name.
pub proof fn law_methods_are_found_by_type_and_name(reg: TypeDefinitionRegistry, owner: Seq<char>, method: Seq<char>)
    ensures
        match method_of(reg, owner, method) {
            Some(x) => exists|k: int|
                0 <= k < reg.methods@.len() && (#[trigger] reg.methods@[k]).owner@ == owner && reg.methods@[k].method@ == method && reg.methods@[k] == x && forall|j: int|
                    0 <= j < k ==> !((#[trigger] reg.methods@[j]).owner@ == owner && reg.methods@[j].method@ == method),
            None => forall|j: int| 0 <= j < reg.methods@.len() ==> !((#[trigger] reg.methods@[j]).owner@ == owner && reg.methods@[j].method@ == method),
        },
{
    broadcast use lemma_first_where_congruent;

    let p = |e: MethodEntry| e.owner@ == owner && e.method@ == method;
    let k = lemma_first_at(reg.methods@, p);
    if let Some(x) = first_where(reg.methods@, p) {
        assert(reg.methods@[k] == x);
    }
}

/// A method of arrays is found under its name.
pub proof fn law_array_methods_are_found_by_name(reg: TypeDefinitionRegistry, method: Seq<char>)
    ensures
        match array_method_of(reg, method) {
            Some(x) => exists|k: int|
                0 <= k < reg.array_methods@.len() && (#[trigger] reg.array_methods@[k]).method@ == method && reg.array_methods@[k] == x && forall|j: int|
                    0 <= j < k ==> (#[trigger] reg.array_methods@[j]).method@ != method,
            None => forall|j: int| 0 <= j < reg.array_methods@.len() ==> (#[trigger] reg.array_methods@[j]).method@ != method,
        },
{
    broadcast use lemma_first_where_congruent;

    let p = |e: ArrayMethodEntry| e.method@ == method;
    let k = lemma_first_at(reg.array_methods@, p);
    if let Some(x) = first_where(reg.array_methods@, p) {
        assert(reg.array_methods@[k] == x);
    }
}

/// An aspect is found under its name.
pub proof fn law_aspects_are_found_by_name(reg: TypeDefinitionRegistry, name: Seq<char>)
    ensures
        match aspect_of(reg, name) {
            Some(x) => exists|k: int|
                0 <= k < reg.aspects@.len() && (#[trigger] reg.aspects@[k]).name@ == name && reg.aspects@[k] == x && forall|j: int|
                    0 <= j < k ==> (#[trigger] reg.aspects@[j]).name@ != name,
            None => forall|j: int| 0 <= j < reg.aspects@.len() ==> (#[trigger] reg.aspects@[j]).name@ != name,
        },
{
    broadcast use lemma_first_where_congruent;

    let p = |e: AspectInfo| e.name@ == name;
    let k = lemma_first_at(reg.aspects@, p);
    if let Some(x) = first_where(reg.aspects@, p) {
        assert(reg.aspects@[k] == x);
    }
}

/// A method of an aspect is found under its name.
pub proof fn law_aspect_methods_are_found_by_name(aspect: AspectInfo, method: Seq<char>)
    ensures
        match aspect_method_named(aspect, method) {
            Some(x) => exists|k: int|
                0 <= k < aspect.methods@.len() && (#[trigger] aspect.methods@[k]).name@ == method && aspect.methods@[k] == x && forall|j: int|
                    0 <= j < k ==> (#[trigger] aspect.methods@[j]).name@ != method,
            None => forall|j: int| 0 <= j < aspect.methods@.len() ==> (#[trigger] aspect.methods@[j]).name@ != method,
        },
{
    broadcast use lemma_first_where_congruent;

    let p = |e: AspectMethod| e.name@ == method;
    let k = lemma_first_at(aspect.methods@, p);
    if let Some(x) = first_where(aspect.methods@, p) {
        assert(aspect.methods@[k] == x);
    }
}

/// An import is found under the module that imports and the name that it imports under.
pub proof fn law_imports_are_found_by_module_and_name(reg: TypeDefinitionRegistry, module: Seq<Seq<char>>, name: Seq<char>)
    ensures
        match import_of(reg, module, name) {
            Some(x) => exists|k: int|
                0 <= k < reg.imports@.len() && texts((#[trigger] reg.imports@[k]).module@) == module && reg.imports@[k].name@ == name && reg.imports@[k] == x && forall|j: int|
                    0 <= j < k ==> !(texts((#[trigger] reg.imports@[j]).module@) == module && reg.imports@[j].name@ == name),
            None => forall|j: int| 0 <= j < reg.imports@.len() ==> !(texts((#[trigger] reg.imports@[j]).module@) == module && reg.imports@[j].name@ == name),
        },
{
    broadcast use lemma_first_where_congruent;

    let p = |e: TypeImport| texts(e.module@) == module && e.name@ == name;
    let k = lemma_first_at(reg.imports@, p);
    if let Some(x) = first_where(reg.imports@, p) {
        assert(reg.imports@[k] == x);
    }
}

/// The imports of a module are found under the module.
pub proof fn law_scopes_are_found_by_module(names: ResolvedNames, module: Seq<Seq<char>>)
    ensures
        match scope_of(names, module) {
            Some(x) => exists|k: int|
                0 <= k < names.scopes@.len() && texts((#[trigger] names.scopes@[k]).module@) == module && names.scopes@[k] == x && forall|j: int|
                    0 <= j < k ==> texts((#[trigger] names.scopes@[j]).module@) != module,
            None => forall|j: int| 0 <= j < names.scopes@.len() ==> texts((#[trigger] names.scopes@[j]).module@) != module,
        },
{
    broadcast use lemma_first_where_congruent;

    let p = |e: ModuleScope| texts(e.module@) == module;
    let k = lemma_first_at(names.scopes@, p);
    if let Some(x) = first_where(names.scopes@, p) {
        assert(names.scopes@[k] == x);
    }
}

/// An explicit import is found under the name that it binds.
pub proof fn law_bindings_are_found_by_name(scope: ModuleScope, name: Seq<char>)
    ensures
        match binding_of(scope, name) {
            Some(x) => exists|k: int|
                0 <= k < scope.explicit@.len() && (#[trigger] scope.explicit@[k]).name@ == name && scope.explicit@[k] == x && forall|j: int|
                    0 <= j < k ==> (#[trigger] scope.explicit@[j]).name@ != name,
            None => forall|j: int| 0 <= j < scope.explicit@.len() ==> (#[trigger] scope.explicit@[j]).name@ != name,
        },
{
    broadcast use lemma_first_where_congruent;

    let p = |e: Binding| e.name@ == name;
    let k = lemma_first_at(scope.explicit@, p);
    if let Some(x) = first_where(scope.explicit@, p) {
        assert(scope.explicit@[k] == x);
    }
}

/// The entry of a symbol is found under its number.
pub proof fn law_symbols_are_found_by_number(names: ResolvedNames, id: SymbolId)
    ensures
        match entry_of(names, id) {
            Some(x) => exists|k: int|
                0 <= k < names.symbols@.len() && (#[trigger] names.symbols@[k]).id == id && names.symbols@[k] == x && forall|j: int|
                    0 <= j < k ==> (#[trigger] names.symbols@[j]).id != id,
            None => forall|j: int| 0 <= j < names.symbols@.len() ==> (#[trigger] names.symbols@[j]).id != id,
        },
{
    broadcast use lemma_first_where_congruent;

    let p = |e: SymbolEntry| e.id == id;
    let k = lemma_first_at(names.symbols@, p);
    if let Some(x) = first_where(names.symbols@, p) {
        assert(names.symbols@[k] == x);
    }
}

/// What a type parameter stands for is found under its name.
pub proof fn law_type_parameters_are_found_by_name(s: Seq<(Seq<char>, InferTypeV)>, name: Seq<char>)
    ensures
        match generic_named(s, name) {
            Some(x) => exists|k: int|
                0 <= k < s.len() && (#[trigger] s[k]).0 == name && s[k].1 == x && forall|j: int|
                    0 <= j < k ==> (#[trigger] s[j]).0 != name,
            None => forall|j: int| 0 <= j < s.len() ==> (#[trigger] s[j]).0 != name,
        },
{
    broadcast use lemma_first_where_congruent;

    let p = |e: (Seq<char>, InferTypeV)| e.0 == name;
    let k = lemma_first_at(s, p);
    if let Some(x) = first_where(s, p) {
        assert(s[k] == x);
    }
}

/// What stands in for a name is found under the name.
pub proof fn law_samples_are_found_by_name(s: Seq<(Seq<char>, InferTypeV)>, name: Seq<char>)
    ensures
        match sample_named(s, name) {
            Some(x) => exists|k: int|
                0 <= k < s.len() && (#[trigger] s[k]).0 == name && s[k].1 == x && forall|j: int|
                    0 <= j < k ==> (#[trigger] s[j]).0 != name,
            None => forall|j: int| 0 <= j < s.len() ==> (#[trigger] s[j]).0 != name,
        },
{
    broadcast use lemma_first_where_congruent;

    let p = |e: (Seq<char>, InferTypeV)| e.0 == name;
    let k = lemma_first_at(s, p);
    if let Some(x) = first_where(s, p) {
        assert(s[k] == x);
    }
}

/// The variable of a placeholder is found under its name.
pub proof fn law_placeholders_are_found_by_name(s: Seq<Placeholder>, name: Seq<char>)
    ensures
        match placeholder_var(s, name) {
            Some(x) => exists|k: int|
                0 <= k < s.len() && (#[trigger] s[k]).name@ == name && s[k].var == x && forall|j: int|
                    0 <= j < k ==> (#[trigger] s[j]).name@ != name,
            None => forall|j: int| 0 <= j < s.len() ==> (#[trigger] s[j]).name@ != name,
        },
{
    broadcast use lemma_first_where_congruent;

    let p = |e: Placeholder| e.name@ == name;
    let k = lemma_first_at(s, p);
    if let Some(x) = first_where(s, p) {
        assert(s[k] == x);
    }
}

/// What is assumed of a symbolic type is found under its name.
pub proof fn law_symbolic_types_are_found_by_name(env: GenericMoveEnv, name: Seq<char>)
    ensures
        match symbolic_of(env, name) {
            Some(x) => exists|k: int|
                0 <= k < env.symbolic_aspects@.len() && (#[trigger] env.symbolic_aspects@[k]).name@ == name && env.symbolic_aspects@[k] == x && forall|j: int|
                    0 <= j < k ==> (#[trigger] env.symbolic_aspects@[j]).name@ != name,
            None => forall|j: int| 0 <= j < env.symbolic_aspects@.len() ==> (#[trigger] env.symbolic_aspects@[j]).name@ != name,
        },
{
    broadcast use lemma_first_where_congruent;

    let p = |e: SymbolicAspects| e.name@ == name;
    let k = lemma_first_at(env.symbolic_aspects@, p);
    if let Some(x) = first_where(env.symbolic_aspects@, p) {
        assert(env.symbolic_aspects@[k] == x);
    }
}

/// The type of a record field is found under its name.
pub proof fn law_record_fields_are_found_by_name(s: Seq<(Seq<char>, TypeV)>, name: Seq<char>)
    ensures
        match record_field_type(s, name) {
            Some(x) => exists|k: int|
                0 <= k < s.len() && (#[trigger] s[k]).0 == name && s[k].1 == x && forall|j: int|
                    0 <= j < k ==> (#[trigger] s[j]).0 != name,
            None => forall|j: int| 0 <= j < s.len() ==> (#[trigger] s[j]).0 != name,
        },
{
    broadcast use lemma_first_where_congruent;

    let p = |e: (Seq<char>, TypeV)| e.0 == name;
    let k = lemma_first_at(s, p);
    if let Some(x) = first_where(s, p) {
        assert(s[k] == x);
    }
}

/// A label of a record is found under its name.
pub proof fn law_labels_are_found_by_name(s: Seq<(Seq<char>, TypeV)>, name: Seq<char>)
    ensures
        match labelled(s, name) {
            Some(x) => exists|k: int|
                0 <= k < s.len() && (#[trigger] s[k]).0 == name && s[k] == x && forall|j: int|
                    0 <= j < k ==> (#[trigger] s[j]).0 != name,
            None => forall|j: int| 0 <= j < s.len() ==> (#[trigger] s[j]).0 != name,
        },
{
    broadcast use lemma_first_where_congruent;

    let p = |e: (Seq<char>, TypeV)| e.0 == name;
    let k = lemma_first_at(s, p);
    if let Some(x) = first_where(s, p) {
        assert(s[k] == x);
    }
}

/// A field is found under its name.
pub proof fn law_fields_are_found_by_name(s: Seq<FieldEntry>, name: Seq<char>)
    ensures
        match field_named(s, name) {
            Some(x) => exists|k: int|
                0 <= k < s.len() && (#[trigger] s[k]).name@ == name && s[k] == x && forall|j: int|
                    0 <= j < k ==> (#[trigger] s[j]).name@ != name,
            None => forall|j: int| 0 <= j < s.len() ==> (#[trigger] s[j]).name@ != name,
        },
{
    broadcast use lemma_first_where_congruent;

    let p = |e: FieldEntry| e.name@ == name;
    let k = lemma_first_at(s, p);
    if let Some(x) = first_where(s, p) {
        assert(s[k] == x);
    }
}

/// The scheme of a method is found under the place of its declaration.
pub proof fn law_schemes_are_found_by_declaration(reg: TypeDefinitionRegistry, span: SpanV)
    ensures
        match scheme_of_decl(reg, span) {
            Some(x) => exists|k: int|
                0 <= k < reg.decl_schemes@.len() && (#[trigger] reg.decl_schemes@[k]).span@ == span && reg.decl_schemes@[k].scheme == x && forall|j: int|
                    0 <= j < k ==> (#[trigger] reg.decl_schemes@[j]).span@ != span,
            None => forall|j: int| 0 <= j < reg.decl_schemes@.len() ==> (#[trigger] reg.decl_schemes@[j]).span@ != span,
        },
{
    broadcast use lemma_first_where_congruent;

    let p = |e: DeclScheme| e.span@ == span;
    let k = lemma_first_at(reg.decl_schemes@, p);
    if let Some(x) = first_where(reg.decl_schemes@, p) {
        assert(reg.decl_schemes@[k] == x);
    }
}

/// The source of an embedded module is found under its path.
pub proof fn law_sources_are_found_by_path(s: Seq<EmbeddedModule>, path: Seq<Seq<char>>)
    ensures
        match embedded_source(s, path) {
            Some(x) => exists|k: int|
                0 <= k < s.len() && texts((#[trigger] s[k]).path@) == path && s[k].source@ == x && forall|j: int|
                    0 <= j < k ==> texts((#[trigger] s[j]).path@) != path,
            None => forall|j: int| 0 <= j < s.len() ==> texts((#[trigger] s[j]).path@) != path,
        },
{
    broadcast use lemma_first_where_congruent;

    let p = |e: EmbeddedModule| texts(e.path@) == path;
    let k = lemma_first_at(s, p);
    if let Some(x) = first_where(s, p) {
        assert(s[k] == x);
    }
}

/// How a rule appears is found under the rule.
pub proof fn law_modes_are_found_by_rule(s: Seq<Entry>, rule: Seq<char>)
    ensures
        match mode_of(s, rule) {
            Some(x) => exists|k: int|
                0 <= k < s.len() && (#[trigger] s[k]).rule@ == rule && s[k].mode == x && forall|j: int|
                    0 <= j < k ==> (#[trigger] s[j]).rule@ != rule,
            None => forall|j: int| 0 <= j < s.len() ==> (#[trigger] s[j]).rule@ != rule,
        },
{
    broadcast use lemma_first_where_congruent;

    let p = |e: Entry| e.rule@ == rule;
    let k = lemma_first_at(s, p);
    if let Some(x) = first_where(s, p) {
        assert(s[k] == x);
    }
}

/// An alias is found under its name.
pub proof fn law_aliases_are_found_by_name(s: Seq<AliasV>, name: Seq<char>)
    ensures
        match alias_named(s, name) {
            Some(x) => exists|k: int|
                0 <= k < s.len() && (#[trigger] s[k]).name == name && s[k] == x && forall|j: int|
                    0 <= j < k ==> (#[trigger] s[j]).name != name,
            None => forall|j: int| 0 <= j < s.len() ==> (#[trigger] s[j]).name != name,
        },
{
    broadcast use lemma_first_where_congruent;

    let p = |e: AliasV| e.name == name;
    let k = lemma_first_at(s, p);
    if let Some(x) = first_where(s, p) {
        assert(s[k] == x);
    }
}

/// A name that a module imports stands for what it was imported from; any other stands for itself.
pub proof fn law_names_stand_for_what_is_imported(
    reg: TypeDefinitionRegistry,
    module: Seq<Seq<char>>,
    name: Seq<char>,
    k: int,
)
    ensures
        0 <= k < reg.imports@.len() && texts(reg.imports@[k].module@) == module
            && reg.imports@[k].name@ == name && (forall|j: int|
            0 <= j < k ==> !(texts((#[trigger] reg.imports@[j]).module@) == module
                && reg.imports@[j].name@ == name)) ==> resolved_name(reg, module, name)
            == reg.imports@[k].target@,
        (forall|j: int|
            0 <= j < reg.imports@.len() ==> !(texts((#[trigger] reg.imports@[j]).module@) == module
                && reg.imports@[j].name@ == name)) ==> resolved_name(reg, module, name) == name,
{
    law_imports_are_found_by_module_and_name(reg, module, name);
    if 0 <= k < reg.imports@.len() {
        let e = reg.imports@[k];
    }
    if let Some(x) = import_of(reg, module, name) {
        let i = choose|i: int|
            0 <= i < reg.imports@.len() && (texts((#[trigger] reg.imports@[i]).module@) == module
                && reg.imports@[i].name@ == name) && reg.imports@[i] == x && forall|j: int|
                0 <= j < i ==> !(texts((#[trigger] reg.imports@[j]).module@) == module
                    && reg.imports@[j].name@ == name);
        assert(i < k || k < i || k == i);
    }
}

/// A type without variables satisfies what the type that it stands for does.
pub proof fn law_resolved_types_satisfy_the_same(
    reg: TypeDefinitionRegistry,
    module: Seq<Seq<char>>,
    assumptions: Seq<Assumption>,
    t: TypeV,
    aspect: Seq<char>,
)
    ensures
        infer_satisfies(reg, module, assumptions, lifted(t), aspect) == satisfies(
            reg,
            Seq::empty(),
            module,
            t,
            aspect,
        ),
    decreases t,
{
    match t {
        TypeV::Tuple(items) => {
            let l = lifted_all(items);
            assert forall|i: int| 0 <= i < items.len() implies infer_satisfies(
                reg,
                module,
                assumptions,
                l[i],
                aspect,
            ) == satisfies(reg, Seq::empty(), module, #[trigger] items[i], aspect) by {
                law_resolved_types_satisfy_the_same(reg, module, assumptions, items[i], aspect);
            }
            if infer_all_satisfy(reg, module, assumptions, l, aspect) {
                assert forall|i: int| 0 <= i < items.len() implies satisfies(
                    reg,
                    Seq::empty(),
                    module,
                    #[trigger] items[i],
                    aspect,
                ) by {
                    assert(infer_satisfies(reg, module, assumptions, l[i], aspect));
                }
            }
            if all_satisfy(reg, Seq::empty(), module, items, aspect) {
                assert forall|i: int| 0 <= i < l.len() implies infer_satisfies(
                    reg,
                    module,
                    assumptions,
                    #[trigger] l[i],
                    aspect,
                ) by {
                    assert(satisfies(reg, Seq::empty(), module, items[i], aspect));
                }
            }
            assert(infer_satisfies(reg, module, assumptions, lifted(t), aspect) == (aspect
                == "Copy"@ && infer_all_satisfy(reg, module, assumptions, l, aspect)));
        },
        TypeV::SizedArray(item, _) => {
            law_resolved_types_satisfy_the_same(reg, module, assumptions, *item, aspect);
        },
        TypeV::Array(item) => {
            law_resolved_types_satisfy_the_same(reg, module, assumptions, *item, aspect);
        },
        TypeV::Named(name, args) => {
            let l = lifted_all(args);
            assert forall|i: int, a: Seq<char>| 0 <= i < args.len() implies infer_satisfies(
                reg,
                module,
                assumptions,
                #[trigger] l[i],
                a,
            ) == #[trigger] satisfies(reg, Seq::empty(), module, args[i], a) by {
                law_resolved_types_satisfy_the_same(reg, module, assumptions, args[i], a);
            }
            assert forall|b: Seq<Vec<String>>| #[trigger]
                infer_args_meet(reg, module, assumptions, l, b) == args_meet(
                reg,
                Seq::empty(),
                module,
                args,
                b,
            ) by {
                lemma_same_demands(reg, module, assumptions, args, b);
            }
            let none = Seq::<AspectImpl>::empty();
            assert(!some_impl_met(reg, none, module, none, name, args, aspect));
            assert(infer_satisfies(reg, module, assumptions, lifted(t), aspect)
                == infer_named_satisfies(reg, module, assumptions, name, l, aspect));
            assert(satisfies(reg, none, module, t, aspect) == named_satisfies(
                reg,
                none,
                module,
                name,
                args,
                aspect,
            ));
            let owner = resolved_name(reg, module, name);
            if infer_named_satisfies(reg, module, assumptions, name, l, aspect) {
                let k = choose|k: int|
                    0 <= k < reg.impls@.len() && impl_is(#[trigger] reg.impls@[k], owner, aspect)
                        && infer_args_meet(reg, module, assumptions, l, reg.impls@[k].arg_bounds@);
                assert(args_meet(reg, none, module, args, reg.impls@[k].arg_bounds@));
            }
            if some_impl_met(reg, none, module, reg.impls@, name, args, aspect) {
                let k = choose|k: int|
                    0 <= k < reg.impls@.len() && impl_is(#[trigger] reg.impls@[k], owner, aspect)
                        && args_meet(reg, none, module, args, reg.impls@[k].arg_bounds@);
                assert(infer_args_meet(reg, module, assumptions, l, reg.impls@[k].arg_bounds@));
            }
        },
        _ => {},
    }
}

proof fn lemma_same_demands(
    reg: TypeDefinitionRegistry,
    module: Seq<Seq<char>>,
    assumptions: Seq<Assumption>,
    args: Seq<TypeV>,
    b: Seq<Vec<String>>,
)
    requires
        forall|i: int, a: Seq<char>|
            0 <= i < args.len() ==> infer_satisfies(
                reg,
                module,
                assumptions,
                #[trigger] lifted_all(args)[i],
                a,
            ) == #[trigger] satisfies(reg, Seq::empty(), module, args[i], a),
    ensures
        infer_args_meet(reg, module, assumptions, lifted_all(args), b) == args_meet(
            reg,
            Seq::empty(),
            module,
            args,
            b,
        ),
{
    let l = lifted_all(args);
    let none = Seq::<AspectImpl>::empty();
    if infer_args_meet(reg, module, assumptions, l, b) {
        assert forall|i: int, j: int|
            0 <= i < args.len() && 0 <= i < b.len() && 0 <= j < b[i]@.len() implies satisfies(
            reg,
            none,
            module,
            #[trigger] args[i],
            (#[trigger] b[i]@[j])@,
        ) by {
            assert(infer_satisfies(reg, module, assumptions, l[i], b[i]@[j]@));
        }
    }
    if args_meet(reg, none, module, args, b) {
        assert forall|i: int, j: int|
            0 <= i < l.len() && 0 <= i < b.len() && 0 <= j < b[i]@.len() implies infer_satisfies(
            reg,
            module,
            assumptions,
            #[trigger] l[i],
            (#[trigger] b[i]@[j])@,
        ) by {
            assert(satisfies(reg, none, module, args[i], b[i]@[j]@));
        }
    }
}

} // verus!
