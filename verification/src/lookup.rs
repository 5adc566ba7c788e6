//! Lookups in what is declared.
use vstd::prelude::*;
use crate::registry::{first_where, lemma_first_where_skip, resolved_name, Additions};
use crate::registry::{ArrayMethodSchemes, DeclScheme};
use crate::registry::{AssocImpl, EnumInfo, FunParamInfo, MethodSchemes, TypeDefinitionRegistry};
use crate::registry::{struct_of, FieldEntry, TypeHome, TypeParamInfo, VariantInfo};
use crate::scheme::TypeScheme;
use crate::span::{Span, SpanV};
use crate::text::same_text;
use crate::types::{Type, TypeV};

verus! {

/// The enum declared under `name`.
pub open spec fn enum_of(reg: TypeDefinitionRegistry, name: Seq<char>) -> Option<EnumInfo> {
    first_where(reg.enums@, |e: EnumInfo| e.name@ == name)
}

/// The type parameters of the type `name`.
pub open spec fn type_params_of(reg: TypeDefinitionRegistry, name: Seq<char>) -> Option<TypeParamInfo> {
    first_where(reg.type_params@, |e: TypeParamInfo| e.owner@ == name)
}

/// What the function `name` asks of its type parameters.
pub open spec fn fun_params_of(reg: TypeDefinitionRegistry, name: Seq<char>) -> Option<FunParamInfo> {
    first_where(reg.fun_params@, |e: FunParamInfo| e.fun@ == name)
}

/// The methods of a generic type under a name.
pub open spec fn method_schemes_of(reg: TypeDefinitionRegistry, owner: Seq<char>, method: Seq<char>) -> Option<MethodSchemes> {
    first_where(reg.method_schemes@, |e: MethodSchemes| e.owner@ == owner && e.method@ == method)
}

/// The methods of a generic type under a name: the declared ones, or those of the additions where
/// none are declared.
pub open spec fn known_schemes_of(
    reg: TypeDefinitionRegistry,
    extra: Additions,
    owner: Seq<char>,
    method: Seq<char>,
) -> Option<MethodSchemes> {
    match method_schemes_of(reg, owner, method) {
        Some(found) => Some(found),
        None => first_where(
            extra.method_schemes@,
            |e: MethodSchemes| e.owner@ == owner && e.method@ == method,
        ),
    }
}

/// The generic methods of every array under a name.
pub open spec fn array_schemes_of(reg: TypeDefinitionRegistry, method: Seq<char>) -> Option<ArrayMethodSchemes> {
    first_where(reg.array_method_schemes@, |e: ArrayMethodSchemes| e.method@ == method)
}

/// The associated type that an impl gives.
pub open spec fn assoc_impl_of(reg: TypeDefinitionRegistry, owner: Seq<char>, aspect: Seq<char>, assoc: Seq<char>) -> Option<AssocImpl> {
    first_where(reg.assoc_impls@, |e: AssocImpl| e.owner@ == owner && e.aspect@ == aspect && e.assoc@ == assoc)
}

/// The module that declares the type `name`.
pub open spec fn home_of(reg: TypeDefinitionRegistry, name: Seq<char>) -> Option<TypeHome> {
    first_where(reg.homes@, |e: TypeHome| e.name@ == name)
}

/// The scheme of the generic method that is declared at a place.
pub open spec fn scheme_of_decl(reg: TypeDefinitionRegistry, span: SpanV) -> Option<TypeScheme> {
    match first_where(reg.decl_schemes@, |e: DeclScheme| e.span@ == span) {
        Some(e) => Some(e.scheme),
        None => None,
    }
}

/// Whether an enum has a variant under a name.
pub open spec fn has_variant(e: EnumInfo, name: Seq<char>) -> bool {
    exists|i: int| 0 <= i < e.variants@.len() && (#[trigger] e.variants@[i]).name@ == name
}

/// Whether some enum has a variant under a name.
pub open spec fn variant_exists(reg: TypeDefinitionRegistry, name: Seq<char>) -> bool {
    exists|i: int| 0 <= i < reg.enums@.len() && has_variant(#[trigger] reg.enums@[i], name)
}

/// The variant of an enum under a name.
pub open spec fn variant_of(e: EnumInfo, name: Seq<char>) -> Option<VariantInfo> {
    first_where(e.variants@, |v: VariantInfo| v.name@ == name)
}

/// The field under a name.
pub open spec fn field_named(fields: Seq<FieldEntry>, name: Seq<char>) -> Option<FieldEntry> {
    first_where(fields, |e: FieldEntry| e.name@ == name)
}

/// The associated type that the type `name`, as `module` knows it, has through an aspect.
pub open spec fn assoc_type_of(
    reg: TypeDefinitionRegistry,
    module: Seq<Seq<char>>,
    name: Seq<char>,
    aspect: Seq<char>,
    assoc: Seq<char>,
) -> Option<TypeV> {
    match assoc_impl_of(reg, resolved_name(reg, module, name), aspect, assoc) {
        Some(e) => Some(e.ty@),
        None => None,
    }
}

/// Whether the type `name`, as `module` knows it, is a struct.
pub open spec fn names_struct(
    reg: TypeDefinitionRegistry,
    module: Seq<Seq<char>>,
    name: Seq<char>,
) -> bool {
    struct_of(reg, resolved_name(reg, module, name)) is Some
}

/// The methods of a list under an owner and a name.
fn find_schemes<'a>(list: &'a Vec<MethodSchemes>, owner: &str, method: &str) -> (r: Option<
    &'a MethodSchemes,
>)
    ensures
        match r {
            Some(e) => first_where(
                list@,
                |e: MethodSchemes| e.owner@ == owner@ && e.method@ == method@,
            ) == Some(*e),
            None => first_where(
                list@,
                |e: MethodSchemes| e.owner@ == owner@ && e.method@ == method@,
            ) is None,
        },
{
    let ghost p = |e: MethodSchemes| e.owner@ == owner@ && e.method@ == method@;
    assert(list@.skip(0) =~= list@);
    let mut i: usize = 0;
    while i < list.len()
        invariant
            i <= list@.len(),
            p == (|e: MethodSchemes| e.owner@ == owner@ && e.method@ == method@),
            first_where(list@, p) == first_where(list@.skip(i as int), p),
        decreases list@.len() - i,
    {
        proof {
            lemma_first_where_skip(list@, p, i as int);
        }
        if same_text(list[i].owner.as_str(), owner) && same_text(list[i].method.as_str(), method) {
            return Some(&list[i]);
        }
        i += 1;
    }
    None
}

impl TypeDefinitionRegistry {
    /// The enum declared under `name`.
    pub fn enum_info(&self, name: &str) -> (r: Option<&EnumInfo>)
        ensures
            match r {
                Some(e) => enum_of(*self, name@) == Some(*e),
                None => enum_of(*self, name@) is None,
            },
    {
        let ghost p = |e: EnumInfo| e.name@ == name@;
        assert(self.enums@.skip(0) =~= self.enums@);
        let mut i: usize = 0;
        while i < self.enums.len()
            invariant
                i <= self.enums@.len(),
                p == (|e: EnumInfo| e.name@ == name@),
                first_where(self.enums@, p) == first_where(self.enums@.skip(i as int), p),
            decreases self.enums@.len() - i,
        {
            proof {
                lemma_first_where_skip(self.enums@, p, i as int);
            }
            if same_text(self.enums[i].name.as_str(), name) {
                return Some(&self.enums[i]);
            }
            i += 1;
        }
        None
    }

    /// The type parameters of the type `name`.
    pub fn type_param_info(&self, name: &str) -> (r: Option<&TypeParamInfo>)
        ensures
            match r {
                Some(e) => type_params_of(*self, name@) == Some(*e),
                None => type_params_of(*self, name@) is None,
            },
    {
        let ghost p = |e: TypeParamInfo| e.owner@ == name@;
        assert(self.type_params@.skip(0) =~= self.type_params@);
        let mut i: usize = 0;
        while i < self.type_params.len()
            invariant
                i <= self.type_params@.len(),
                p == (|e: TypeParamInfo| e.owner@ == name@),
                first_where(self.type_params@, p) == first_where(self.type_params@.skip(i as int), p),
            decreases self.type_params@.len() - i,
        {
            proof {
                lemma_first_where_skip(self.type_params@, p, i as int);
            }
            if same_text(self.type_params[i].owner.as_str(), name) {
                return Some(&self.type_params[i]);
            }
            i += 1;
        }
        None
    }

    /// What the function `name` asks of its type parameters.
    pub fn fun_param_info(&self, name: &str) -> (r: Option<&FunParamInfo>)
        ensures
            match r {
                Some(e) => fun_params_of(*self, name@) == Some(*e),
                None => fun_params_of(*self, name@) is None,
            },
    {
        let ghost p = |e: FunParamInfo| e.fun@ == name@;
        assert(self.fun_params@.skip(0) =~= self.fun_params@);
        let mut i: usize = 0;
        while i < self.fun_params.len()
            invariant
                i <= self.fun_params@.len(),
                p == (|e: FunParamInfo| e.fun@ == name@),
                first_where(self.fun_params@, p) == first_where(self.fun_params@.skip(i as int), p),
            decreases self.fun_params@.len() - i,
        {
            proof {
                lemma_first_where_skip(self.fun_params@, p, i as int);
            }
            if same_text(self.fun_params[i].fun.as_str(), name) {
                return Some(&self.fun_params[i]);
            }
            i += 1;
        }
        None
    }

    /// The scheme of the generic method that is declared at a place.
    pub fn generic_method_scheme_for_decl(&self, span: &Span) -> (r: Option<&TypeScheme>)
        ensures
            match r {
                Some(s) => scheme_of_decl(*self, span@) == Some(*s),
                None => scheme_of_decl(*self, span@) is None,
            },
    {
        let list: &Vec<DeclScheme> = &self.decl_schemes;
        let ghost p = |e: DeclScheme| e.span@ == span@;
        assert(list@.skip(0) =~= list@);
        let mut i: usize = 0;
        while i < list.len()
            invariant
                i <= list@.len(),
                *list == self.decl_schemes,
                p == (|e: DeclScheme| e.span@ == span@),
                first_where(list@, p) == first_where(list@.skip(i as int), p),
            decreases list@.len() - i,
        {
            proof {
                lemma_first_where_skip(list@, p, i as int);
            }
            if list[i].span.same(span) {
                return Some(&list[i].scheme);
            }
            i += 1;
        }
        None
    }

    /// The methods of a generic type under a name: the declared ones, or those of the additions
    /// where none are declared.
    pub fn known_schemes_for<'a>(&'a self, extra: &'a Additions, owner: &str, method: &str) -> (r:
        Option<&'a MethodSchemes>)
        ensures
            match r {
                Some(e) => known_schemes_of(*self, *extra, owner@, method@) == Some(*e),
                None => known_schemes_of(*self, *extra, owner@, method@) is None,
            },
    {
        match find_schemes(&self.method_schemes, owner, method) {
            Some(found) => Some(found),
            None => find_schemes(&extra.method_schemes, owner, method),
        }
    }

    /// The generic methods of every array under a name.
    pub fn array_method_schemes_for(&self, method: &str) -> (r: Option<&ArrayMethodSchemes>)
        ensures
            match r {
                Some(e) => array_schemes_of(*self, method@) == Some(*e),
                None => array_schemes_of(*self, method@) is None,
            },
    {
        let ghost p = |e: ArrayMethodSchemes| e.method@ == method@;
        assert(self.array_method_schemes@.skip(0) =~= self.array_method_schemes@);
        let mut i: usize = 0;
        while i < self.array_method_schemes.len()
            invariant
                i <= self.array_method_schemes@.len(),
                p == (|e: ArrayMethodSchemes| e.method@ == method@),
                first_where(self.array_method_schemes@, p) == first_where(self.array_method_schemes@.skip(i as int), p),
            decreases self.array_method_schemes@.len() - i,
        {
            proof {
                lemma_first_where_skip(self.array_method_schemes@, p, i as int);
            }
            if same_text(self.array_method_schemes[i].method.as_str(), method) {
                return Some(&self.array_method_schemes[i]);
            }
            i += 1;
        }
        None
    }

    /// The associated type that an impl gives.
    pub fn assoc_impl(&self, owner: &str, aspect: &str, assoc: &str) -> (r: Option<&AssocImpl>)
        ensures
            match r {
                Some(e) => assoc_impl_of(*self, owner@, aspect@, assoc@) == Some(*e),
                None => assoc_impl_of(*self, owner@, aspect@, assoc@) is None,
            },
    {
        let ghost p = |e: AssocImpl| e.owner@ == owner@ && e.aspect@ == aspect@ && e.assoc@ == assoc@;
        assert(self.assoc_impls@.skip(0) =~= self.assoc_impls@);
        let mut i: usize = 0;
        while i < self.assoc_impls.len()
            invariant
                i <= self.assoc_impls@.len(),
                p == (|e: AssocImpl| e.owner@ == owner@ && e.aspect@ == aspect@ && e.assoc@ == assoc@),
                first_where(self.assoc_impls@, p) == first_where(self.assoc_impls@.skip(i as int), p),
            decreases self.assoc_impls@.len() - i,
        {
            proof {
                lemma_first_where_skip(self.assoc_impls@, p, i as int);
            }
            if same_text(self.assoc_impls[i].owner.as_str(), owner) && same_text(self.assoc_impls[i].aspect.as_str(), aspect) && same_text(self.assoc_impls[i].assoc.as_str(), assoc) {
                return Some(&self.assoc_impls[i]);
            }
            i += 1;
        }
        None
    }

    /// The module that declares the type `name`.
    pub fn type_home(&self, name: &str) -> (r: Option<&TypeHome>)
        ensures
            match r {
                Some(e) => home_of(*self, name@) == Some(*e),
                None => home_of(*self, name@) is None,
            },
    {
        let ghost p = |e: TypeHome| e.name@ == name@;
        assert(self.homes@.skip(0) =~= self.homes@);
        let mut i: usize = 0;
        while i < self.homes.len()
            invariant
                i <= self.homes@.len(),
                p == (|e: TypeHome| e.name@ == name@),
                first_where(self.homes@, p) == first_where(self.homes@.skip(i as int), p),
            decreases self.homes@.len() - i,
        {
            proof {
                lemma_first_where_skip(self.homes@, p, i as int);
            }
            if same_text(self.homes[i].name.as_str(), name) {
                return Some(&self.homes[i]);
            }
            i += 1;
        }
        None
    }

    /// Whether some enum has a variant under a name.
    pub fn has_variant_named(&self, name: &str) -> (r: bool)
        ensures
            r == variant_exists(*self, name@),
    {
        let mut i: usize = 0;
        while i < self.enums.len()
            invariant
                i <= self.enums@.len(),
                forall|k: int| 0 <= k < i ==> !has_variant(#[trigger] self.enums@[k], name@),
            decreases self.enums@.len() - i,
        {
            if find_variant(&self.enums[i], name).is_some() {
                return true;
            }
            i += 1;
        }
        false
    }

    /// The associated type that a type has through an aspect.
    pub fn impl_assoc_type(
        &self,
        module: &Vec<String>,
        name: &str,
        aspect: &str,
        assoc: &str,
    ) -> (r: Option<&Type>)
        ensures
            match r {
                Some(t) => assoc_type_of(
                    *self,
                    crate::text::texts(module@),
                    name@,
                    aspect@,
                    assoc@,
                ) == Some(t@),
                None => assoc_type_of(
                    *self,
                    crate::text::texts(module@),
                    name@,
                    aspect@,
                    assoc@,
                ) is None,
            },
    {
        let owner: String = self.resolve_type_name(module, name);
        match self.assoc_impl(owner.as_str(), aspect, assoc) {
            Some(e) => Some(&e.ty),
            None => None,
        }
    }

    /// Whether the type `name` is a struct.
    pub fn is_struct_name(&self, module: &Vec<String>, name: &str) -> (r: bool)
        ensures
            r == names_struct(*self, crate::text::texts(module@), name@),
    {
        let target: String = self.resolve_type_name(module, name);
        self.struct_info(target.as_str()).is_some()
    }
}

/// The variant of an enum under a name.
pub fn find_variant<'a>(e: &'a EnumInfo, name: &str) -> (r: Option<&'a VariantInfo>)
    ensures
        match r {
            Some(v) => variant_of(*e, name@) == Some(*v),
            None => variant_of(*e, name@) is None,
        },
        r is Some == has_variant(*e, name@),
{
    let ghost p = |v: VariantInfo| v.name@ == name@;
    assert(e.variants@.skip(0) =~= e.variants@);
    let mut i: usize = 0;
    while i < e.variants.len()
        invariant
            i <= e.variants@.len(),
            p == (|v: VariantInfo| v.name@ == name@),
            first_where(e.variants@, p) == first_where(e.variants@.skip(i as int), p),
            forall|k: int| 0 <= k < i ==> (#[trigger] e.variants@[k]).name@ != name@,
        decreases e.variants@.len() - i,
    {
        proof {
            lemma_first_where_skip(e.variants@, p, i as int);
        }
        if same_text(e.variants[i].name.as_str(), name) {
            return Some(&e.variants[i]);
        }
        i += 1;
    }
    None
}

/// The field under a name.
pub fn find_field<'a>(fields: &'a Vec<FieldEntry>, name: &str) -> (r: Option<&'a FieldEntry>)
    ensures
        match r {
            Some(e) => field_named(fields@, name@) == Some(*e),
            None => field_named(fields@, name@) is None,
        },
{
    let ghost p = |e: FieldEntry| e.name@ == name@;
    assert(fields@.skip(0) =~= fields@);
    let mut i: usize = 0;
    while i < fields.len()
        invariant
            i <= fields@.len(),
            p == (|e: FieldEntry| e.name@ == name@),
            first_where(fields@, p) == first_where(fields@.skip(i as int), p),
        decreases fields@.len() - i,
    {
        proof {
            lemma_first_where_skip(fields@, p, i as int);
        }
        if same_text(fields[i].name.as_str(), name) {
            return Some(&fields[i]);
        }
        i += 1;
    }
    None
}

} // verus!
