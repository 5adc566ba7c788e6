//! What the checker knows of the declared types, methods and aspects of a program.
use vstd::prelude::*;
use crate::ast::{AspectMethod, AssocTypeDecl, ReceiverKind};
use crate::infer::{infer_type_view, infer_types_view, InferType, InferTypeV, TypeVar};
use crate::scheme::{AssocEq, GenericBound, TypeScheme};
use crate::span::Span;
use crate::text::{has_text, same_text, same_texts, texts};
use crate::typed_ast::Assumption;
use crate::types::{primitive_name, primitive_type_name, type_view, types_view, Type, TypeV};

verus! {

/// A field of a struct or an enum variant, with its declared type.
pub struct FieldEntry {
    pub name: String,
    pub ty: InferType,
    pub span: Span,
}

/// A struct: its fields, and its type parameters where it is generic.
pub struct StructInfo {
    pub name: String,
    pub type_params: Option<Vec<TypeVar>>,
    pub fields: Vec<FieldEntry>,
}

/// A variant of an enum.
pub struct VariantInfo {
    pub name: String,
    pub fields: Vec<FieldEntry>,
}

/// An enum: its type parameters and variants.
pub struct EnumInfo {
    pub name: String,
    pub type_params: Vec<TypeVar>,
    pub variants: Vec<VariantInfo>,
}

/// A method of a named type: its function type, receiver first, where it has one for all type
/// arguments, and how it takes the receiver.
pub struct MethodEntry {
    pub owner: String,
    pub method: String,
    pub ty: Option<InferType>,
    pub receiver: Option<ReceiverKind>,
}

/// A method of every array.
pub struct ArrayMethodEntry {
    pub method: String,
    pub ty: InferType,
    pub receiver: Option<ReceiverKind>,
}

/// An aspect that a named type implements, on the condition that its type arguments satisfy the
/// aspects listed for their positions.
pub struct AspectImpl {
    pub owner: String,
    pub aspect: String,
    pub arg_bounds: Vec<Vec<String>>,
}

/// A declared aspect.
pub struct AspectInfo {
    pub name: String,
    pub methods: Vec<AspectMethod>,
    pub assoc_types: Vec<AssocTypeDecl>,
    pub declaring_module: Vec<String>,
}

/// A name under which a module knows a type that is declared under another.
pub struct TypeImport {
    pub module: Vec<String>,
    pub name: String,
    pub target: String,
}

/// The type parameters of a struct or an enum: their names, and what is asked of each. The
/// lists are by position; a missing one asks nothing.
pub struct TypeParamInfo {
    pub owner: String,
    pub names: Vec<String>,
    pub bounds: Option<Vec<Vec<GenericBound>>>,
    pub neg_bounds: Option<Vec<Vec<GenericBound>>>,
    pub record_kinds: Option<Vec<bool>>,
}

/// What a function asks of one of its type parameters.
pub struct FunVarInfo {
    pub var: TypeVar,
    pub bounds: Vec<GenericBound>,
    pub neg_bounds: Vec<GenericBound>,
    pub record_kind: bool,
    pub assoc_eq: Vec<AssocEq>,
}

/// What a function asks of its type parameters.
pub struct FunParamInfo {
    pub fun: String,
    pub vars: Vec<FunVarInfo>,
}

/// A method of a generic type: its scheme, the variables that stand for the type arguments of the
/// receiver, and the aspect that it comes from.
pub struct MethodCandidate {
    pub scheme: TypeScheme,
    pub struct_vars: Vec<TypeVar>,
    pub aspect: Option<String>,
}

/// The methods of a generic type under one name.
pub struct MethodSchemes {
    pub owner: String,
    pub method: String,
    pub candidates: Vec<MethodCandidate>,
}

/// What holds in one place besides the declarations of a program.
pub struct Additions {
    pub impls: Vec<AspectImpl>,
    pub method_schemes: Vec<MethodSchemes>,
}

/// The generic methods of every array under one name.
pub struct ArrayMethodSchemes {
    pub method: String,
    pub candidates: Vec<MethodCandidate>,
}

/// An associated type that an impl gives.
pub struct AssocImpl {
    pub owner: String,
    pub aspect: String,
    pub assoc: String,
    pub ty: Type,
}

/// The scheme that inference found for a generic method, by where the method is declared.
pub struct DeclScheme {
    pub span: Span,
    pub scheme: TypeScheme,
}

/// The module that declares a struct or an enum.
pub struct TypeHome {
    pub name: String,
    pub module: Vec<String>,
}

/// The declarations of a program that type-directed decisions look up.
pub struct TypeDefinitionRegistry {
    pub structs: Vec<StructInfo>,
    pub enums: Vec<EnumInfo>,
    pub methods: Vec<MethodEntry>,
    pub array_methods: Vec<ArrayMethodEntry>,
    pub aspects: Vec<AspectInfo>,
    pub impls: Vec<AspectImpl>,
    /// The aspects that an array has whenever its elements have them.
    pub array_aspects: Vec<String>,
    pub imports: Vec<TypeImport>,
    pub type_params: Vec<TypeParamInfo>,
    pub fun_params: Vec<FunParamInfo>,
    pub method_schemes: Vec<MethodSchemes>,
    pub array_method_schemes: Vec<ArrayMethodSchemes>,
    pub assoc_impls: Vec<AssocImpl>,
    pub homes: Vec<TypeHome>,
    pub decl_schemes: Vec<DeclScheme>,
}

/// The first element of a sequence with a property.
pub open spec fn first_where<T>(s: Seq<T>, p: spec_fn(T) -> bool) -> Option<T>
    decreases s.len(),
{
    if s.len() == 0 {
        None
    } else if p(s[0]) {
        Some(s[0])
    } else {
        first_where(s.skip(1), p)
    }
}

pub proof fn lemma_first_where_skip<T>(s: Seq<T>, p: spec_fn(T) -> bool, i: int)
    requires
        0 <= i < s.len(),
    ensures
        first_where(s.skip(i), p) == (if p(s[i]) {
            Some(s[i])
        } else {
            first_where(s.skip(i + 1), p)
        }),
{
    assert(s.skip(i)[0] == s[i]);
    assert(s.skip(i).skip(1) =~= s.skip(i + 1));
}

/// Where the first element with a property is.
pub proof fn lemma_first_at<T>(s: Seq<T>, p: spec_fn(T) -> bool) -> (k: int)
    ensures
        match first_where(s, p) {
            Some(x) => 0 <= k < s.len() && s[k] == x && p(x) && forall|j: int|
                0 <= j < k ==> !p(#[trigger] s[j]),
            None => forall|j: int| 0 <= j < s.len() ==> !p(#[trigger] s[j]),
        },
    decreases s.len(),
{
    if s.len() == 0 || p(s[0]) {
        0
    } else {
        let k = lemma_first_at(s.skip(1), p);
        assert forall|j: int| 0 <= j < k + 1 && first_where(s, p) is Some implies !p(
            #[trigger] s[j],
        ) by {
            if j > 0 {
                assert(s.skip(1)[j - 1] == s[j]);
            }
        }
        assert forall|j: int| 0 <= j < s.len() && first_where(s, p) is None implies !p(
            #[trigger] s[j],
        ) by {
            if j > 0 {
                assert(s.skip(1)[j - 1] == s[j]);
            }
        }
        k + 1
    }
}

/// Whether nothing was found is whether nothing has the property.
pub proof fn lemma_first_where<T>(s: Seq<T>, p: spec_fn(T) -> bool)
    ensures
        match first_where(s, p) {
            Some(x) => p(x) && s.contains(x),
            None => forall|i: int| 0 <= i < s.len() ==> !p(#[trigger] s[i]),
        },
    decreases s.len(),
{
    if s.len() > 0 {
        if p(s[0]) {
            assert(s.contains(s[0]));
        } else {
            lemma_first_where(s.skip(1), p);
            match first_where(s.skip(1), p) {
                Some(x) => {
                    let i = choose|i: int| 0 <= i < s.skip(1).len() && s.skip(1)[i] == x;
                    assert(s[i + 1] == x);
                },
                None => {
                    assert forall|i: int| 0 <= i < s.len() implies !p(#[trigger] s[i]) by {
                        if i > 0 {
                            assert(s.skip(1)[i - 1] == s[i]);
                        }
                    }
                },
            }
        }
    }
}

/// The import of `name` into `module`.
pub open spec fn import_of(
    reg: TypeDefinitionRegistry,
    module: Seq<Seq<char>>,
    name: Seq<char>,
) -> Option<TypeImport> {
    first_where(
        reg.imports@,
        |e: TypeImport| texts(e.module@) == module && e.name@ == name,
    )
}

/// The name under which the type is declared that `module` knows as `name`.
pub open spec fn resolved_name(
    reg: TypeDefinitionRegistry,
    module: Seq<Seq<char>>,
    name: Seq<char>,
) -> Seq<char> {
    match import_of(reg, module, name) {
        Some(e) => e.target@,
        None => name,
    }
}

/// The struct declared under `name`.
pub open spec fn struct_of(reg: TypeDefinitionRegistry, name: Seq<char>) -> Option<StructInfo> {
    first_where(reg.structs@, |e: StructInfo| e.name@ == name)
}

/// The method of a named type.
pub open spec fn method_of(
    reg: TypeDefinitionRegistry,
    owner: Seq<char>,
    method: Seq<char>,
) -> Option<MethodEntry> {
    first_where(reg.methods@, |e: MethodEntry| e.owner@ == owner && e.method@ == method)
}

/// The function type of a method of a named type.
pub open spec fn method_type_of(
    reg: TypeDefinitionRegistry,
    owner: Seq<char>,
    method: Seq<char>,
) -> Option<InferTypeV> {
    match method_of(reg, owner, method) {
        Some(e) => match e.ty {
            Some(t) => Some(t@),
            None => None,
        },
        None => None,
    }
}

/// The method of every array.
pub open spec fn array_method_of(
    reg: TypeDefinitionRegistry,
    method: Seq<char>,
) -> Option<ArrayMethodEntry> {
    first_where(reg.array_methods@, |e: ArrayMethodEntry| e.method@ == method)
}

/// The aspect declared under `name`.
pub open spec fn aspect_of(reg: TypeDefinitionRegistry, name: Seq<char>) -> Option<AspectInfo> {
    first_where(reg.aspects@, |e: AspectInfo| e.name@ == name)
}

/// The method that an aspect declares under a name.
pub open spec fn aspect_method_named(a: AspectInfo, method: Seq<char>) -> Option<AspectMethod> {
    first_where(a.methods@, |m: AspectMethod| m.name@ == method)
}

/// Whether a type satisfies an aspect, seen from `module`.
///
/// `Copy` is built in: numbers, booleans, characters, `()`, `!` and shared references have it,
/// tuples and fixed-size arrays have it when their elements do, array views, records, functions
/// and `&var` references do not. Every other aspect comes from impls: of a named or primitive
/// type, on the condition that its type arguments meet the bounds of the impl, or of arrays. The
/// impls are the declared ones and the `extra` ones.
pub open spec fn satisfies(
    reg: TypeDefinitionRegistry,
    extra: Seq<AspectImpl>,
    module: Seq<Seq<char>>,
    t: TypeV,
    aspect: Seq<char>,
) -> bool
    decreases t, 0int,
{
    let copy = aspect == "Copy"@;
    match t {
        TypeV::Tuple(items) => copy && all_satisfy(reg, extra, module, items, aspect),
        TypeV::SizedArray(item, _) => (copy || texts(reg.array_aspects@).contains(aspect))
            && satisfies(reg, extra, module, *item, aspect),
        TypeV::Array(item) => !copy && texts(reg.array_aspects@).contains(aspect) && satisfies(
            reg,
            extra,
            module,
            *item,
            aspect,
        ),
        TypeV::Reference(_) => copy,
        TypeV::MutReference(_) => false,
        TypeV::Record(_) => false,
        TypeV::Fun(_, _) => false,
        TypeV::Unit => copy,
        TypeV::Never => copy,
        TypeV::Named(name, args) => named_satisfies(reg, extra, module, name, args, aspect),
        TypeV::Str => has_impl(reg, extra, "String"@, aspect),
        _ => copy || match primitive_name(t) {
            Some(name) => has_impl(reg, extra, name, aspect),
            None => false,
        },
    }
}

/// Whether every type of a sequence satisfies an aspect.
pub open spec fn all_satisfy(
    reg: TypeDefinitionRegistry,
    extra: Seq<AspectImpl>,
    module: Seq<Seq<char>>,
    s: Seq<TypeV>,
    aspect: Seq<char>,
) -> bool
    decreases s, 0int,
{
    forall|i: int| 0 <= i < s.len() ==> satisfies(reg, extra, module, #[trigger] s[i], aspect)
}

/// Whether some impl of an aspect for a named type has its conditions met by the type arguments.
pub open spec fn named_satisfies(
    reg: TypeDefinitionRegistry,
    extra: Seq<AspectImpl>,
    module: Seq<Seq<char>>,
    name: Seq<char>,
    args: Seq<TypeV>,
    aspect: Seq<char>,
) -> bool
    decreases args, 2int,
{
    ||| some_impl_met(reg, extra, module, reg.impls@, name, args, aspect)
    ||| some_impl_met(reg, extra, module, extra, name, args, aspect)
}

/// Whether some impl of a list is one of an aspect for a named type, with its conditions met.
pub open spec fn some_impl_met(
    reg: TypeDefinitionRegistry,
    extra: Seq<AspectImpl>,
    module: Seq<Seq<char>>,
    impls: Seq<AspectImpl>,
    name: Seq<char>,
    args: Seq<TypeV>,
    aspect: Seq<char>,
) -> bool
    decreases args, 1int,
{
    exists|k: int|
        0 <= k < impls.len() && impl_is(
            #[trigger] impls[k],
            resolved_name(reg, module, name),
            aspect,
        ) && args_meet(reg, extra, module, args, impls[k].arg_bounds@)
}

/// Whether the type arguments satisfy the aspects listed for their positions.
pub open spec fn args_meet(
    reg: TypeDefinitionRegistry,
    extra: Seq<AspectImpl>,
    module: Seq<Seq<char>>,
    args: Seq<TypeV>,
    bounds: Seq<Vec<String>>,
) -> bool
    decreases args, 0int,
{
    forall|i: int, j: int|
        0 <= i < args.len() && 0 <= i < bounds.len() && 0 <= j < bounds[i]@.len() ==> satisfies(
            reg,
            extra,
            module,
            #[trigger] args[i],
            (#[trigger] bounds[i]@[j])@,
        )
}

/// Whether an impl is one of `aspect` for the type `name`.
pub open spec fn impl_is(e: AspectImpl, name: Seq<char>, aspect: Seq<char>) -> bool {
    e.owner@ == name && e.aspect@ == aspect
}

/// Whether some impl is one of `aspect` for the type `name`.
pub open spec fn has_impl(
    reg: TypeDefinitionRegistry,
    extra: Seq<AspectImpl>,
    name: Seq<char>,
    aspect: Seq<char>,
) -> bool {
    lists_impl(reg.impls@, name, aspect) || lists_impl(extra, name, aspect)
}

/// Whether a list of impls holds one of `aspect` for the type `name`.
pub open spec fn lists_impl(impls: Seq<AspectImpl>, name: Seq<char>, aspect: Seq<char>) -> bool {
    exists|k: int| 0 <= k < impls.len() && impl_is(#[trigger] impls[k], name, aspect)
}

/// Whether a type variable is assumed to satisfy an aspect.
pub open spec fn assumed(s: Seq<Assumption>, v: TypeVar, aspect: Seq<char>) -> bool {
    exists|k: int|
        0 <= k < s.len() && (#[trigger] s[k]).var == v && texts(s[k].aspects@).contains(aspect)
}

/// Whether a type with variables satisfies an aspect: as [`satisfies`], with a variable
/// satisfying what it is assumed to.
pub open spec fn infer_satisfies(
    reg: TypeDefinitionRegistry,
    module: Seq<Seq<char>>,
    assumptions: Seq<Assumption>,
    t: InferTypeV,
    aspect: Seq<char>,
) -> bool
    decreases t, 0int,
{
    let copy = aspect == "Copy"@;
    match t {
        InferTypeV::Var(v) => assumed(assumptions, v, aspect),
        InferTypeV::Concrete(inner) => satisfies(reg, Seq::empty(), module, inner, aspect),
        InferTypeV::Never => copy,
        InferTypeV::Tuple(items) => copy && infer_all_satisfy(reg, module, assumptions, items, aspect),
        InferTypeV::SizedArray(item, _) => (copy || texts(reg.array_aspects@).contains(aspect))
            && infer_satisfies(reg, module, assumptions, *item, aspect),
        InferTypeV::Array(item) => !copy && texts(reg.array_aspects@).contains(aspect)
            && infer_satisfies(reg, module, assumptions, *item, aspect),
        InferTypeV::Reference(_) => copy,
        InferTypeV::MutReference(_) => false,
        InferTypeV::Record(_) => false,
        InferTypeV::Fun(_, _) => false,
        InferTypeV::Named(name, args) => infer_named_satisfies(
            reg,
            module,
            assumptions,
            name,
            args,
            aspect,
        ),
    }
}

/// [`all_satisfy`] under assumptions.
pub open spec fn infer_all_satisfy(
    reg: TypeDefinitionRegistry,
    module: Seq<Seq<char>>,
    assumptions: Seq<Assumption>,
    s: Seq<InferTypeV>,
    aspect: Seq<char>,
) -> bool
    decreases s, 0int,
{
    forall|i: int|
        0 <= i < s.len() ==> infer_satisfies(reg, module, assumptions, #[trigger] s[i], aspect)
}

/// [`named_satisfies`] under assumptions.
pub open spec fn infer_named_satisfies(
    reg: TypeDefinitionRegistry,
    module: Seq<Seq<char>>,
    assumptions: Seq<Assumption>,
    name: Seq<char>,
    args: Seq<InferTypeV>,
    aspect: Seq<char>,
) -> bool
    decreases args, 1int,
{
    exists|k: int|
        0 <= k < reg.impls@.len() && impl_is(
            #[trigger] reg.impls@[k],
            resolved_name(reg, module, name),
            aspect,
        ) && infer_args_meet(reg, module, assumptions, args, reg.impls@[k].arg_bounds@)
}

/// [`args_meet`] under assumptions.
pub open spec fn infer_args_meet(
    reg: TypeDefinitionRegistry,
    module: Seq<Seq<char>>,
    assumptions: Seq<Assumption>,
    args: Seq<InferTypeV>,
    bounds: Seq<Vec<String>>,
) -> bool
    decreases args, 0int,
{
    forall|i: int, j: int|
        0 <= i < args.len() && 0 <= i < bounds.len() && 0 <= j < bounds[i]@.len()
            ==> infer_satisfies(
            reg,
            module,
            assumptions,
            #[trigger] args[i],
            (#[trigger] bounds[i]@[j])@,
        )
}

/// Whether a list of impls holds one of `aspect` for the type `name`.
fn list_has_impl(impls: &Vec<AspectImpl>, name: &str, aspect: &str) -> (r: bool)
    ensures
        r == lists_impl(impls@, name@, aspect@),
{
    let mut k: usize = 0;
    while k < impls.len()
        invariant
            k <= impls@.len(),
            forall|i: int| 0 <= i < k ==> !impl_is(#[trigger] impls@[i], name@, aspect@),
        decreases impls@.len() - k,
    {
        if same_text(impls[k].owner.as_str(), name) && same_text(impls[k].aspect.as_str(), aspect) {
            assert(impl_is(impls@[k as int], name@, aspect@));
            return true;
        }
        k += 1;
    }
    false
}

impl TypeDefinitionRegistry {
    /// The name under which the type is declared that `module` knows as `name`.
    pub fn resolve_type_name(&self, module: &Vec<String>, name: &str) -> (r: String)
        ensures
            r@ == resolved_name(*self, texts(module@), name@),
    {
        let ghost p = |e: TypeImport| texts(e.module@) == texts(module@) && e.name@ == name@;
        let mut i: usize = 0;
        assert(self.imports@.skip(0) =~= self.imports@);
        while i < self.imports.len()
            invariant
                i <= self.imports@.len(),
                p == (|e: TypeImport| texts(e.module@) == texts(module@) && e.name@ == name@),
                import_of(*self, texts(module@), name@) == first_where(
                    self.imports@.skip(i as int),
                    p,
                ),
            decreases self.imports@.len() - i,
        {
            proof {
                lemma_first_where_skip(self.imports@, p, i as int);
            }
            if same_texts(&self.imports[i].module, module) && same_text(
                self.imports[i].name.as_str(),
                name,
            ) {
                return self.imports[i].target.clone();
            }
            i += 1;
        }
        name.to_owned()
    }

    /// The struct declared under `name`.
    pub fn struct_info(&self, name: &str) -> (r: Option<&StructInfo>)
        ensures
            match r {
                Some(info) => struct_of(*self, name@) == Some(*info),
                None => struct_of(*self, name@) is None,
            },
    {
        let ghost p = |e: StructInfo| e.name@ == name@;
        let mut i: usize = 0;
        assert(self.structs@.skip(0) =~= self.structs@);
        while i < self.structs.len()
            invariant
                i <= self.structs@.len(),
                p == (|e: StructInfo| e.name@ == name@),
                struct_of(*self, name@) == first_where(self.structs@.skip(i as int), p),
            decreases self.structs@.len() - i,
        {
            proof {
                lemma_first_where_skip(self.structs@, p, i as int);
            }
            if same_text(self.structs[i].name.as_str(), name) {
                return Some(&self.structs[i]);
            }
            i += 1;
        }
        None
    }

    fn method_entry(&self, owner: &str, method: &str) -> (r: Option<&MethodEntry>)
        ensures
            match r {
                Some(info) => method_of(*self, owner@, method@) == Some(*info),
                None => method_of(*self, owner@, method@) is None,
            },
    {
        let ghost p = |e: MethodEntry| e.owner@ == owner@ && e.method@ == method@;
        let mut i: usize = 0;
        assert(self.methods@.skip(0) =~= self.methods@);
        while i < self.methods.len()
            invariant
                i <= self.methods@.len(),
                p == (|e: MethodEntry| e.owner@ == owner@ && e.method@ == method@),
                method_of(*self, owner@, method@) == first_where(
                    self.methods@.skip(i as int),
                    p,
                ),
            decreases self.methods@.len() - i,
        {
            proof {
                lemma_first_where_skip(self.methods@, p, i as int);
            }
            if same_text(self.methods[i].owner.as_str(), owner) && same_text(
                self.methods[i].method.as_str(),
                method,
            ) {
                return Some(&self.methods[i]);
            }
            i += 1;
        }
        None
    }

    fn array_method_entry(&self, method: &str) -> (r: Option<&ArrayMethodEntry>)
        ensures
            match r {
                Some(info) => array_method_of(*self, method@) == Some(*info),
                None => array_method_of(*self, method@) is None,
            },
    {
        let ghost p = |e: ArrayMethodEntry| e.method@ == method@;
        let mut i: usize = 0;
        assert(self.array_methods@.skip(0) =~= self.array_methods@);
        while i < self.array_methods.len()
            invariant
                i <= self.array_methods@.len(),
                p == (|e: ArrayMethodEntry| e.method@ == method@),
                array_method_of(*self, method@) == first_where(
                    self.array_methods@.skip(i as int),
                    p,
                ),
            decreases self.array_methods@.len() - i,
        {
            proof {
                lemma_first_where_skip(self.array_methods@, p, i as int);
            }
            if same_text(self.array_methods[i].method.as_str(), method) {
                return Some(&self.array_methods[i]);
            }
            i += 1;
        }
        None
    }

    /// How a method of a named type takes its receiver.
    pub fn method_receiver_kind(&self, owner: &str, method: &str) -> (r: Option<ReceiverKind>)
        ensures
            r == (match method_of(*self, owner@, method@) {
                Some(e) => e.receiver,
                None => None,
            }),
    {
        match self.method_entry(owner, method) {
            Some(e) => e.receiver,
            None => None,
        }
    }

    /// The function type of a method of a named type.
    pub fn method_type(&self, owner: &str, method: &str) -> (r: Option<&InferType>)
        ensures
            match r {
                Some(ty) => method_type_of(*self, owner@, method@) == Some(ty@),
                None => method_type_of(*self, owner@, method@) is None,
            },
    {
        match self.method_entry(owner, method) {
            Some(e) => match &e.ty {
                Some(ty) => Some(ty),
                None => None,
            },
            None => None,
        }
    }

    /// How a method of arrays takes its receiver.
    pub fn array_method_receiver_kind(&self, method: &str) -> (r: Option<ReceiverKind>)
        ensures
            r == (match array_method_of(*self, method@) {
                Some(e) => e.receiver,
                None => None,
            }),
    {
        match self.array_method_entry(method) {
            Some(e) => e.receiver,
            None => None,
        }
    }

    /// The function type of a method of arrays.
    pub fn array_method_type(&self, method: &str) -> (r: Option<&InferType>)
        ensures
            match r {
                Some(ty) => array_method_of(*self, method@) matches Some(e) && e.ty == *ty,
                None => array_method_of(*self, method@) is None,
            },
    {
        match self.array_method_entry(method) {
            Some(e) => Some(&e.ty),
            None => None,
        }
    }

    /// The aspect declared under `name`.
    pub fn aspect_info(&self, name: &str) -> (r: Option<&AspectInfo>)
        ensures
            match r {
                Some(info) => aspect_of(*self, name@) == Some(*info),
                None => aspect_of(*self, name@) is None,
            },
    {
        let ghost p = |e: AspectInfo| e.name@ == name@;
        let mut i: usize = 0;
        assert(self.aspects@.skip(0) =~= self.aspects@);
        while i < self.aspects.len()
            invariant
                i <= self.aspects@.len(),
                p == (|e: AspectInfo| e.name@ == name@),
                aspect_of(*self, name@) == first_where(self.aspects@.skip(i as int), p),
            decreases self.aspects@.len() - i,
        {
            proof {
                lemma_first_where_skip(self.aspects@, p, i as int);
            }
            if same_text(self.aspects[i].name.as_str(), name) {
                return Some(&self.aspects[i]);
            }
            i += 1;
        }
        None
    }

    fn named_has_impl(&self, extra: &Vec<AspectImpl>, name: &str, aspect: &str) -> (r: bool)
        ensures
            r == has_impl(*self, extra@, name@, aspect@),
    {
        list_has_impl(&self.impls, name, aspect) || list_has_impl(extra, name, aspect)
    }

    /// Whether a type satisfies an aspect by the declared impls, seen from `module`.
    pub fn type_satisfies_aspect(&self, module: &Vec<String>, ty: &Type, aspect: &str) -> (r: bool)
        ensures
            r == satisfies(*self, Seq::empty(), texts(module@), ty@, aspect@),
    {
        let none: Vec<AspectImpl> = Vec::new();
        assert(none@ =~= Seq::empty());
        self.type_satisfies_aspect_with(&none, module, ty, aspect)
    }

    /// Whether a type satisfies an aspect by the declared impls and the `extra` ones, seen from
    /// `module`.
    pub fn type_satisfies_aspect_with(&self, extra: &Vec<AspectImpl>, module: &Vec<String>, ty: &Type, aspect: &str) -> (r: bool)
        ensures
            r == satisfies(*self, extra@, texts(module@), ty@, aspect@),
        decreases *ty, 0int,
    {
        let copy: bool = same_text(aspect, "Copy");
        match ty {
            Type::Tuple(items) => copy && self.types_satisfy(extra, module, items, aspect),
            Type::SizedArray(item, _) => (copy || has_text(&self.array_aspects, aspect))
                && self.type_satisfies_aspect_with(extra, module, item, aspect),
            Type::Array(item) => !copy && has_text(&self.array_aspects, aspect)
                && self.type_satisfies_aspect_with(extra, module, item, aspect),
            Type::Reference(_) => copy,
            Type::MutReference(_) => false,
            Type::Record(_) => false,
            Type::Fun(_, _) => false,
            Type::Unit => copy,
            Type::Never => copy,
            Type::Named(name, args) => self.named_satisfies_aspect(
                extra,
                module,
                name.as_str(),
                args,
                aspect,
            ),
            Type::Str => self.named_has_impl(extra, "String", aspect),
            _ => {
                if copy {
                    true
                } else {
                    match primitive_type_name(ty) {
                        Some(name) => self.named_has_impl(extra, name.as_str(), aspect),
                        None => false,
                    }
                }
            },
        }
    }

    fn types_satisfy(
        &self,
        extra: &Vec<AspectImpl>,
        module: &Vec<String>,
        items: &Vec<Type>,
        aspect: &str,
    ) -> (r: bool)
        ensures
            r == all_satisfy(*self, extra@, texts(module@), types_view(items@), aspect@),
        decreases items@, 0int,
    {
        let ghost views = types_view(items@);
        assert(views.len() == items@.len());
        let mut i: usize = 0;
        while i < items.len()
            invariant
                i <= items@.len(),
                views == types_view(items@),
                forall|j: int|
                    0 <= j < i ==> satisfies(*self, extra@, texts(module@), #[trigger] views[j], aspect@),
            decreases items@.len() - i,
        {
            assert(views[i as int] == type_view(items@[i as int]));
            if !self.type_satisfies_aspect_with(extra, module, &items[i], aspect) {
                assert(!satisfies(*self, extra@, texts(module@), views[i as int], aspect@));
                return false;
            }
            i += 1;
        }
        true
    }

    fn named_satisfies_aspect(
        &self,
        extra: &Vec<AspectImpl>,
        module: &Vec<String>,
        name: &str,
        args: &Vec<Type>,
        aspect: &str,
    ) -> (r: bool)
        ensures
            r == named_satisfies(*self, extra@, texts(module@), name@, types_view(args@), aspect@),
        decreases args@, 2int,
    {
        self.some_impl_holds(extra, module, &self.impls, name, args, aspect)
            || self.some_impl_holds(extra, module, extra, name, args, aspect)
    }

    fn some_impl_holds(
        &self,
        extra: &Vec<AspectImpl>,
        module: &Vec<String>,
        impls: &Vec<AspectImpl>,
        name: &str,
        args: &Vec<Type>,
        aspect: &str,
    ) -> (r: bool)
        ensures
            r == some_impl_met(*self, extra@, texts(module@), impls@, name@, types_view(args@), aspect@),
        decreases args@, 1int,
    {
        let target: String = self.resolve_type_name(module, name);
        let mut k: usize = 0;
        while k < impls.len()
            invariant
                k <= impls@.len(),
                target@ == resolved_name(*self, texts(module@), name@),
                forall|q: int|
                    0 <= q < k ==> !(impl_is(#[trigger] impls@[q], target@, aspect@)
                        && args_meet(
                        *self,
                        extra@,
                        texts(module@),
                        types_view(args@),
                        impls@[q].arg_bounds@,
                    )),
            decreases impls@.len() - k,
        {
            if same_text(impls[k].owner.as_str(), target.as_str()) && same_text(
                impls[k].aspect.as_str(),
                aspect,
            ) && self.args_meet_bounds(extra, module, args, &impls[k].arg_bounds) {
                assert(impl_is(impls@[k as int], target@, aspect@));
                return true;
            }
            k += 1;
        }
        false
    }

    fn args_meet_bounds(
        &self,
        extra: &Vec<AspectImpl>,
        module: &Vec<String>,
        args: &Vec<Type>,
        bounds: &Vec<Vec<String>>,
    ) -> (r: bool)
        ensures
            r == args_meet(*self, extra@, texts(module@), types_view(args@), bounds@),
        decreases args@, 0int,
    {
        let ghost views = types_view(args@);
        assert(views.len() == args@.len());
        let mut i: usize = 0;
        while i < args.len() && i < bounds.len()
            invariant
                i <= args@.len(),
                i <= bounds@.len(),
                views == types_view(args@),
                views.len() == args@.len(),
                forall|a: int, b: int|
                    0 <= a < i && 0 <= b < bounds@[a]@.len() ==> satisfies(
                        *self,
                        extra@,
                        texts(module@),
                        #[trigger] views[a],
                        (#[trigger] bounds@[a]@[b])@,
                    ),
            decreases args@.len() - i,
        {
            assert(views[i as int] == type_view(args@[i as int]));
            let mut j: usize = 0;
            while j < bounds[i].len()
                invariant
                    i < args@.len(),
                    i < bounds@.len(),
                    j <= bounds@[i as int]@.len(),
                    views == types_view(args@),
                    views.len() == args@.len(),
                    views[i as int] == type_view(args@[i as int]),
                    forall|b: int|
                        0 <= b < j ==> satisfies(
                            *self,
                            extra@,
                            texts(module@),
                            views[i as int],
                            (#[trigger] bounds@[i as int]@[b])@,
                        ),
                decreases bounds@[i as int]@.len() - j,
            {
                if !self.type_satisfies_aspect_with(extra, module, &args[i], bounds[i][j].as_str()) {
                    assert(!satisfies(
                        *self,
                        extra@,
                        texts(module@),
                        views[i as int],
                        bounds@[i as int]@[j as int]@,
                    ));
                    return false;
                }
                j += 1;
            }
            i += 1;
        }
        true
    }

    fn is_assumed(assumptions: &Vec<Assumption>, v: TypeVar, aspect: &str) -> (r: bool)
        ensures
            r == assumed(assumptions@, v, aspect@),
    {
        let mut k: usize = 0;
        while k < assumptions.len()
            invariant
                k <= assumptions@.len(),
                forall|i: int|
                    0 <= i < k ==> !((#[trigger] assumptions@[i]).var == v && texts(
                        assumptions@[i].aspects@,
                    ).contains(aspect@)),
            decreases assumptions@.len() - k,
        {
            if assumptions[k].var == v && has_text(&assumptions[k].aspects, aspect) {
                return true;
            }
            k += 1;
        }
        false
    }

    /// Whether a type with variables satisfies an aspect under assumptions on the variables.
    pub fn infer_type_satisfies_aspect(
        &self,
        module: &Vec<String>,
        ty: &InferType,
        aspect: &str,
        assumptions: &Vec<Assumption>,
    ) -> (r: bool)
        ensures
            r == infer_satisfies(*self, texts(module@), assumptions@, ty@, aspect@),
        decreases *ty, 0int,
    {
        let copy: bool = same_text(aspect, "Copy");
        match ty {
            InferType::Var(v) => Self::is_assumed(assumptions, *v, aspect),
            InferType::Concrete(inner) => self.type_satisfies_aspect(module, inner, aspect),
            InferType::Never => copy,
            InferType::Tuple(items) => copy && self.infer_types_satisfy(
                module,
                items,
                aspect,
                assumptions,
            ),
            InferType::SizedArray(item, _) => (copy || has_text(&self.array_aspects, aspect))
                && self.infer_type_satisfies_aspect(module, item, aspect, assumptions),
            InferType::Array(item) => !copy && has_text(&self.array_aspects, aspect)
                && self.infer_type_satisfies_aspect(module, item, aspect, assumptions),
            InferType::Reference(_) => copy,
            InferType::MutReference(_) => false,
            InferType::Record(_) => false,
            InferType::Fun(_, _) => false,
            InferType::Named(name, args) => self.infer_named_satisfies_aspect(
                module,
                name.as_str(),
                args,
                aspect,
                assumptions,
            ),
        }
    }

    fn infer_types_satisfy(
        &self,
        module: &Vec<String>,
        items: &Vec<InferType>,
        aspect: &str,
        assumptions: &Vec<Assumption>,
    ) -> (r: bool)
        ensures
            r == infer_all_satisfy(*self, texts(module@), assumptions@, infer_types_view(items@), aspect@),
        decreases items@, 0int,
    {
        let ghost views = infer_types_view(items@);
        assert(views.len() == items@.len());
        let mut i: usize = 0;
        while i < items.len()
            invariant
                i <= items@.len(),
                views == infer_types_view(items@),
                forall|j: int|
                    0 <= j < i ==> infer_satisfies(*self, texts(module@), assumptions@, #[trigger] views[j], aspect@),
            decreases items@.len() - i,
        {
            assert(views[i as int] == infer_type_view(items@[i as int]));
            if !self.infer_type_satisfies_aspect(module, &items[i], aspect, assumptions) {
                assert(!infer_satisfies(*self, texts(module@), assumptions@, views[i as int], aspect@));
                return false;
            }
            i += 1;
        }
        true
    }

    fn infer_named_satisfies_aspect(
        &self,
        module: &Vec<String>,
        name: &str,
        args: &Vec<InferType>,
        aspect: &str,
        assumptions: &Vec<Assumption>,
    ) -> (r: bool)
        ensures
            r == infer_named_satisfies(*self, texts(module@), assumptions@, name@, infer_types_view(args@), aspect@),
        decreases args@, 1int,
    {
        let target: String = self.resolve_type_name(module, name);
        let mut k: usize = 0;
        while k < self.impls.len()
            invariant
                k <= self.impls@.len(),
                target@ == resolved_name(*self, texts(module@), name@),
                forall|q: int|
                    0 <= q < k ==> !(impl_is(#[trigger] self.impls@[q], target@, aspect@)
                        && infer_args_meet(
                        *self,
                        texts(module@),
                        assumptions@, infer_types_view(args@),
                        self.impls@[q].arg_bounds@,
                    )),
            decreases self.impls@.len() - k,
        {
            if same_text(self.impls[k].owner.as_str(), target.as_str()) && same_text(
                self.impls[k].aspect.as_str(),
                aspect,
            ) && self.infer_args_meet_bounds(module, args, &self.impls[k].arg_bounds, assumptions) {
                assert(impl_is(self.impls@[k as int], target@, aspect@));
                return true;
            }
            k += 1;
        }
        false
    }

    fn infer_args_meet_bounds(
        &self,
        module: &Vec<String>,
        args: &Vec<InferType>,
        bounds: &Vec<Vec<String>>,
        assumptions: &Vec<Assumption>,
    ) -> (r: bool)
        ensures
            r == infer_args_meet(*self, texts(module@), assumptions@, infer_types_view(args@), bounds@),
        decreases args@, 0int,
    {
        let ghost views = infer_types_view(args@);
        assert(views.len() == args@.len());
        let mut i: usize = 0;
        while i < args.len() && i < bounds.len()
            invariant
                i <= args@.len(),
                i <= bounds@.len(),
                views == infer_types_view(args@),
                views.len() == args@.len(),
                forall|a: int, b: int|
                    0 <= a < i && 0 <= b < bounds@[a]@.len() ==> infer_satisfies(
                        *self,
                        texts(module@),
                        assumptions@, #[trigger] views[a],
                        (#[trigger] bounds@[a]@[b])@,
                    ),
            decreases args@.len() - i,
        {
            assert(views[i as int] == infer_type_view(args@[i as int]));
            let mut j: usize = 0;
            while j < bounds[i].len()
                invariant
                    i < args@.len(),
                    i < bounds@.len(),
                    j <= bounds@[i as int]@.len(),
                    views == infer_types_view(args@),
                    views.len() == args@.len(),
                    views[i as int] == infer_type_view(args@[i as int]),
                    forall|b: int|
                        0 <= b < j ==> infer_satisfies(
                            *self,
                            texts(module@),
                            assumptions@, views[i as int],
                            (#[trigger] bounds@[i as int]@[b])@,
                        ),
                decreases bounds@[i as int]@.len() - j,
            {
                if !self.infer_type_satisfies_aspect(module, &args[i], bounds[i][j].as_str(), assumptions) {
                    assert(!infer_satisfies(
                        *self,
                        texts(module@),
                        assumptions@, views[i as int],
                        bounds@[i as int]@[j as int]@,
                    ));
                    return false;
                }
                j += 1;
            }
            i += 1;
        }
        true
    }
}

} // verus!
