//! From the types that are written in source to inference types.
use vstd::prelude::*;

use crate::ast::{named_type_exprs_view, type_expr_view, type_exprs_view, AssocTypeDecl};
use crate::ast::{TypeExpr, TypeExprV};
use crate::infer::{infer_type_view, infer_types_view, named_infer_types_view, InferType, InferTypeV};
use crate::registry::{first_where, lemma_first_where_skip, AspectInfo};
use crate::text::{joined3, same_text};
use crate::types::{Type, TypeV};

verus! {

/// The primitive type that a name denotes.
pub open spec fn primitive_named(name: Seq<char>) -> Option<TypeV> {
    if name == "i8"@ {
        Some(TypeV::I8)
    } else if name == "i16"@ {
        Some(TypeV::I16)
    } else if name == "i32"@ {
        Some(TypeV::I32)
    } else if name == "i64"@ {
        Some(TypeV::I64)
    } else if name == "u8"@ {
        Some(TypeV::U8)
    } else if name == "u16"@ {
        Some(TypeV::U16)
    } else if name == "u32"@ {
        Some(TypeV::U32)
    } else if name == "u64"@ {
        Some(TypeV::U64)
    } else if name == "f32"@ {
        Some(TypeV::F32)
    } else if name == "f64"@ {
        Some(TypeV::F64)
    } else if name == "boolean"@ {
        Some(TypeV::Boolean)
    } else if name == "Char"@ {
        Some(TypeV::Char)
    } else if name == "String"@ {
        Some(TypeV::Str)
    } else {
        None
    }
}

/// The primitive type that a name denotes, or `None` for any other name.
pub fn primitive_type_from_name(name: &str) -> (r: Option<Type>)
    ensures
        match r {
            Some(ty) => primitive_named(name@) == Some(ty@),
            None => primitive_named(name@) is None,
        },
{
    if same_text(name, "i8") {
        Some(Type::I8)
    } else if same_text(name, "i16") {
        Some(Type::I16)
    } else if same_text(name, "i32") {
        Some(Type::I32)
    } else if same_text(name, "i64") {
        Some(Type::I64)
    } else if same_text(name, "u8") {
        Some(Type::U8)
    } else if same_text(name, "u16") {
        Some(Type::U16)
    } else if same_text(name, "u32") {
        Some(Type::U32)
    } else if same_text(name, "u64") {
        Some(Type::U64)
    } else if same_text(name, "f32") {
        Some(Type::F32)
    } else if same_text(name, "f64") {
        Some(Type::F64)
    } else if same_text(name, "boolean") {
        Some(Type::Boolean)
    } else if same_text(name, "Char") {
        Some(Type::Char)
    } else if same_text(name, "String") {
        Some(Type::Str)
    } else {
        None
    }
}

/// What the names of a type expression may stand for besides declared types.
pub struct TypeScope<'a> {
    /// The type parameters in scope and what each stands for; of two with one name the first.
    pub generics: &'a Vec<(String, InferType)>,
    /// The type that `Self` denotes.
    pub self_name: Option<&'a str>,
    /// The aspect whose associated types may be named without a path.
    pub aspect: Option<&'a AspectInfo>,
}

/// A [`TypeScope`] as a mathematical object.
pub ghost struct TypeScopeV {
    pub generics: Seq<(Seq<char>, InferTypeV)>,
    pub self_name: Option<Seq<char>>,
    pub aspect: Option<AspectInfo>,
}

impl<'a> View for TypeScope<'a> {
    type V = TypeScopeV;

    open spec fn view(&self) -> TypeScopeV {
        TypeScopeV {
            generics: named_infer_types_view(self.generics@),
            self_name: match self.self_name {
                Some(s) => Some(s@),
                None => None,
            },
            aspect: match self.aspect {
                Some(a) => Some(*a),
                None => None,
            },
        }
    }
}

/// What a type parameter stands for.
pub open spec fn generic_named(
    generics: Seq<(Seq<char>, InferTypeV)>,
    name: Seq<char>,
) -> Option<InferTypeV> {
    match first_where(generics, |e: (Seq<char>, InferTypeV)| e.0 == name) {
        Some(e) => Some(e.1),
        None => None,
    }
}

/// Whether an aspect declares an associated type.
pub open spec fn declares_assoc(aspect: AspectInfo, name: Seq<char>) -> bool {
    exists|i: int| 0 <= i < aspect.assoc_types@.len() && (#[trigger] aspect.assoc_types@[i]).name@
        == name
}

/// What a name without type arguments denotes: a type parameter, `Self`, an associated type of
/// the aspect in scope, `!`, a primitive type or a declared type, in this order.
pub open spec fn bare_name(scope: TypeScopeV, name: Seq<char>) -> InferTypeV {
    match generic_named(scope.generics, name) {
        Some(t) => t,
        None => if name == "Self"@ && scope.self_name is Some {
            InferTypeV::Named(scope.self_name->0, Seq::empty())
        } else if scope.self_name is Some && scope.aspect is Some && declares_assoc(
            scope.aspect->0,
            name,
        ) {
            InferTypeV::Named(scope.self_name->0 + "::"@ + name, Seq::empty())
        } else if name == "!"@ {
            InferTypeV::Never
        } else {
            match primitive_named(name) {
                Some(t) => InferTypeV::Concrete(t),
                None => InferTypeV::Named(name, Seq::empty()),
            }
        },
    }
}

/// The inference type that a type expression denotes.
pub open spec fn denoted(scope: TypeScopeV, te: TypeExprV) -> InferTypeV
    decreases te,
{
    match te {
        TypeExprV::Named(name, args) => if args.len() == 0 {
            bare_name(scope, name)
        } else {
            InferTypeV::Named(name, all_denoted(scope, args))
        },
        TypeExprV::Unit => InferTypeV::Concrete(TypeV::Unit),
        TypeExprV::Tuple(items) => InferTypeV::Tuple(all_denoted(scope, items)),
        TypeExprV::Record(fields) => InferTypeV::Record(fields_denoted(scope, fields)),
        TypeExprV::Array(item) => InferTypeV::Array(Box::new(denoted(scope, *item))),
        TypeExprV::SizedArray(item, n) => InferTypeV::SizedArray(
            Box::new(denoted(scope, *item)),
            n,
        ),
        TypeExprV::Reference(inner) => InferTypeV::Reference(Box::new(denoted(scope, *inner))),
        TypeExprV::MutReference(inner) => InferTypeV::MutReference(
            Box::new(denoted(scope, *inner)),
        ),
        TypeExprV::Fun(params, ret) => InferTypeV::Fun(
            all_denoted(scope, params),
            Box::new(
                match ret {
                    Some(t) => denoted(scope, *t),
                    None => InferTypeV::Concrete(TypeV::Unit),
                },
            ),
        ),
        TypeExprV::ImplAspect { bound } => denoted(scope, *bound),
        TypeExprV::DynAspect { bound } => denoted(scope, *bound),
        TypeExprV::Projection { base, assoc } => match denoted(scope, *base) {
            InferTypeV::Named(name, args) => InferTypeV::Named(name + "::"@ + assoc, args),
            other => other,
        },
        TypeExprV::RecordProjection { base, fields: _ } => bare_name(scope, base),
    }
}

/// [`denoted`] on every type expression of a sequence.
pub open spec fn all_denoted(scope: TypeScopeV, s: Seq<TypeExprV>) -> Seq<InferTypeV>
    decreases s,
{
    Seq::new(s.len(), |i: int| if 0 <= i < s.len() { denoted(scope, s[i]) } else { arbitrary() })
}

/// [`denoted`] on the type of every field.
pub open spec fn fields_denoted(scope: TypeScopeV, s: Seq<(Seq<char>, TypeExprV)>) -> Seq<
    (Seq<char>, InferTypeV),
>
    decreases s,
{
    Seq::new(
        s.len(),
        |i: int| if 0 <= i < s.len() { (s[i].0, denoted(scope, s[i].1)) } else { arbitrary() },
    )
}

fn lookup_generic(generics: &Vec<(String, InferType)>, name: &str) -> (r: Option<InferType>)
    ensures
        match r {
            Some(t) => generic_named(named_infer_types_view(generics@), name@) == Some(t@),
            None => generic_named(named_infer_types_view(generics@), name@) is None,
        },
{
    let ghost views = named_infer_types_view(generics@);
    let ghost p = |e: (Seq<char>, InferTypeV)| e.0 == name@;
    assert(views.len() == generics@.len());
    assert(views.skip(0) =~= views);
    let mut i: usize = 0;
    while i < generics.len()
        invariant
            i <= generics@.len(),
            views == named_infer_types_view(generics@),
            views.len() == generics@.len(),
            p == (|e: (Seq<char>, InferTypeV)| e.0 == name@),
            first_where(views, p) == first_where(views.skip(i as int), p),
        decreases generics@.len() - i,
    {
        proof {
            lemma_first_where_skip(views, p, i as int);
            assert(views[i as int] == (generics@[i as int].0@, infer_type_view(generics@[i as int].1)));
        }
        if same_text(generics[i].0.as_str(), name) {
            return Some(generics[i].1.copy());
        }
        i += 1;
    }
    None
}

fn has_assoc(decls: &Vec<AssocTypeDecl>, name: &str) -> (r: bool)
    ensures
        r == exists|i: int| 0 <= i < decls@.len() && (#[trigger] decls@[i]).name@ == name@,
{
    let mut i: usize = 0;
    while i < decls.len()
        invariant
            i <= decls@.len(),
            forall|k: int| 0 <= k < i ==> (#[trigger] decls@[k]).name@ != name@,
        decreases decls@.len() - i,
    {
        if same_text(decls[i].name.as_str(), name) {
            return true;
        }
        i += 1;
    }
    false
}

fn named_alone(name: String) -> (r: InferType)
    ensures
        r@ == InferTypeV::Named(name@, Seq::empty()),
{
    let args: Vec<InferType> = Vec::new();
    assert(infer_types_view(args@) =~= Seq::empty());
    InferType::Named(name, args)
}

fn bare_name_to_infer(scope: &TypeScope, name: &str) -> (r: InferType)
    ensures
        r@ == bare_name(scope@, name@),
{
    if let Some(t) = lookup_generic(scope.generics, name) {
        return t;
    }
    if let Some(self_name) = scope.self_name {
        if same_text(name, "Self") {
            return named_alone(self_name.to_owned());
        }
        if let Some(aspect) = scope.aspect {
            if has_assoc(&aspect.assoc_types, name) {
                return named_alone(joined3(self_name, "::", name));
            }
        }
    }
    if same_text(name, "!") {
        return InferType::Never;
    }
    match primitive_type_from_name(name) {
        Some(ty) => InferType::Concrete(ty),
        None => named_alone(name.to_owned()),
    }
}

/// The inference type that a type expression denotes in a scope.
pub fn type_expr_to_infer(te: &TypeExpr, scope: &TypeScope) -> (r: InferType)
    ensures
        r@ == denoted(scope@, te@),
    decreases *te,
{
    match te {
        TypeExpr::Named(name, args) => {
            assert(type_exprs_view(args@).len() == args@.len());
            if args.len() == 0 {
                bare_name_to_infer(scope, name.as_str())
            } else {
                InferType::Named(name.clone(), type_exprs_to_infer(args, scope))
            }
        },
        TypeExpr::Unit => InferType::Concrete(Type::Unit),
        TypeExpr::Tuple(items) => InferType::Tuple(type_exprs_to_infer(items, scope)),
        TypeExpr::Record(fields) => InferType::Record(field_exprs_to_infer(fields, scope)),
        TypeExpr::Array(item) => InferType::Array(Box::new(type_expr_to_infer(item, scope))),
        TypeExpr::SizedArray(item, n) => InferType::SizedArray(
            Box::new(type_expr_to_infer(item, scope)),
            *n,
        ),
        TypeExpr::Reference(inner) => InferType::Reference(
            Box::new(type_expr_to_infer(inner, scope)),
        ),
        TypeExpr::MutReference(inner) => InferType::MutReference(
            Box::new(type_expr_to_infer(inner, scope)),
        ),
        TypeExpr::Fun(params, ret) => {
            let list: Vec<InferType> = type_exprs_to_infer(params, scope);
            let result: InferType = match ret {
                Some(t) => type_expr_to_infer(t, scope),
                None => InferType::Concrete(Type::Unit),
            };
            InferType::Fun(list, Box::new(result))
        },
        TypeExpr::ImplAspect { bound } => type_expr_to_infer(bound, scope),
        TypeExpr::DynAspect { bound } => type_expr_to_infer(bound, scope),
        TypeExpr::Projection { base, assoc } => match type_expr_to_infer(base, scope) {
            InferType::Named(name, args) => InferType::Named(
                joined3(name.as_str(), "::", assoc.as_str()),
                args,
            ),
            other => other,
        },
        TypeExpr::RecordProjection { base, fields: _ } => bare_name_to_infer(scope, base.as_str()),
    }
}

/// [`type_expr_to_infer`] on every type expression of a list.
pub fn type_exprs_to_infer(v: &Vec<TypeExpr>, scope: &TypeScope) -> (r: Vec<InferType>)
    ensures
        infer_types_view(r@) == all_denoted(scope@, type_exprs_view(v@)),
    decreases v@,
{
    let mut out: Vec<InferType> = Vec::new();
    let mut i: usize = 0;
    while i < v.len()
        invariant
            i <= v.len(),
            out@.len() == i,
            forall|k: int|
                0 <= k < i ==> infer_type_view(#[trigger] out@[k]) == denoted(
                    scope@,
                    type_expr_view(v@[k]),
                ),
        decreases v.len() - i,
    {
        out.push(type_expr_to_infer(&v[i], scope));
        i += 1;
    }
    assert(infer_types_view(out@) =~= all_denoted(scope@, type_exprs_view(v@)));
    out
}

fn field_exprs_to_infer(v: &Vec<(String, TypeExpr)>, scope: &TypeScope) -> (r: Vec<
    (String, InferType),
>)
    ensures
        named_infer_types_view(r@) == fields_denoted(scope@, named_type_exprs_view(v@)),
    decreases v@,
{
    let mut out: Vec<(String, InferType)> = Vec::new();
    let mut i: usize = 0;
    while i < v.len()
        invariant
            i <= v.len(),
            out@.len() == i,
            forall|k: int|
                0 <= k < i ==> (#[trigger] out@[k]).0@ == v@[k].0@ && infer_type_view(out@[k].1)
                    == denoted(scope@, type_expr_view(v@[k].1)),
        decreases v.len() - i,
    {
        out.push((v[i].0.clone(), type_expr_to_infer(&v[i].1, scope)));
        i += 1;
    }
    assert(named_infer_types_view(out@) =~= fields_denoted(scope@, named_type_exprs_view(v@)));
    out
}

} // verus!
