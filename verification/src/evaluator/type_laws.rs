//! What the types of run-time values are.
use vstd::prelude::*;
use crate::infer::{law_lowering_undoes_lifting, lifted, InferTypeV, TypeVar};
use crate::registry::{FieldEntry, TypeDefinitionRegistry};
use crate::scheme::solve;
use crate::types::TypeV;
use super::type_of::{cell_type, fields_solved, known_types, refined, target_type, type_named};
use super::type_of::{type_of, types_of};
use super::value::{HeapV, RuntimeCallableV, ValueV};

verus! {

/// A simple value is of the type it is written with.
pub proof fn law_simple_values_have_their_types(
    heap: HeapV,
    reg: TypeDefinitionRegistry,
    v: ValueV,
    fuel: nat,
)
    ensures
        match v {
            ValueV::I8(_) => type_of(heap, reg, v, fuel) == Some(TypeV::I8),
            ValueV::I16(_) => type_of(heap, reg, v, fuel) == Some(TypeV::I16),
            ValueV::I32(_) => type_of(heap, reg, v, fuel) == Some(TypeV::I32),
            ValueV::I64(_) => type_of(heap, reg, v, fuel) == Some(TypeV::I64),
            ValueV::U8(_) => type_of(heap, reg, v, fuel) == Some(TypeV::U8),
            ValueV::U16(_) => type_of(heap, reg, v, fuel) == Some(TypeV::U16),
            ValueV::U32(_) => type_of(heap, reg, v, fuel) == Some(TypeV::U32),
            ValueV::U64(_) => type_of(heap, reg, v, fuel) == Some(TypeV::U64),
            ValueV::F32(_) => type_of(heap, reg, v, fuel) == Some(TypeV::F32),
            ValueV::F64(_) => type_of(heap, reg, v, fuel) == Some(TypeV::F64),
            ValueV::Char(_) => type_of(heap, reg, v, fuel) == Some(TypeV::Char),
            ValueV::Boolean(_) => type_of(heap, reg, v, fuel) == Some(TypeV::Boolean),
            ValueV::Str(_) => type_of(heap, reg, v, fuel) == Some(TypeV::Str),
            ValueV::Unit => type_of(heap, reg, v, fuel) == Some(TypeV::Unit),
            _ => true,
        },
{
}

/// A tuple is of the types of its elements, position by position.
pub proof fn law_tuples_are_of_the_types_of_their_elements(
    heap: HeapV,
    reg: TypeDefinitionRegistry,
    s: Seq<ValueV>,
    fuel: nat,
    i: int,
)
    requires
        0 <= i < s.len(),
    ensures
        type_of(heap, reg, ValueV::Tuple(s), fuel) matches Some(t) ==> (t matches TypeV::Tuple(types)
            && types.len() == s.len() && type_of(heap, reg, s[i], fuel) == Some(types[i])),
{
    lemma_types(heap, reg, s, s.len() as int, fuel, i);
    assert(type_of(heap, reg, ValueV::Tuple(s), fuel) == match types_of(
        heap,
        reg,
        s,
        s.len() as int,
        fuel,
    ) {
        Some(t) => Some(TypeV::Tuple(t)),
        None => None,
    });
}

proof fn lemma_types(
    heap: HeapV,
    reg: TypeDefinitionRegistry,
    s: Seq<ValueV>,
    k: int,
    fuel: nat,
    i: int,
)
    requires
        0 <= k <= s.len(),
        0 <= i < s.len(),
    ensures
        types_of(heap, reg, s, k, fuel) matches Some(types) ==> types.len() == k && (i < k ==> type_of(
            heap,
            reg,
            s[i],
            fuel,
        ) == Some(types[i])),
    decreases k,
{
    if k > 0 {
        lemma_types(heap, reg, s, k - 1, fuel, i);
    }
}

/// An array is of the type of its first element; an empty one, of which nothing is known, of `!`.
/// A reference is of the type of what it refers to, shared or not.
pub proof fn law_arrays_and_references_are_of_what_they_hold(
    heap: HeapV,
    reg: TypeDefinitionRegistry,
    i: usize,
    t: TypeV,
    fuel: nat,
)
    requires
        fuel > 0,
    ensures
        i < heap.arrays.len() && heap.arrays[i as int].len() == 0 ==> type_of(
            heap,
            reg,
            ValueV::Array(i),
            fuel,
        ) == Some(TypeV::Array(Box::new(TypeV::Never))),
        i < heap.arrays.len() && heap.arrays[i as int].len() > 0 && type_of(
            heap,
            reg,
            heap.arrays[i as int][0],
            (fuel - 1) as nat,
        ) == Some(t) ==> type_of(heap, reg, ValueV::Array(i), fuel) == Some(
            TypeV::Array(Box::new(t)),
        ),
        i < heap.cells.len() && type_of(heap, reg, heap.cells[i as int], (fuel - 1) as nat) == Some(
            t,
        ) ==> type_of(heap, reg, ValueV::Reference(i), fuel) == Some(
            TypeV::Reference(Box::new(t)),
        ) && type_of(heap, reg, ValueV::MutReference(i), fuel) == Some(
            TypeV::MutReference(Box::new(t)),
        ),
{
    if i < heap.arrays.len() && heap.arrays[i as int].len() > 0 {
        assert(target_type(heap, reg, heap.arrays[i as int][0], fuel) == type_of(
            heap,
            reg,
            heap.arrays[i as int][0],
            (fuel - 1) as nat,
        ));
    }
    if i < heap.cells.len() {
        assert(cell_type(heap, reg, i, fuel) == type_of(
            heap,
            reg,
            heap.cells[i as int],
            (fuel - 1) as nat,
        ));
    }
}

/// A struct and a variant are of the type they are named by.
pub proof fn law_structs_and_variants_keep_their_names(
    heap: HeapV,
    reg: TypeDefinitionRegistry,
    name: Seq<char>,
    variant: Seq<char>,
    fields: Seq<(Seq<char>, ValueV)>,
    fuel: nat,
)
    ensures
        type_of(heap, reg, ValueV::Struct { name, fields }, fuel) matches Some(t) ==> (t
            matches TypeV::Named(n, _) && n == name),
        type_of(heap, reg, ValueV::Enum { name, variant, fields }, fuel) matches Some(t) ==> (t
            matches TypeV::Named(n, _) && n == name),
{
}

/// A closure whose function type is known is of that type.
pub proof fn law_closures_are_of_their_function_type(
    heap: HeapV,
    reg: TypeDefinitionRegistry,
    t: TypeV,
    fuel: nat,
)
    ensures
        type_of(
            heap,
            reg,
            ValueV::Callable(RuntimeCallableV::Closure { fun_type: Some(t) }),
            fuel,
        ) == Some(t),
{
}

/// The type argument of a generic struct is told by the field that is declared of that parameter:
/// the argument at the position of the parameter is the type of the field.
pub proof fn law_fields_tell_type_arguments(
    declared: Seq<FieldEntry>,
    given: Seq<(Seq<char>, TypeV)>,
    vars: Seq<TypeVar>,
    i: int,
    t: TypeV,
)
    requires
        declared.len() == 1,
        0 <= i < vars.len(),
        declared[0].ty@ == InferTypeV::Var(vars[i]),
        type_named(given, declared[0].name@) == Some(t),
        !(t is Never),
    ensures
        known_types(fields_solved(declared, given, 1), vars)[i] == t,
        forall|j: int|
            0 <= j < vars.len() && vars[j] != vars[i] ==> #[trigger] known_types(
                fields_solved(declared, given, 1),
                vars,
            )[j] == TypeV::Never,
{
    reveal_with_fuel(fields_solved, 2);
    law_lowering_undoes_lifting(t);
    let m = Map::<TypeVar, InferTypeV>::empty().insert(vars[i], lifted(t));
    assert(solve(Map::empty(), InferTypeV::Var(vars[i]), t) == Some(m));
    assert(fields_solved(declared, given, 1) == m);
}

/// What nothing was sampled of is filled in from what is known: `!` becomes the known type, alone
/// and inside arrays and references.
pub proof fn law_refining_fills_in(known: TypeV)
    ensures
        refined(TypeV::Never, known) == known,
        refined(TypeV::Array(Box::new(TypeV::Never)), TypeV::Array(Box::new(known)))
            == TypeV::Array(Box::new(known)),
        refined(TypeV::Reference(Box::new(TypeV::Never)), TypeV::Reference(Box::new(known)))
            == TypeV::Reference(Box::new(known)),
{
    assert(refined(TypeV::Never, known) == known);
}

} // verus!
