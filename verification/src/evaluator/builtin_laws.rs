//! What the functions that the evaluator provides are for.
use vstd::prelude::*;
use crate::error::{MetelErrorV, RuntimeErrorCode};
use crate::native_keys::NativeKey;
use crate::registry::lemma_first_where;
use crate::span::SpanV;
use super::builtins::{backing, builtin_reply, inner_of, integer_of, list_fields, EffectV};
use super::builtins::{HostFactsV, Reply};
use super::value::{Builtin, HeapV, ValueV};

verus! {

/// A call of a function of the standard library.
pub open spec fn call(
    key: NativeKey,
    args: Seq<ValueV>,
    heap: HeapV,
    facts: HostFactsV,
    span: SpanV,
) -> Reply {
    builtin_reply(Builtin::Native(key), args, heap, facts, span)
}

/// Whether a call hands back a value, has the host do nothing, and leaves the heap as it was.
pub open spec fn gives(r: Reply, v: ValueV, heap: HeapV) -> bool {
    r.heap == heap && r.out == Ok::<(ValueV, EffectV), MetelErrorV>((v, EffectV::Nothing))
}

/// The length of an array is the number of its own elements, whatever else the heap holds, and
/// taking it changes nothing. A list that is made from the array has that length too.
pub proof fn law_an_array_has_its_own_length(
    a: usize,
    heap: HeapV,
    facts: HostFactsV,
    span: SpanV,
)
    requires
        a < heap.arrays.len() < usize::MAX,
        heap.arrays[a as int].len() <= i64::MAX,
    ensures
        ({
            let r = builtin_reply(Builtin::ArrayLen, seq![ValueV::Array(a)], heap, facts, span);
            let l = call(NativeKey::StdCoreListFrom, seq![ValueV::Array(a)], heap, facts, span);
            &&& r.heap == heap
            &&& r.out matches Ok((v, e)) && v matches ValueV::I64(n) && n as int
                == heap.arrays[a as int].len() && e == EffectV::Nothing
            &&& l.out matches Ok((list, e)) && gives(
                call(NativeKey::StdCoreListLen, seq![list], l.heap, facts, span),
                (r.out->Ok_0).0,
                l.heap,
            )
        }),
{
    let i = heap.arrays.len() as usize;
    let h = HeapV { arrays: heap.arrays.push(heap.arrays[a as int]), ..heap };
    let l = call(NativeKey::StdCoreListFrom, seq![ValueV::Array(a)], heap, facts, span);
    lemma_list(i, seq![(l.out->Ok_0).0], h);
}

proof fn lemma_list(i: usize, args: Seq<ValueV>, heap: HeapV)
    requires
        args.len() > 0,
        args[0] == (ValueV::Struct { name: "List"@, fields: seq![("inner"@, ValueV::Array(i))] }),
        i < heap.arrays.len(),
    ensures
        list_fields(args) == Some(seq![("inner"@, ValueV::Array(i))]),
        inner_of(seq![("inner"@, ValueV::Array(i))]) == Some(ValueV::Array(i)),
        backing(seq![("inner"@, ValueV::Array(i))], heap) == Some(i),
{
    let fields = seq![("inner"@, ValueV::Array(i))];
    let p = |f: (Seq<char>, ValueV)| f.0 == "inner"@;
    lemma_first_where(fields, p);
    assert(p(fields[0]));
}

/// The length of a string is the number of its characters, by either name of the function.
pub proof fn law_a_string_has_its_own_length(
    s: Seq<char>,
    heap: HeapV,
    facts: HostFactsV,
    span: SpanV,
)
    requires
        s.len() <= i64::MAX,
    ensures
        gives(
            builtin_reply(Builtin::StringLen, seq![ValueV::Str(s)], heap, facts, span),
            ValueV::I64(s.len() as i64),
            heap,
        ),
        gives(
            call(NativeKey::StdCoreStringLen, seq![ValueV::Str(s)], heap, facts, span),
            ValueV::I64(s.len() as i64),
            heap,
        ),
{
}

/// Two strings are joined in their order: the characters of the first, then those of the second.
pub proof fn law_joining_strings_keeps_their_order(
    a: Seq<char>,
    b: Seq<char>,
    heap: HeapV,
    facts: HostFactsV,
    span: SpanV,
)
    ensures
        ({
            let r = call(
                NativeKey::StdCoreStringConcat,
                seq![ValueV::Str(a), ValueV::Str(b)],
                heap,
                facts,
                span,
            );
            &&& r.heap == heap
            &&& r.out matches Ok((v, e)) && v matches ValueV::Str(s) && e == EffectV::Nothing
                && s.len() == a.len() + b.len() && s.take(a.len() as int) == a && s.skip(
                a.len() as int,
            ) == b
        }),
{
    assert((a + b).take(a.len() as int) =~= a);
    assert((a + b).skip(a.len() as int) =~= b);
}

/// An integer value.
pub open spec fn whole(v: ValueV) -> Option<int> {
    match v {
        ValueV::I8(n) => Some(n as int),
        ValueV::I16(n) => Some(n as int),
        ValueV::I32(n) => Some(n as int),
        ValueV::I64(n) => Some(n as int),
        ValueV::U8(n) => Some(n as int),
        ValueV::U16(n) => Some(n as int),
        ValueV::U32(n) => Some(n as int),
        ValueV::U64(n) => Some(n as int),
        _ => None,
    }
}

/// Whether an integer has a place in a type of so many bits.
pub open spec fn within(n: int, low: int, high: int) -> bool {
    low <= n <= high
}

/// A conversion between integers keeps every number that the other type has, and hands back a
/// value of that type. It leaves the heap alone and has the host do nothing.
pub proof fn law_conversions_keep_what_fits(
    v: ValueV,
    heap: HeapV,
    facts: HostFactsV,
    span: SpanV,
)
    requires
        whole(v) is Some,
    ensures
        ({
            let n = whole(v)->0;
            let to = |key: NativeKey| call(key, seq![v], heap, facts, span);
            &&& within(n, i8::MIN as int, i8::MAX as int) ==> gives(
                to(NativeKey::StdCoreI8From),
                ValueV::I8(n as i8),
                heap,
            )
            &&& within(n, i16::MIN as int, i16::MAX as int) ==> gives(
                to(NativeKey::StdCoreI16From),
                ValueV::I16(n as i16),
                heap,
            )
            &&& within(n, i32::MIN as int, i32::MAX as int) ==> gives(
                to(NativeKey::StdCoreI32From),
                ValueV::I32(n as i32),
                heap,
            )
            &&& within(n, i64::MIN as int, i64::MAX as int) ==> gives(
                to(NativeKey::StdCoreI64From),
                ValueV::I64(n as i64),
                heap,
            )
            &&& within(n, 0, u8::MAX as int) ==> gives(
                to(NativeKey::StdCoreU8From),
                ValueV::U8(n as u8),
                heap,
            )
            &&& within(n, 0, u16::MAX as int) ==> gives(
                to(NativeKey::StdCoreU16From),
                ValueV::U16(n as u16),
                heap,
            )
            &&& within(n, 0, u32::MAX as int) ==> gives(
                to(NativeKey::StdCoreU32From),
                ValueV::U32(n as u32),
                heap,
            )
            &&& within(n, 0, u64::MAX as int) ==> gives(
                to(NativeKey::StdCoreU64From),
                ValueV::U64(n as u64),
                heap,
            )
        }),
{
}

/// The number that a conversion of an integer hands back differs from the integer by a multiple of
/// how many numbers the type has: the bits that do not fit are dropped, and no others.
pub proof fn law_conversions_drop_high_bits(
    v: ValueV,
    heap: HeapV,
    facts: HostFactsV,
    span: SpanV,
)
    requires
        whole(v) is Some,
    ensures
        ({
            let n = whole(v)->0;
            let to = |key: NativeKey| call(key, seq![v], heap, facts, span).out;
            &&& to(NativeKey::StdCoreI8From) matches Ok((x, _)) && x matches ValueV::I8(k) && (k
                - n) % 0x100 == 0
            &&& to(NativeKey::StdCoreI16From) matches Ok((x, _)) && x matches ValueV::I16(k) && (k
                - n) % 0x10000 == 0
            &&& to(NativeKey::StdCoreI32From) matches Ok((x, _)) && x matches ValueV::I32(k) && (k
                - n) % 0x1_0000_0000 == 0
            &&& to(NativeKey::StdCoreI64From) matches Ok((x, _)) && x matches ValueV::I64(k) && (k
                - n) % 0x1_0000_0000_0000_0000 == 0
            &&& to(NativeKey::StdCoreU8From) matches Ok((x, _)) && x matches ValueV::U8(k) && (k
                - n) % 0x100 == 0
            &&& to(NativeKey::StdCoreU16From) matches Ok((x, _)) && x matches ValueV::U16(k) && (k
                - n) % 0x10000 == 0
            &&& to(NativeKey::StdCoreU32From) matches Ok((x, _)) && x matches ValueV::U32(k) && (k
                - n) % 0x1_0000_0000 == 0
            &&& to(NativeKey::StdCoreU64From) matches Ok((x, _)) && x matches ValueV::U64(k) && (k
                - n) % 0x1_0000_0000_0000_0000 == 0
        }),
{
    let m = integer_of(v, facts)->0;
    assert(m as int == whole(v)->0);
    lemma_dropped_bits(m);
}

proof fn lemma_dropped_bits(m: i128)
    requires
        i64::MIN <= m <= u64::MAX,
    ensures
        ((m as i8) - m) % 0x100 == 0,
        ((m as i16) - m) % 0x10000 == 0,
        ((m as i32) - m) % 0x1_0000_0000 == 0,
        ((m as i64) - m) % 0x1_0000_0000_0000_0000 == 0,
        ((m as u8) - m) % 0x100 == 0,
        ((m as u16) - m) % 0x10000 == 0,
        ((m as u32) - m) % 0x1_0000_0000 == 0,
        ((m as u64) - m) % 0x1_0000_0000_0000_0000 == 0,
{
    assert(((m as i8) - m) % 0x100 == 0) by (bit_vector)
        requires
            -0x8000_0000_0000_0000i128 <= m <= 0xFFFF_FFFF_FFFF_FFFFi128,
    ;
    assert(((m as i16) - m) % 0x10000 == 0) by (bit_vector)
        requires
            -0x8000_0000_0000_0000i128 <= m <= 0xFFFF_FFFF_FFFF_FFFFi128,
    ;
    assert(((m as i32) - m) % 0x1_0000_0000 == 0) by (bit_vector)
        requires
            -0x8000_0000_0000_0000i128 <= m <= 0xFFFF_FFFF_FFFF_FFFFi128,
    ;
    assert(((m as i64) - m) % 0x1_0000_0000_0000_0000 == 0) by (bit_vector)
        requires
            -0x8000_0000_0000_0000i128 <= m <= 0xFFFF_FFFF_FFFF_FFFFi128,
    ;
    assert(((m as u8) - m) % 0x100 == 0) by (bit_vector)
        requires
            -0x8000_0000_0000_0000i128 <= m <= 0xFFFF_FFFF_FFFF_FFFFi128,
    ;
    assert(((m as u16) - m) % 0x10000 == 0) by (bit_vector)
        requires
            -0x8000_0000_0000_0000i128 <= m <= 0xFFFF_FFFF_FFFF_FFFFi128,
    ;
    assert(((m as u32) - m) % 0x1_0000_0000 == 0) by (bit_vector)
        requires
            -0x8000_0000_0000_0000i128 <= m <= 0xFFFF_FFFF_FFFF_FFFFi128,
    ;
    assert(((m as u64) - m) % 0x1_0000_0000_0000_0000 == 0) by (bit_vector)
        requires
            -0x8000_0000_0000_0000i128 <= m <= 0xFFFF_FFFF_FFFF_FFFFi128,
    ;
}

/// A float is converted to an integer by what the host says it is without its fraction; what the
/// host says of an integer does not matter.
pub proof fn law_floats_are_cut_off(
    v: ValueV,
    heap: HeapV,
    facts: HostFactsV,
    span: SpanV,
)
    requires
        v is F32 || v is F64,
        i64::MIN <= facts.truncated <= i64::MAX,
    ensures
        gives(
            call(NativeKey::StdCoreI64From, seq![v], heap, facts, span),
            ValueV::I64(facts.truncated as i64),
            heap,
        ),
{
}

/// A number as a float is what the host says it is, of either width.
pub proof fn law_floats_come_from_the_host(
    v: ValueV,
    heap: HeapV,
    facts: HostFactsV,
    span: SpanV,
)
    requires
        whole(v) is Some || v is F32 || v is F64,
    ensures
        gives(
            call(NativeKey::StdCoreF32From, seq![v], heap, facts, span),
            ValueV::F32(facts.as_f32),
            heap,
        ),
        gives(
            call(NativeKey::StdCoreF64From, seq![v], heap, facts, span),
            ValueV::F64(facts.as_f64),
            heap,
        ),
{
}

/// What is no number is not converted to one. A character has a number of type `u32` only.
pub proof fn law_only_numbers_are_converted(
    v: ValueV,
    key: NativeKey,
    heap: HeapV,
    facts: HostFactsV,
    span: SpanV,
)
    requires
        whole(v) is None,
        !(v is F32 || v is F64),
        key is StdCoreI8From || key is StdCoreI16From || key is StdCoreI32From
            || key is StdCoreI64From || key is StdCoreU8From || key is StdCoreU16From
            || key is StdCoreU64From || key is StdCoreF32From || key is StdCoreF64From || (
        key is StdCoreU32From && !(v is Char)),
    ensures
        call(key, seq![v], heap, facts, span).out matches Err(e) && e is Internal,
        call(key, seq![v], heap, facts, span).heap == heap,
{
}

/// The number of a character and the character of a number are each other's inverse, and a number
/// has a character exactly if it is no surrogate and not beyond the last code point.
pub proof fn law_characters_and_their_numbers(
    n: u32,
    c: char,
    heap: HeapV,
    facts: HostFactsV,
    span: SpanV,
)
    ensures
        ({
            let valid = n <= 0xD7FF || 0xE000 <= n <= 0x10FFFF;
            let made = call(NativeKey::StdCoreCharFrom, seq![ValueV::U32(n)], heap, facts, span);
            &&& made.heap == heap
            &&& valid ==> (made.out matches Ok((v, e)) && e == EffectV::Nothing && v is Char
                && gives(
                call(NativeKey::StdCoreU32From, seq![v], heap, facts, span),
                ValueV::U32(n),
                heap,
            ))
            &&& !valid ==> (made.out matches Err(MetelErrorV::Panic { code, span: at, .. }) && code
                == RuntimeErrorCode::R0009 && at == span)
            &&& gives(
                call(NativeKey::StdCoreU32From, seq![ValueV::Char(c)], heap, facts, span),
                ValueV::U32(c as u32),
                heap,
            )
        }),
{
}

/// An assertion lets a true condition pass and stops the program on a false one, with the message
/// where there is one.
pub proof fn law_assertions_stop_on_falsehood(
    message: Seq<char>,
    heap: HeapV,
    facts: HostFactsV,
    span: SpanV,
)
    ensures
        ({
            let yes = ValueV::Boolean(true);
            let no = ValueV::Boolean(false);
            let text = ValueV::Str(message);
            let plain = |args: Seq<ValueV>|
                call(NativeKey::StdCoreAssert, args, heap, facts, span);
            let told = |args: Seq<ValueV>|
                call(NativeKey::StdCoreAssertMsg, args, heap, facts, span);
            &&& gives(plain(seq![yes]), ValueV::Unit, heap)
            &&& gives(told(seq![yes, text]), ValueV::Unit, heap)
            &&& plain(seq![no]).out == Err::<(ValueV, EffectV), MetelErrorV>(
                MetelErrorV::Panic {
                    code: RuntimeErrorCode::R0013,
                    message: "assertion failed"@,
                    span,
                },
            )
            &&& told(seq![no, text]).out == Err::<(ValueV, EffectV), MetelErrorV>(
                MetelErrorV::Panic { code: RuntimeErrorCode::R0013, message, span },
            )
            &&& plain(seq![no]).heap == heap
            &&& told(seq![no, text]).heap == heap
        }),
{
}

/// `print` writes how its argument is shown and `println` a line of it; both hand back `()`. A
/// value that cannot be shown stops the program, and nothing is written.
pub proof fn law_printing_shows_the_argument(
    v: ValueV,
    heap: HeapV,
    facts: HostFactsV,
    span: SpanV,
)
    ensures
        ({
            let one = call(NativeKey::StdCorePrint, seq![v], heap, facts, span);
            let line = call(NativeKey::StdCorePrintln, seq![v], heap, facts, span);
            &&& one.heap == heap
            &&& line.heap == heap
            &&& match facts.shown {
                Some(s) => {
                    &&& one.out == Ok::<(ValueV, EffectV), MetelErrorV>(
                        (ValueV::Unit, EffectV::Print(s)),
                    )
                    &&& line.out == Ok::<(ValueV, EffectV), MetelErrorV>(
                        (ValueV::Unit, EffectV::PrintLine(s)),
                    )
                    &&& gives(
                        call(NativeKey::StdCoreToString, seq![v], heap, facts, span),
                        ValueV::Str(s),
                        heap,
                    )
                },
                None => {
                    let text = call(NativeKey::StdCoreToString, seq![v], heap, facts, span);
                    &&& stopped(one, RuntimeErrorCode::R0009, span)
                    &&& stopped(line, RuntimeErrorCode::R0009, span)
                    &&& stopped(text, RuntimeErrorCode::R0009, span)
                },
            }
        }),
{
}

/// Whether a call stops the program with a code, at a place.
pub open spec fn stopped(r: Reply, code: RuntimeErrorCode, span: SpanV) -> bool {
    r.out matches Err(MetelErrorV::Panic { code: c, span: at, .. }) && c == code && at == span
}

/// `dbg` hands back its argument and writes how it is shown to someone who debugs the program.
pub proof fn law_debugging_hands_back_the_argument(
    v: ValueV,
    heap: HeapV,
    facts: HostFactsV,
    span: SpanV,
)
    ensures
        call(NativeKey::StdCoreDbg, seq![v], heap, facts, span).heap == heap,
        call(NativeKey::StdCoreDbg, seq![v], heap, facts, span).out == Ok::<
            (ValueV, EffectV),
            MetelErrorV,
        >((v, EffectV::Debug("[dbg] "@ + facts.debugged))),
{
}

/// The clock tells what the host says.
pub proof fn law_the_clock_tells_the_time(heap: HeapV, facts: HostFactsV, span: SpanV)
    ensures
        gives(
            call(NativeKey::StdCoreClock, Seq::empty(), heap, facts, span),
            ValueV::I64(facts.clock),
            heap,
        ),
{
}

/// Only making a list, pushing and popping change the heap, and they change no cell. Making a list
/// adds one array behind the others; pushing and popping change one array.
pub proof fn law_few_functions_change_the_heap(
    b: Builtin,
    args: Seq<ValueV>,
    heap: HeapV,
    facts: HostFactsV,
    span: SpanV,
)
    ensures
        ({
            let after = builtin_reply(b, args, heap, facts, span).heap;
            let makes = b == Builtin::Native(NativeKey::StdCoreListNew) || b == Builtin::Native(
                NativeKey::StdCoreListFrom,
            );
            let writes = b == Builtin::Native(NativeKey::StdCoreListPush) || b == Builtin::Native(
                NativeKey::StdCoreListPop,
            );
            &&& after.cells == heap.cells
            &&& !makes && !writes ==> after == heap
            &&& makes ==> after.arrays == heap.arrays || (after.arrays.len() == heap.arrays.len()
                + 1 && after.arrays.drop_last() == heap.arrays)
            &&& writes ==> after.arrays.len() == heap.arrays.len() && (after.arrays == heap.arrays
                || exists|i: int|
                0 <= i < heap.arrays.len() && after.arrays == heap.arrays.update(
                    i,
                    #[trigger] after.arrays[i],
                ))
        }),
{
    let r = builtin_reply(b, args, heap, facts, span);
    let after = r.heap;
    if b == Builtin::Native(NativeKey::StdCoreListNew) {
        assert(after.arrays.drop_last() =~= heap.arrays);
    } else if b == Builtin::Native(NativeKey::StdCoreListFrom) {
        if r.out is Ok {
            assert(after.arrays.drop_last() =~= heap.arrays);
        }
    } else if b == Builtin::Native(NativeKey::StdCoreListPush) || b == Builtin::Native(
        NativeKey::StdCoreListPop,
    ) {
        if list_fields(args) is Some && backing(list_fields(args)->0, heap) is Some {
            let i = backing(list_fields(args)->0, heap)->0 as int;
            if after.arrays != heap.arrays {
                assert(after.arrays == heap.arrays.update(i, after.arrays[i]));
            }
        }
    }
}

/// A list of no elements is a list that is made new: its length is zero, nothing is popped from
/// it, and every position of it is empty.
pub proof fn law_a_new_list_is_empty(
    k: i64,
    heap: HeapV,
    facts: HostFactsV,
    span: SpanV,
)
    requires
        heap.arrays.len() < usize::MAX,
    ensures
        ({
            let made = call(NativeKey::StdCoreListNew, Seq::empty(), heap, facts, span);
            let none = ValueV::Enum { name: "Perhaps"@, variant: "None"@, fields: Seq::empty() };
            &&& made.out matches Ok((l, e)) && e == EffectV::Nothing && {
                &&& gives(
                    call(NativeKey::StdCoreListLen, seq![l], made.heap, facts, span),
                    ValueV::I64(0),
                    made.heap,
                )
                &&& gives(
                    call(NativeKey::StdCoreListPop, seq![l], made.heap, facts, span),
                    none,
                    made.heap,
                )
                &&& gives(
                    call(
                        NativeKey::StdCoreListGet,
                        seq![l, ValueV::I64(k)],
                        made.heap,
                        facts,
                        span,
                    ),
                    none,
                    made.heap,
                )
            }
        }),
{
    let i = heap.arrays.len() as usize;
    let made = call(NativeKey::StdCoreListNew, Seq::empty(), heap, facts, span);
    let l = (made.out->Ok_0).0;
    lemma_list(i, seq![l], made.heap);
    lemma_list(i, seq![l, ValueV::I64(k)], made.heap);
}

/// A list with elements: its length is their number, a position below it holds its element, a
/// position elsewhere none; the last element is what is popped, and the others stay; and what is
/// pushed stands behind them. The array of a list is the list's own.
pub proof fn law_a_list_is_its_elements(
    i: usize,
    x: ValueV,
    k: i64,
    heap: HeapV,
    facts: HostFactsV,
    span: SpanV,
)
    requires
        i < heap.arrays.len(),
        heap.arrays[i as int].len() <= i64::MAX,
    ensures
        ({
            let s = heap.arrays[i as int];
            let l = ValueV::Struct {
                name: "List"@,
                fields: seq![("inner"@, ValueV::Array(i))],
            };
            let some = |v: ValueV|
                ValueV::Enum {
                    name: "Perhaps"@,
                    variant: "Some"@,
                    fields: seq![("value"@, v)],
                };
            let none = ValueV::Enum { name: "Perhaps"@, variant: "None"@, fields: Seq::empty() };
            let got = call(NativeKey::StdCoreListGet, seq![l, ValueV::I64(k)], heap, facts, span);
            let popped = call(NativeKey::StdCoreListPop, seq![l], heap, facts, span);
            let pushed = call(NativeKey::StdCoreListPush, seq![l, x], heap, facts, span);
            &&& gives(
                call(NativeKey::StdCoreListLen, seq![l], heap, facts, span),
                ValueV::I64(s.len() as i64),
                heap,
            )
            &&& 0 <= k < s.len() ==> gives(got, some(s[k as int]), heap)
            &&& !(0 <= k < s.len()) ==> gives(got, none, heap)
            &&& s.len() > 0 ==> gives(popped, some(s[s.len() - 1]), popped.heap)
                && popped.heap.arrays == heap.arrays.update(i as int, s.take(s.len() - 1))
            &&& s.len() == 0 ==> gives(popped, none, heap)
            &&& gives(pushed, ValueV::Unit, pushed.heap)
            &&& pushed.heap.arrays == heap.arrays.update(i as int, s + seq![x])
            &&& gives(
                call(NativeKey::StdCoreListAsSlice, seq![l], heap, facts, span),
                ValueV::Array(i),
                heap,
            )
        }),
{
    let s = heap.arrays[i as int];
    let l = ValueV::Struct { name: "List"@, fields: seq![("inner"@, ValueV::Array(i))] };
    lemma_list(i, seq![l], heap);
    lemma_list(i, seq![l, ValueV::I64(k)], heap);
    lemma_list(i, seq![l, x], heap);
    assert(s.push(x) =~= s + seq![x]);
    if s.len() > 0 {
        assert(s.drop_last() =~= s.take(s.len() - 1));
    }
}

/// A call that succeeds had the arguments it asks for: an array that the heap has, strings, a
/// condition that holds, a number, or a list with an array that the heap has.
pub proof fn law_success_takes_the_right_arguments(
    b: Builtin,
    args: Seq<ValueV>,
    heap: HeapV,
    facts: HostFactsV,
    span: SpanV,
)
    requires
        builtin_reply(b, args, heap, facts, span).out is Ok,
    ensures
        match b {
            Builtin::ArrayLen => args.len() > 0 && (args[0] matches ValueV::Array(i) && i
                < heap.arrays.len()),
            Builtin::StringLen => args.len() > 0 && args[0] is Str,
            Builtin::Native(key) => match key {
                NativeKey::StdCoreStringLen => args.len() > 0 && args[0] is Str,
                NativeKey::StdCoreStringConcat => args.len() > 1 && args[0] is Str && args[1] is Str,
                NativeKey::StdCoreAssert => args.len() > 0 && args[0] == ValueV::Boolean(true),
                NativeKey::StdCoreAssertMsg => args.len() > 0 && args[0] == ValueV::Boolean(true),
                NativeKey::StdCoreCharFrom => args.len() > 0 && args[0] is U32,
                NativeKey::StdCoreU32From => args.len() > 0 && (args[0] is Char || whole(
                    args[0],
                ) is Some || args[0] is F32 || args[0] is F64),
                NativeKey::StdCoreListFrom => args.len() > 0 && (args[0] matches ValueV::Array(i)
                    && i < heap.arrays.len()),
                NativeKey::StdCoreListPush => args.len() > 1 && is_list(args[0], heap),
                NativeKey::StdCoreListPop => args.len() > 0 && is_list(args[0], heap),
                NativeKey::StdCoreListLen => args.len() > 0 && is_list(args[0], heap),
                NativeKey::StdCoreListGet => args.len() > 1 && is_list(args[0], heap)
                    && args[1] is I64,
                NativeKey::StdCoreListAsSlice => args.len() > 0 && (
                args[0] matches ValueV::Struct { name, .. } && name == "List"@),
                NativeKey::StdCorePrint => args.len() > 0 && facts.shown is Some,
                NativeKey::StdCorePrintln => args.len() > 0 && facts.shown is Some,
                NativeKey::StdCoreToString => args.len() > 0 && facts.shown is Some,
                NativeKey::StdCoreDbg => args.len() > 0,
                NativeKey::StdCoreClock => true,
                NativeKey::StdCoreListNew => true,
                _ => args.len() > 0 && (whole(args[0]) is Some || args[0] is F32
                    || args[0] is F64),
            },
        },
{
    if args.len() > 0 && list_fields(args) is Some && backing(list_fields(args)->0, heap) is Some {
        let fields = list_fields(args)->0;
        let p = |f: (Seq<char>, ValueV)| f.0 == "inner"@;
        lemma_first_where(fields, p);
        let f = choose|f: (Seq<char>, ValueV)| p(f) && #[trigger] fields.contains(f) && inner_of(
            fields,
        ) == Some(f.1);
        let k = choose|k: int| 0 <= k < fields.len() && fields[k] == f;
        assert(fields[k].0 == "inner"@);
        assert(is_list(args[0], heap));
    }
}

/// Whether a value is a list whose array the heap has.
pub open spec fn is_list(v: ValueV, heap: HeapV) -> bool {
    v matches ValueV::Struct { name, fields } && name == "List"@ && exists|k: int|
        0 <= k < fields.len() && (#[trigger] fields[k]).0 == "inner"@ && (
        fields[k].1 matches ValueV::Array(i) && i < heap.arrays.len())
}

} // verus!
