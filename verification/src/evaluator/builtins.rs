//! The functions that the evaluator provides itself.
//!
//! What only the host can do or tell stands in [`HostFacts`]: how a value is shown, what time it
//! is, and what a number is as a float. What a function has the host do is its [`Effect`].
use vstd::prelude::*;
use crate::ast::IntKind;
use crate::error::{MetelError, MetelErrorV, RuntimeErrorCode};
use crate::native_keys::NativeKey;
use crate::registry::{first_where, lemma_first_where, lemma_first_where_skip};
use crate::span::{Span, SpanV};
use crate::text::{decimal, decimal_text, joined, joined3, same_text};
use super::value::{copy_values, named_values_view, value_view, values_view, Builtin};
use super::value::{Heap, HeapV, Value, ValueV};

verus! {

/// What the host knows of the first argument of a call, and of the world.
#[derive(Debug)]
pub struct HostFacts {
    /// How the argument is shown, where it can be.
    pub shown: Option<String>,
    /// How the argument is shown to someone who debugs the program.
    pub debugged: String,
    /// Milliseconds since the epoch.
    pub clock: i64,
    /// The argument without its fraction, where it is a float.
    pub truncated: i128,
    /// The bits of the argument as a float of either width, where it is a number.
    pub as_f32: u32,
    pub as_f64: u64,
}

/// [`HostFacts`] as a mathematical object.
pub ghost struct HostFactsV {
    pub shown: Option<Seq<char>>,
    pub debugged: Seq<char>,
    pub clock: i64,
    pub truncated: i128,
    pub as_f32: u32,
    pub as_f64: u64,
}

impl View for HostFacts {
    type V = HostFactsV;

    open spec fn view(&self) -> HostFactsV {
        HostFactsV {
            shown: match self.shown {
                Some(s) => Some(s@),
                None => None,
            },
            debugged: self.debugged@,
            clock: self.clock,
            truncated: self.truncated,
            as_f32: self.as_f32,
            as_f64: self.as_f64,
        }
    }
}

/// What a function has the host do.
#[derive(Debug)]
pub enum Effect {
    Nothing,
    /// Write to the standard output.
    Print(String),
    /// Write a line to the standard output.
    PrintLine(String),
    /// Write a line to the standard error stream.
    Debug(String),
}

/// An [`Effect`] as a mathematical object.
pub ghost enum EffectV {
    Nothing,
    Print(Seq<char>),
    PrintLine(Seq<char>),
    Debug(Seq<char>),
}

impl View for Effect {
    type V = EffectV;

    open spec fn view(&self) -> EffectV {
        match *self {
            Effect::Nothing => EffectV::Nothing,
            Effect::Print(s) => EffectV::Print(s@),
            Effect::PrintLine(s) => EffectV::PrintLine(s@),
            Effect::Debug(s) => EffectV::Debug(s@),
        }
    }
}

/// What a function returns, what it has the host do, and what it leaves in the heap.
pub ghost struct Reply {
    pub out: Result<(ValueV, EffectV), MetelErrorV>,
    pub heap: HeapV,
}

/// A plain result.
pub open spec fn plain(v: ValueV, heap: HeapV) -> Reply {
    Reply { out: Ok((v, EffectV::Nothing)), heap }
}

/// A call that breaks a promise of the type checker.
pub open spec fn misuse(message: Seq<char>, heap: HeapV) -> Reply {
    Reply { out: Err(MetelErrorV::Internal { message }), heap }
}

/// A failure of the program.
pub open spec fn stop(code: RuntimeErrorCode, message: Seq<char>, span: SpanV, heap: HeapV) -> Reply {
    Reply { out: Err(MetelErrorV::Panic { code, message, span }), heap }
}

/// The value of a number as an integer, or `None` for what is no number.
pub open spec fn integer_of(v: ValueV, facts: HostFactsV) -> Option<i128> {
    match v {
        ValueV::I8(n) => Some(n as i128),
        ValueV::I16(n) => Some(n as i128),
        ValueV::I32(n) => Some(n as i128),
        ValueV::I64(n) => Some(n as i128),
        ValueV::U8(n) => Some(n as i128),
        ValueV::U16(n) => Some(n as i128),
        ValueV::U32(n) => Some(n as i128),
        ValueV::U64(n) => Some(n as i128),
        ValueV::F32(_) => Some(facts.truncated),
        ValueV::F64(_) => Some(facts.truncated),
        _ => None,
    }
}

/// An integer of a width; the bits that do not fit are dropped.
pub open spec fn narrowed(kind: IntKind, n: i128) -> ValueV {
    match kind {
        IntKind::I8 => ValueV::I8(n as i8),
        IntKind::I16 => ValueV::I16(n as i16),
        IntKind::I32 => ValueV::I32(n as i32),
        IntKind::I64 => ValueV::I64(n as i64),
        IntKind::U8 => ValueV::U8(n as u8),
        IntKind::U16 => ValueV::U16(n as u16),
        IntKind::U32 => ValueV::U32(n as u32),
        IntKind::U64 => ValueV::U64(n as u64),
    }
}

/// The name of an integer type.
pub open spec fn int_name(kind: IntKind) -> Seq<char> {
    match kind {
        IntKind::I8 => "i8"@,
        IntKind::I16 => "i16"@,
        IntKind::I32 => "i32"@,
        IntKind::I64 => "i64"@,
        IntKind::U8 => "u8"@,
        IntKind::U16 => "u16"@,
        IntKind::U32 => "u32"@,
        IntKind::U64 => "u64"@,
    }
}

/// Whether a number is that of a character.
pub open spec fn is_scalar(n: u32) -> bool {
    n < 0xD800 || 0xE000 <= n <= 0x10FFFF
}

/// `print` and `println`.
pub open spec fn printed(name: Seq<char>, line: bool, args: Seq<ValueV>, heap: HeapV, facts: HostFactsV, span: SpanV) -> Reply {
    if args.len() == 0 {
        misuse(name + ": expected one argument"@, heap)
    } else {
        match facts.shown {
            None => stop(
                RuntimeErrorCode::R0009,
                name + ": value does not implement Display"@,
                span,
                heap,
            ),
            Some(s) => Reply {
                out: Ok(
                    (
                        ValueV::Unit,
                        if line {
                            EffectV::PrintLine(s)
                        } else {
                            EffectV::Print(s)
                        },
                    ),
                ),
                heap,
            },
        }
    }
}

/// A conversion to an integer.
pub open spec fn int_from(kind: IntKind, args: Seq<ValueV>, heap: HeapV, facts: HostFactsV) -> Reply {
    let n = if args.len() == 0 {
        None
    } else {
        integer_of(args[0], facts)
    };
    match n {
        Some(n) => plain(narrowed(kind, n), heap),
        None => misuse(int_name(kind) + "::from: expected a numeric argument"@, heap),
    }
}

/// A conversion to `u32`, which a character has too.
pub open spec fn u32_from(args: Seq<ValueV>, heap: HeapV, facts: HostFactsV) -> Reply {
    if args.len() == 0 {
        misuse("u32::from: expected an argument"@, heap)
    } else {
        match args[0] {
            ValueV::Char(c) => plain(ValueV::U32(c as u32), heap),
            v => match integer_of(v, facts) {
                Some(n) => plain(narrowed(IntKind::U32, n), heap),
                None => misuse("u32::from: expected a numeric or Char argument"@, heap),
            },
        }
    }
}

/// A conversion to a float, which the host makes.
pub open spec fn float_from(wide: bool, args: Seq<ValueV>, heap: HeapV, facts: HostFactsV) -> Reply {
    if args.len() > 0 && integer_of(args[0], facts) is Some {
        plain(
            if wide {
                ValueV::F64(facts.as_f64)
            } else {
                ValueV::F32(facts.as_f32)
            },
            heap,
        )
    } else if wide {
        misuse("f64::from: expected a numeric argument"@, heap)
    } else {
        misuse("f32::from: expected a numeric argument"@, heap)
    }
}

/// The backing array of a list.
pub open spec fn inner_of(fields: Seq<(Seq<char>, ValueV)>) -> Option<ValueV> {
    match first_where(fields, |f: (Seq<char>, ValueV)| f.0 == "inner"@) {
        Some(f) => Some(f.1),
        None => None,
    }
}

/// A list: its backing array is its field `inner`.
pub open spec fn list_value(i: usize) -> ValueV {
    ValueV::Struct { name: "List"@, fields: seq![("inner"@, ValueV::Array(i))] }
}

/// `Some` with a value, or `None`, as the language has them.
pub open spec fn perhaps(v: Option<ValueV>) -> ValueV {
    match v {
        Some(v) => ValueV::Enum {
            name: "Perhaps"@,
            variant: "Some"@,
            fields: seq![("value"@, v)],
        },
        None => ValueV::Enum { name: "Perhaps"@, variant: "None"@, fields: Seq::empty() },
    }
}

/// The fields of the first argument, if it is a list.
pub open spec fn list_fields(args: Seq<ValueV>) -> Option<Seq<(Seq<char>, ValueV)>> {
    if args.len() == 0 {
        None
    } else {
        match args[0] {
            ValueV::Struct { name, fields } => if name == "List"@ {
                Some(fields)
            } else {
                None
            },
            _ => None,
        }
    }
}

/// The place of the backing array of a list.
pub open spec fn backing(fields: Seq<(Seq<char>, ValueV)>, heap: HeapV) -> Option<usize> {
    match inner_of(fields) {
        Some(ValueV::Array(i)) => if i < heap.arrays.len() {
            Some(i)
        } else {
            None
        },
        _ => None,
    }
}

/// The heap with the contents of an array replaced.
pub open spec fn with_array(heap: HeapV, i: usize, s: Seq<ValueV>) -> HeapV {
    HeapV { arrays: heap.arrays.update(i as int, s), ..heap }
}

/// A new list with these elements.
pub open spec fn new_list(s: Seq<ValueV>, heap: HeapV) -> Reply {
    plain(
        list_value(heap.arrays.len() as usize),
        HeapV { arrays: heap.arrays.push(s), ..heap },
    )
}

/// `List::from`: a list with a copy of the elements.
pub open spec fn list_from(args: Seq<ValueV>, heap: HeapV) -> Reply {
    let failed = misuse("List::from: expected array argument"@, heap);
    if args.len() == 0 {
        failed
    } else {
        match args[0] {
            ValueV::Array(i) => if i < heap.arrays.len() {
                new_list(heap.arrays[i as int], heap)
            } else {
                failed
            },
            _ => failed,
        }
    }
}

/// `List::push`.
pub open spec fn list_push(args: Seq<ValueV>, heap: HeapV) -> Reply {
    match list_fields(args) {
        Some(fields) => if args.len() < 2 {
            misuse("List::push: expected (List, T)"@, heap)
        } else {
            match backing(fields, heap) {
                Some(i) => plain(
                    ValueV::Unit,
                    with_array(heap, i, heap.arrays[i as int].push(args[1])),
                ),
                None => misuse("List::push: missing inner field"@, heap),
            }
        },
        None => misuse("List::push: expected (List, T)"@, heap),
    }
}

/// `List::pop`.
pub open spec fn list_pop(args: Seq<ValueV>, heap: HeapV, span: SpanV) -> Reply {
    match list_fields(args) {
        Some(fields) => match backing(fields, heap) {
            Some(i) => {
                let s = heap.arrays[i as int];
                if s.len() == 0 {
                    plain(perhaps(None), heap)
                } else {
                    plain(perhaps(Some(s.last())), with_array(heap, i, s.drop_last()))
                }
            },
            None => misuse("List::pop: missing inner field"@, heap),
        },
        None => stop(RuntimeErrorCode::R0009, "List::pop: expected List"@, span, heap),
    }
}

/// `List::len`.
pub open spec fn list_len(args: Seq<ValueV>, heap: HeapV) -> Reply {
    match list_fields(args) {
        Some(fields) => match backing(fields, heap) {
            Some(i) => plain(ValueV::I64(heap.arrays[i as int].len() as i64), heap),
            None => misuse("List::len: missing inner field"@, heap),
        },
        None => misuse("List::len: expected List"@, heap),
    }
}

/// `List::get`: `None` for a position that the list does not have.
pub open spec fn list_get(args: Seq<ValueV>, heap: HeapV) -> Reply {
    let failed = misuse("List::get: expected (List, i64)"@, heap);
    match list_fields(args) {
        Some(fields) => if args.len() < 2 {
            failed
        } else {
            match args[1] {
                ValueV::I64(k) => match backing(fields, heap) {
                    Some(i) => {
                        let s = heap.arrays[i as int];
                        if 0 <= k < s.len() {
                            plain(perhaps(Some(s[k as int])), heap)
                        } else {
                            plain(perhaps(None), heap)
                        }
                    },
                    None => misuse("List::get: missing inner field"@, heap),
                },
                _ => failed,
            }
        },
        None => failed,
    }
}

/// `List::as_slice`: the backing array itself, which stays shared.
pub open spec fn list_as_slice(args: Seq<ValueV>, heap: HeapV) -> Reply {
    match list_fields(args) {
        Some(fields) => match inner_of(fields) {
            Some(v) => plain(v, heap),
            None => misuse("List::as_slice: missing inner field"@, heap),
        },
        None => misuse("List::as_slice: expected List"@, heap),
    }
}

/// `assert`.
pub open spec fn asserted(args: Seq<ValueV>, heap: HeapV, span: SpanV) -> Reply {
    let failed = misuse("assert: expected boolean argument"@, heap);
    if args.len() == 0 {
        failed
    } else {
        match args[0] {
            ValueV::Boolean(b) => if b {
                plain(ValueV::Unit, heap)
            } else {
                stop(RuntimeErrorCode::R0013, "assertion failed"@, span, heap)
            },
            _ => failed,
        }
    }
}

/// `assert_msg`: a message that is no string is not shown.
pub open spec fn asserted_with(args: Seq<ValueV>, heap: HeapV, span: SpanV) -> Reply {
    let failed = misuse("assert_msg: expected (boolean, String) arguments"@, heap);
    if args.len() == 0 {
        failed
    } else {
        match args[0] {
            ValueV::Boolean(b) => if b {
                plain(ValueV::Unit, heap)
            } else {
                stop(
                    RuntimeErrorCode::R0013,
                    if args.len() > 1 {
                        match args[1] {
                            ValueV::Str(message) => message,
                            _ => "assertion failed"@,
                        }
                    } else {
                        "assertion failed"@
                    },
                    span,
                    heap,
                )
            },
            _ => failed,
        }
    }
}

/// The length of a string in characters.
pub open spec fn text_len(label: Seq<char>, args: Seq<ValueV>, heap: HeapV) -> Reply {
    if args.len() == 0 {
        misuse(label, heap)
    } else {
        match args[0] {
            ValueV::Str(s) => plain(ValueV::I64(s.len() as i64), heap),
            _ => misuse(label, heap),
        }
    }
}

/// The length of an array.
pub open spec fn array_len(args: Seq<ValueV>, heap: HeapV) -> Reply {
    let failed = misuse("Array::len: expected array"@, heap);
    if args.len() == 0 {
        failed
    } else {
        match args[0] {
            ValueV::Array(i) => if i < heap.arrays.len() {
                plain(ValueV::I64(heap.arrays[i as int].len() as i64), heap)
            } else {
                failed
            },
            _ => failed,
        }
    }
}

/// Two strings, one after the other.
pub open spec fn concatenated(args: Seq<ValueV>, heap: HeapV) -> Reply {
    let failed = misuse("string_concat: expected two String arguments"@, heap);
    if args.len() < 2 {
        failed
    } else {
        match (args[0], args[1]) {
            (ValueV::Str(a), ValueV::Str(b)) => plain(ValueV::Str(a + b), heap),
            _ => failed,
        }
    }
}

/// `Display::to_string`.
pub open spec fn shown_text(args: Seq<ValueV>, heap: HeapV, facts: HostFactsV, span: SpanV) -> Reply {
    if args.len() == 0 {
        misuse("to_string: expected a receiver"@, heap)
    } else {
        match facts.shown {
            Some(s) => plain(ValueV::Str(s), heap),
            None => stop(
                RuntimeErrorCode::R0009,
                "to_string: value does not implement Display"@,
                span,
                heap,
            ),
        }
    }
}

/// `dbg`: the argument itself.
pub open spec fn debugged(args: Seq<ValueV>, heap: HeapV, facts: HostFactsV) -> Reply {
    if args.len() == 0 {
        misuse("dbg: expected one argument"@, heap)
    } else {
        Reply {
            out: Ok((args[0], EffectV::Debug("[dbg] "@ + facts.debugged))),
            heap,
        }
    }
}

/// `Char::from`.
pub open spec fn char_from(args: Seq<ValueV>, heap: HeapV, span: SpanV) -> Reply {
    let failed = misuse("Char::from: expected a u32 argument"@, heap);
    if args.len() == 0 {
        failed
    } else {
        match args[0] {
            ValueV::U32(n) => if is_scalar(n) {
                plain(ValueV::Char(n as char), heap)
            } else {
                stop(
                    RuntimeErrorCode::R0009,
                    "u32 value "@ + decimal(n as nat) + " is not a valid Unicode scalar"@,
                    span,
                    heap,
                )
            },
            _ => failed,
        }
    }
}

/// What a builtin does.
pub open spec fn builtin_reply(
    b: Builtin,
    args: Seq<ValueV>,
    heap: HeapV,
    facts: HostFactsV,
    span: SpanV,
) -> Reply {
    match b {
        Builtin::StringLen => text_len("String::len: expected String"@, args, heap),
        Builtin::ArrayLen => array_len(args, heap),
        Builtin::Native(key) => match key {
            NativeKey::StdCorePrint => printed("print"@, false, args, heap, facts, span),
            NativeKey::StdCorePrintln => printed("println"@, true, args, heap, facts, span),
            NativeKey::StdCoreDbg => debugged(args, heap, facts),
            NativeKey::StdCoreAssert => asserted(args, heap, span),
            NativeKey::StdCoreAssertMsg => asserted_with(args, heap, span),
            NativeKey::StdCoreClock => plain(ValueV::I64(facts.clock), heap),
            NativeKey::StdCoreStringLen => text_len(
                "string_len: expected String argument"@,
                args,
                heap,
            ),
            NativeKey::StdCoreStringConcat => concatenated(args, heap),
            NativeKey::StdCoreToString => shown_text(args, heap, facts, span),
            NativeKey::StdCoreI8From => int_from(IntKind::I8, args, heap, facts),
            NativeKey::StdCoreI16From => int_from(IntKind::I16, args, heap, facts),
            NativeKey::StdCoreI32From => int_from(IntKind::I32, args, heap, facts),
            NativeKey::StdCoreI64From => int_from(IntKind::I64, args, heap, facts),
            NativeKey::StdCoreU8From => int_from(IntKind::U8, args, heap, facts),
            NativeKey::StdCoreU16From => int_from(IntKind::U16, args, heap, facts),
            NativeKey::StdCoreU32From => u32_from(args, heap, facts),
            NativeKey::StdCoreU64From => int_from(IntKind::U64, args, heap, facts),
            NativeKey::StdCoreF32From => float_from(false, args, heap, facts),
            NativeKey::StdCoreF64From => float_from(true, args, heap, facts),
            NativeKey::StdCoreCharFrom => char_from(args, heap, span),
            NativeKey::StdCoreListNew => new_list(Seq::empty(), heap),
            NativeKey::StdCoreListFrom => list_from(args, heap),
            NativeKey::StdCoreListPush => list_push(args, heap),
            NativeKey::StdCoreListPop => list_pop(args, heap, span),
            NativeKey::StdCoreListLen => list_len(args, heap),
            NativeKey::StdCoreListGet => list_get(args, heap),
            NativeKey::StdCoreListAsSlice => list_as_slice(args, heap),
        },
    }
}

/// A reply as a mathematical object.
pub open spec fn reply_view(r: Result<(Value, Effect), MetelError>) -> Result<
    (ValueV, EffectV),
    MetelErrorV,
> {
    match r {
        Ok((v, e)) => Ok((v@, e@)),
        Err(e) => Err(e@),
    }
}

/// The character of a number, by `char::from_u32`: there is one for every number up to the
/// largest code point that is no surrogate.
#[verifier::external_body]
fn scalar(n: u32) -> (r: Option<char>)
    ensures
        match r {
            Some(c) => is_scalar(n) && c == n as char,
            None => !is_scalar(n),
        },
{
    char::from_u32(n)
}

fn as_integer(v: &Value, facts: &HostFacts) -> (r: Option<i128>)
    ensures
        r == integer_of(v@, facts@),
{
    match v {
        Value::I8(n) => Some(*n as i128),
        Value::I16(n) => Some(*n as i128),
        Value::I32(n) => Some(*n as i128),
        Value::I64(n) => Some(*n as i128),
        Value::U8(n) => Some(*n as i128),
        Value::U16(n) => Some(*n as i128),
        Value::U32(n) => Some(*n as i128),
        Value::U64(n) => Some(*n as i128),
        Value::F32(_) => Some(facts.truncated),
        Value::F64(_) => Some(facts.truncated),
        _ => None,
    }
}

fn narrow(kind: IntKind, n: i128) -> (r: Value)
    ensures
        r@ == narrowed(kind, n),
{
    match kind {
        IntKind::I8 => Value::I8(#[verifier::truncate] (n as i8)),
        IntKind::I16 => Value::I16(#[verifier::truncate] (n as i16)),
        IntKind::I32 => Value::I32(#[verifier::truncate] (n as i32)),
        IntKind::I64 => Value::I64(#[verifier::truncate] (n as i64)),
        IntKind::U8 => Value::U8(#[verifier::truncate] (n as u8)),
        IntKind::U16 => Value::U16(#[verifier::truncate] (n as u16)),
        IntKind::U32 => Value::U32(#[verifier::truncate] (n as u32)),
        IntKind::U64 => Value::U64(#[verifier::truncate] (n as u64)),
    }
}

fn name_of_int(kind: IntKind) -> (r: &'static str)
    ensures
        r@ == int_name(kind),
{
    match kind {
        IntKind::I8 => "i8",
        IntKind::I16 => "i16",
        IntKind::I32 => "i32",
        IntKind::I64 => "i64",
        IntKind::U8 => "u8",
        IntKind::U16 => "u16",
        IntKind::U32 => "u32",
        IntKind::U64 => "u64",
    }
}

fn internal(message: &str) -> (r: Result<(Value, Effect), MetelError>)
    ensures
        reply_view(r) == Err::<(ValueV, EffectV), MetelErrorV>(
            MetelErrorV::Internal { message: message@ },
        ),
{
    Err(MetelError::internal(message.to_owned()))
}

fn failure(code: RuntimeErrorCode, message: String, span: &Span) -> (r: Result<
    (Value, Effect),
    MetelError,
>)
    ensures
        reply_view(r) == Err::<(ValueV, EffectV), MetelErrorV>(
            MetelErrorV::Panic { code, message: message@, span: span@ },
        ),
{
    Err(MetelError::panic(code, message, span))
}

fn value(v: Value) -> (r: Result<(Value, Effect), MetelError>)
    ensures
        reply_view(r) == Ok::<(ValueV, EffectV), MetelErrorV>((v@, EffectV::Nothing)),
{
    Ok((v, Effect::Nothing))
}

fn native_print(name: &str, line: bool, args: &Vec<Value>, facts: &HostFacts, span: &Span) -> (r:
    Result<(Value, Effect), MetelError>)
    ensures
        forall|heap: HeapV|
            #![trigger printed(name@, line, values_view(args@), heap, facts@, span@)]
            printed(name@, line, values_view(args@), heap, facts@, span@) == (Reply {
                out: reply_view(r),
                heap,
            }),
{
    assert(values_view(args@).len() == args@.len());
    if args.len() == 0 {
        return internal(joined(name, ": expected one argument").as_str());
    }
    match &facts.shown {
        None => failure(
            RuntimeErrorCode::R0009,
            joined(name, ": value does not implement Display"),
            span,
        ),
        Some(s) => {
            if line {
                Ok((Value::Unit, Effect::PrintLine(s.clone())))
            } else {
                Ok((Value::Unit, Effect::Print(s.clone())))
            }
        },
    }
}

fn native_int_from(kind: IntKind, args: &Vec<Value>, facts: &HostFacts) -> (r: Result<
    (Value, Effect),
    MetelError,
>)
    ensures
        forall|heap: HeapV|
            #![trigger int_from(kind, values_view(args@), heap, facts@)]
            int_from(kind, values_view(args@), heap, facts@) == (Reply {
                out: reply_view(r),
                heap,
            }),
{
    assert(values_view(args@).len() == args@.len());
    if args.len() > 0 {
        assert(values_view(args@)[0] == value_view(args@[0]));
        if let Some(n) = as_integer(&args[0], facts) {
            return value(narrow(kind, n));
        }
    }
    internal(joined(name_of_int(kind), "::from: expected a numeric argument").as_str())
}

fn native_u32_from(args: &Vec<Value>, facts: &HostFacts) -> (r: Result<(Value, Effect), MetelError>)
    ensures
        forall|heap: HeapV|
            #![trigger u32_from(values_view(args@), heap, facts@)]
            u32_from(values_view(args@), heap, facts@) == (Reply { out: reply_view(r), heap }),
{
    assert(values_view(args@).len() == args@.len());
    if args.len() == 0 {
        return internal("u32::from: expected an argument");
    }
    assert(values_view(args@)[0] == value_view(args@[0]));
    if let Value::Char(c) = &args[0] {
        return value(Value::U32(*c as u32));
    }
    match as_integer(&args[0], facts) {
        Some(n) => value(narrow(IntKind::U32, n)),
        None => internal("u32::from: expected a numeric or Char argument"),
    }
}

fn native_float_from(wide: bool, args: &Vec<Value>, facts: &HostFacts) -> (r: Result<
    (Value, Effect),
    MetelError,
>)
    ensures
        forall|heap: HeapV|
            #![trigger float_from(wide, values_view(args@), heap, facts@)]
            float_from(wide, values_view(args@), heap, facts@) == (Reply {
                out: reply_view(r),
                heap,
            }),
{
    assert(values_view(args@).len() == args@.len());
    if args.len() > 0 {
        assert(values_view(args@)[0] == value_view(args@[0]));
        if as_integer(&args[0], facts).is_some() {
            return value(
                if wide {
                    Value::F64(facts.as_f64)
                } else {
                    Value::F32(facts.as_f32)
                },
            );
        }
    }
    if wide {
        internal("f64::from: expected a numeric argument")
    } else {
        internal("f32::from: expected a numeric argument")
    }
}

fn native_char_from(args: &Vec<Value>, span: &Span) -> (r: Result<(Value, Effect), MetelError>)
    ensures
        forall|heap: HeapV|
            #![trigger char_from(values_view(args@), heap, span@)]
            char_from(values_view(args@), heap, span@) == (Reply { out: reply_view(r), heap }),
{
    assert(values_view(args@).len() == args@.len());
    if args.len() == 0 {
        return internal("Char::from: expected a u32 argument");
    }
    assert(values_view(args@)[0] == value_view(args@[0]));
    match &args[0] {
        Value::U32(n) => match scalar(*n) {
            Some(c) => value(Value::Char(c)),
            None => failure(
                RuntimeErrorCode::R0009,
                joined3(
                    "u32 value ",
                    decimal_text(*n as u64).as_str(),
                    " is not a valid Unicode scalar",
                ),
                span,
            ),
        },
        _ => internal("Char::from: expected a u32 argument"),
    }
}

fn native_assert(args: &Vec<Value>, span: &Span) -> (r: Result<(Value, Effect), MetelError>)
    ensures
        forall|heap: HeapV|
            #![trigger asserted(values_view(args@), heap, span@)]
            asserted(values_view(args@), heap, span@) == (Reply { out: reply_view(r), heap }),
{
    assert(values_view(args@).len() == args@.len());
    if args.len() == 0 {
        return internal("assert: expected boolean argument");
    }
    assert(values_view(args@)[0] == value_view(args@[0]));
    match &args[0] {
        Value::Boolean(b) => {
            if *b {
                value(Value::Unit)
            } else {
                failure(RuntimeErrorCode::R0013, "assertion failed".to_owned(), span)
            }
        },
        _ => internal("assert: expected boolean argument"),
    }
}

fn native_assert_msg(args: &Vec<Value>, span: &Span) -> (r: Result<(Value, Effect), MetelError>)
    ensures
        forall|heap: HeapV|
            #![trigger asserted_with(values_view(args@), heap, span@)]
            asserted_with(values_view(args@), heap, span@) == (Reply { out: reply_view(r), heap }),
{
    assert(values_view(args@).len() == args@.len());
    if args.len() == 0 {
        return internal("assert_msg: expected (boolean, String) arguments");
    }
    assert(values_view(args@)[0] == value_view(args@[0]));
    match &args[0] {
        Value::Boolean(b) => {
            if *b {
                return value(Value::Unit);
            }
            if args.len() > 1 {
                assert(values_view(args@)[1] == value_view(args@[1]));
                if let Value::Str(message) = &args[1] {
                    return failure(RuntimeErrorCode::R0013, message.clone(), span);
                }
            }
            failure(RuntimeErrorCode::R0013, "assertion failed".to_owned(), span)
        },
        _ => internal("assert_msg: expected (boolean, String) arguments"),
    }
}

fn native_string_len(label: &str, args: &Vec<Value>) -> (r: Result<(Value, Effect), MetelError>)
    ensures
        forall|heap: HeapV|
            #![trigger text_len(label@, values_view(args@), heap)]
            text_len(label@, values_view(args@), heap) == (Reply { out: reply_view(r), heap }),
{
    assert(values_view(args@).len() == args@.len());
    if args.len() == 0 {
        return internal(label);
    }
    assert(values_view(args@)[0] == value_view(args@[0]));
    match &args[0] {
        Value::Str(s) => {
            let n: usize = s.as_str().unicode_len();
            value(Value::I64(#[verifier::truncate] (n as i64)))
        },
        _ => internal(label),
    }
}

fn native_string_concat(args: &Vec<Value>) -> (r: Result<(Value, Effect), MetelError>)
    ensures
        forall|heap: HeapV|
            #![trigger concatenated(values_view(args@), heap)]
            concatenated(values_view(args@), heap) == (Reply { out: reply_view(r), heap }),
{
    assert(values_view(args@).len() == args@.len());
    if args.len() < 2 {
        return internal("string_concat: expected two String arguments");
    }
    assert(values_view(args@)[0] == value_view(args@[0]));
    assert(values_view(args@)[1] == value_view(args@[1]));
    match (&args[0], &args[1]) {
        (Value::Str(a), Value::Str(b)) => value(Value::Str(joined(a.as_str(), b.as_str()))),
        _ => internal("string_concat: expected two String arguments"),
    }
}

fn native_to_string(args: &Vec<Value>, facts: &HostFacts, span: &Span) -> (r: Result<
    (Value, Effect),
    MetelError,
>)
    ensures
        forall|heap: HeapV|
            #![trigger shown_text(values_view(args@), heap, facts@, span@)]
            shown_text(values_view(args@), heap, facts@, span@) == (Reply {
                out: reply_view(r),
                heap,
            }),
{
    assert(values_view(args@).len() == args@.len());
    if args.len() == 0 {
        return internal("to_string: expected a receiver");
    }
    match &facts.shown {
        Some(s) => value(Value::Str(s.clone())),
        None => failure(
            RuntimeErrorCode::R0009,
            "to_string: value does not implement Display".to_owned(),
            span,
        ),
    }
}

fn native_dbg(args: &Vec<Value>, facts: &HostFacts) -> (r: Result<(Value, Effect), MetelError>)
    ensures
        forall|heap: HeapV|
            #![trigger debugged(values_view(args@), heap, facts@)]
            debugged(values_view(args@), heap, facts@) == (Reply { out: reply_view(r), heap }),
{
    assert(values_view(args@).len() == args@.len());
    if args.len() == 0 {
        return internal("dbg: expected one argument");
    }
    assert(values_view(args@)[0] == value_view(args@[0]));
    Ok((args[0].copy(), Effect::Debug(joined("[dbg] ", facts.debugged.as_str()))))
}

fn fields_of_list(args: &Vec<Value>) -> (r: Option<&Vec<(String, Value)>>)
    ensures
        match r {
            Some(f) => list_fields(values_view(args@)) == Some(named_values_view(f@)),
            None => list_fields(values_view(args@)) is None,
        },
{
    assert(values_view(args@).len() == args@.len());
    if args.len() == 0 {
        return None;
    }
    assert(values_view(args@)[0] == value_view(args@[0]));
    match &args[0] {
        Value::Struct { name, fields } => {
            if same_text(name.as_str(), "List") {
                Some(fields)
            } else {
                None
            }
        },
        _ => None,
    }
}

fn find_inner(fields: &Vec<(String, Value)>) -> (r: Option<&Value>)
    ensures
        match r {
            Some(v) => inner_of(named_values_view(fields@)) == Some(v@),
            None => inner_of(named_values_view(fields@)) is None,
        },
{
    let ghost views = named_values_view(fields@);
    let ghost p = |f: (Seq<char>, ValueV)| f.0 == "inner"@;
    assert(views.len() == fields@.len());
    assert(views.skip(0) =~= views);
    let mut i: usize = 0;
    while i < fields.len()
        invariant
            i <= fields@.len(),
            views == named_values_view(fields@),
            views.len() == fields@.len(),
            p == (|f: (Seq<char>, ValueV)| f.0 == "inner"@),
            first_where(views, p) == first_where(views.skip(i as int), p),
        decreases fields@.len() - i,
    {
        proof {
            lemma_first_where_skip(views, p, i as int);
            assert(views[i as int] == (fields@[i as int].0@, value_view(fields@[i as int].1)));
        }
        if same_text(fields[i].0.as_str(), "inner") {
            return Some(&fields[i].1);
        }
        i += 1;
    }
    None
}

fn find_backing(fields: &Vec<(String, Value)>, heap: &Heap) -> (r: Option<usize>)
    ensures
        r == backing(named_values_view(fields@), heap@),
        r matches Some(i) ==> i < heap.arrays@.len(),
{
    assert(heap@.arrays.len() == heap.arrays@.len());
    match find_inner(fields) {
        Some(Value::Array(i)) => {
            if *i < heap.arrays.len() {
                Some(*i)
            } else {
                None
            }
        },
        _ => None,
    }
}

fn some_value(v: Value) -> (r: Value)
    ensures
        r@ == perhaps(Some(v@)),
{
    let ghost vv = v@;
    let mut fields: Vec<(String, Value)> = Vec::new();
    fields.push(("value".to_owned(), v));
    assert(named_values_view(fields@) =~= seq![("value"@, vv)]);
    Value::Enum { name: "Perhaps".to_owned(), variant: "Some".to_owned(), fields }
}

fn no_value() -> (r: Value)
    ensures
        r@ == perhaps(None),
{
    let fields: Vec<(String, Value)> = Vec::new();
    assert(named_values_view(fields@) =~= Seq::<(Seq<char>, ValueV)>::empty());
    Value::Enum { name: "Perhaps".to_owned(), variant: "None".to_owned(), fields }
}

fn make_list(items: Vec<Value>, heap: &mut Heap) -> (r: Result<(Value, Effect), MetelError>)
    ensures
        new_list(values_view(items@), old(heap)@) == (Reply {
            out: reply_view(r),
            heap: final(heap)@,
        }),
{
    let ghost before = heap@;
    let ghost s = values_view(items@);
    assert(before.arrays.len() == heap.arrays@.len());
    let i: usize = heap.arrays.len();
    heap.arrays.push(items);
    assert(heap@.arrays =~= before.arrays.push(s));
    let mut fields: Vec<(String, Value)> = Vec::new();
    let array: Value = Value::Array(i);
    assert(array@ == ValueV::Array(i));
    fields.push(("inner".to_owned(), array));
    assert(named_values_view(fields@) =~= seq![("inner"@, ValueV::Array(i))]);
    value(Value::Struct { name: "List".to_owned(), fields })
}

fn native_list_from(args: &Vec<Value>, heap: &mut Heap) -> (r: Result<(Value, Effect), MetelError>)
    ensures
        list_from(values_view(args@), old(heap)@) == (Reply {
            out: reply_view(r),
            heap: final(heap)@,
        }),
{
    assert(values_view(args@).len() == args@.len());
    assert(heap@.arrays.len() == heap.arrays@.len());
    if args.len() > 0 {
        assert(values_view(args@)[0] == value_view(args@[0]));
        if let Value::Array(i) = &args[0] {
            if *i < heap.arrays.len() {
                assert(heap@.arrays[*i as int] == values_view(heap.arrays@[*i as int]@));
                let items: Vec<Value> = copy_values(&heap.arrays[*i]);
                return make_list(items, heap);
            }
        }
    }
    internal("List::from: expected array argument")
}

fn native_list_push(args: &Vec<Value>, heap: &mut Heap) -> (r: Result<(Value, Effect), MetelError>)
    ensures
        list_push(values_view(args@), old(heap)@) == (Reply {
            out: reply_view(r),
            heap: final(heap)@,
        }),
{
    assert(values_view(args@).len() == args@.len());
    let fields: &Vec<(String, Value)> = match fields_of_list(args) {
        Some(fields) => fields,
        None => {
            return internal("List::push: expected (List, T)");
        },
    };
    if args.len() < 2 {
        return internal("List::push: expected (List, T)");
    }
    match find_backing(fields, heap) {
        Some(i) => {
            let ghost before = heap@;
            let v: Value = args[1].copy();
            let ghost vv = v@;
            assert(values_view(args@)[1] == value_view(args@[1]));
            let ghost items = heap.arrays@[i as int]@;
            assert(before.arrays[i as int] == values_view(items));
            heap.arrays[i].push(v);
            assert(values_view(heap.arrays@[i as int]@) =~= values_view(items).push(vv));
            assert(heap@.arrays =~= before.arrays.update(
                i as int,
                before.arrays[i as int].push(vv),
            ));
            value(Value::Unit)
        },
        None => internal("List::push: missing inner field"),
    }
}

fn native_list_pop(args: &Vec<Value>, heap: &mut Heap, span: &Span) -> (r: Result<
    (Value, Effect),
    MetelError,
>)
    ensures
        list_pop(values_view(args@), old(heap)@, span@) == (Reply {
            out: reply_view(r),
            heap: final(heap)@,
        }),
{
    let fields: &Vec<(String, Value)> = match fields_of_list(args) {
        Some(fields) => fields,
        None => {
            return failure(
                RuntimeErrorCode::R0009,
                "List::pop: expected List".to_owned(),
                span,
            );
        },
    };
    match find_backing(fields, heap) {
        Some(i) => {
            let ghost before = heap@;
            let ghost items = heap.arrays@[i as int]@;
            let ghost s = before.arrays[i as int];
            assert(s == values_view(items));
            assert(s.len() == items.len());
            match heap.arrays[i].pop() {
                Some(v) => {
                    assert(s.last() == value_view(items.last()));
                    assert(values_view(heap.arrays@[i as int]@) =~= s.drop_last());
                    assert(heap@.arrays =~= before.arrays.update(i as int, s.drop_last()));
                    value(some_value(v))
                },
                None => {
                    assert(heap@.arrays =~= before.arrays);
                    value(no_value())
                },
            }
        },
        None => internal("List::pop: missing inner field"),
    }
}

fn native_list_len(args: &Vec<Value>, heap: &Heap) -> (r: Result<(Value, Effect), MetelError>)
    ensures
        list_len(values_view(args@), heap@) == (Reply { out: reply_view(r), heap: heap@ }),
{
    match fields_of_list(args) {
        Some(fields) => match find_backing(fields, heap) {
            Some(i) => {
                assert(heap@.arrays[i as int] == values_view(heap.arrays@[i as int]@));
                let n: usize = heap.arrays[i].len();
                value(Value::I64(#[verifier::truncate] (n as i64)))
            },
            None => internal("List::len: missing inner field"),
        },
        None => internal("List::len: expected List"),
    }
}

fn native_list_get(args: &Vec<Value>, heap: &Heap) -> (r: Result<(Value, Effect), MetelError>)
    ensures
        list_get(values_view(args@), heap@) == (Reply { out: reply_view(r), heap: heap@ }),
{
    assert(values_view(args@).len() == args@.len());
    let fields: &Vec<(String, Value)> = match fields_of_list(args) {
        Some(fields) => fields,
        None => {
            return internal("List::get: expected (List, i64)");
        },
    };
    if args.len() < 2 {
        return internal("List::get: expected (List, i64)");
    }
    assert(values_view(args@)[1] == value_view(args@[1]));
    let k: i64 = match &args[1] {
        Value::I64(k) => *k,
        _ => {
            return internal("List::get: expected (List, i64)");
        },
    };
    match find_backing(fields, heap) {
        Some(i) => {
            let items: &Vec<Value> = &heap.arrays[i];
            let ghost s = values_view(items@);
            assert(heap@.arrays[i as int] == s);
            assert(s.len() == items@.len());
            if k >= 0 && (k as u64) < (items.len() as u64) {
                assert(s[k as int] == value_view(items@[k as int]));
                value(some_value(items[k as usize].copy()))
            } else {
                value(no_value())
            }
        },
        None => internal("List::get: missing inner field"),
    }
}

fn native_list_as_slice(args: &Vec<Value>, heap: &Heap) -> (r: Result<(Value, Effect), MetelError>)
    ensures
        list_as_slice(values_view(args@), heap@) == (Reply { out: reply_view(r), heap: heap@ }),
{
    match fields_of_list(args) {
        Some(fields) => match find_inner(fields) {
            Some(v) => value(v.copy()),
            None => internal("List::as_slice: missing inner field"),
        },
        None => internal("List::as_slice: expected List"),
    }
}

fn native_array_len(args: &Vec<Value>, heap: &Heap) -> (r: Result<(Value, Effect), MetelError>)
    ensures
        array_len(values_view(args@), heap@) == (Reply { out: reply_view(r), heap: heap@ }),
{
    assert(values_view(args@).len() == args@.len());
    assert(heap@.arrays.len() == heap.arrays@.len());
    if args.len() > 0 {
        assert(values_view(args@)[0] == value_view(args@[0]));
        if let Value::Array(i) = &args[0] {
            if *i < heap.arrays.len() {
                assert(heap@.arrays[*i as int] == values_view(heap.arrays@[*i as int]@));
                let n: usize = heap.arrays[*i].len();
                return value(Value::I64(#[verifier::truncate] (n as i64)));
            }
        }
    }
    internal("Array::len: expected array")
}

/// Call a builtin.
///
/// # Errors
/// What the program is told where it asked for the impossible, or where the type checker let
/// arguments through that the function does not take.
pub fn call_builtin(b: Builtin, args: &Vec<Value>, heap: &mut Heap, facts: &HostFacts, span: &Span) -> (r:
    Result<(Value, Effect), MetelError>)
    ensures
        builtin_reply(b, values_view(args@), old(heap)@, facts@, span@) == (Reply {
            out: reply_view(r),
            heap: final(heap)@,
        }),
{
    match b {
        Builtin::StringLen => native_string_len("String::len: expected String", args),
        Builtin::ArrayLen => native_array_len(args, heap),
        Builtin::Native(key) => match key {
            NativeKey::StdCorePrint => native_print("print", false, args, facts, span),
            NativeKey::StdCorePrintln => native_print("println", true, args, facts, span),
            NativeKey::StdCoreDbg => native_dbg(args, facts),
            NativeKey::StdCoreAssert => native_assert(args, span),
            NativeKey::StdCoreAssertMsg => native_assert_msg(args, span),
            NativeKey::StdCoreClock => value(Value::I64(facts.clock)),
            NativeKey::StdCoreStringLen => native_string_len(
                "string_len: expected String argument",
                args,
            ),
            NativeKey::StdCoreStringConcat => native_string_concat(args),
            NativeKey::StdCoreToString => native_to_string(args, facts, span),
            NativeKey::StdCoreI8From => native_int_from(IntKind::I8, args, facts),
            NativeKey::StdCoreI16From => native_int_from(IntKind::I16, args, facts),
            NativeKey::StdCoreI32From => native_int_from(IntKind::I32, args, facts),
            NativeKey::StdCoreI64From => native_int_from(IntKind::I64, args, facts),
            NativeKey::StdCoreU8From => native_int_from(IntKind::U8, args, facts),
            NativeKey::StdCoreU16From => native_int_from(IntKind::U16, args, facts),
            NativeKey::StdCoreU32From => native_u32_from(args, facts),
            NativeKey::StdCoreU64From => native_int_from(IntKind::U64, args, facts),
            NativeKey::StdCoreF32From => native_float_from(false, args, facts),
            NativeKey::StdCoreF64From => native_float_from(true, args, facts),
            NativeKey::StdCoreCharFrom => native_char_from(args, span),
            NativeKey::StdCoreListNew => {
                let items: Vec<Value> = Vec::new();
                assert(values_view(items@) =~= Seq::empty());
                make_list(items, heap)
            },
            NativeKey::StdCoreListFrom => native_list_from(args, heap),
            NativeKey::StdCoreListPush => native_list_push(args, heap),
            NativeKey::StdCoreListPop => native_list_pop(args, heap, span),
            NativeKey::StdCoreListLen => native_list_len(args, heap),
            NativeKey::StdCoreListGet => native_list_get(args, heap),
            NativeKey::StdCoreListAsSlice => native_list_as_slice(args, heap),
        },
    }
}

/// What is popped from a list is what was pushed last, and the list is as it was before.
pub proof fn law_pop_undoes_push(args: Seq<ValueV>, heap: HeapV, span: SpanV)
    requires
        list_fields(args) is Some,
        backing(list_fields(args)->0, heap) is Some,
        args.len() >= 2,
    ensures
        list_push(args, heap).out == Ok::<(ValueV, EffectV), MetelErrorV>(
            (ValueV::Unit, EffectV::Nothing),
        ),
        list_pop(args, list_push(args, heap).heap, span) == plain(perhaps(Some(args[1])), heap),
{
    let i = backing(list_fields(args)->0, heap)->0;
    let after = list_push(args, heap).heap;
    let s = heap.arrays[i as int];
    assert(s.push(args[1]).drop_last() =~= s);
    assert(after.arrays[i as int] == s.push(args[1]));
    assert(after.arrays.update(i as int, s) =~= heap.arrays);
}

/// What is pushed to a list stands behind what was there, and nothing else changes.
pub proof fn law_push_appends(args: Seq<ValueV>, heap: HeapV, k: int)
    requires
        list_fields(args) is Some,
        backing(list_fields(args)->0, heap) is Some,
        args.len() >= 2,
        0 <= k < heap.arrays.len(),
    ensures
        list_push(args, heap).heap.cells == heap.cells,
        list_push(args, heap).heap.arrays[k] == (if k == backing(list_fields(args)->0, heap)->0 {
            heap.arrays[k].push(args[1])
        } else {
            heap.arrays[k]
        }),
{
}

proof fn lemma_backing(i: usize, args: Seq<ValueV>, heap: HeapV)
    requires
        args.len() > 0,
        args[0] == list_value(i),
        i < heap.arrays.len(),
    ensures
        list_fields(args) is Some,
        backing(list_fields(args)->0, heap) == Some(i),
{
    let fields = seq![("inner"@, ValueV::Array(i))];
    let p = |f: (Seq<char>, ValueV)| f.0 == "inner"@;
    lemma_first_where(fields, p);
    assert(p(fields[0]));
    assert(list_fields(args)->0 == fields);
}

/// A list that was made from an array has as many elements as the array, and each of them at its
/// position, and none elsewhere. What is pushed to it is what is popped next, and then it is as it
/// was. From an empty list nothing is popped. None of this changes the array.
pub proof fn law_a_list_holds_what_it_is_made_of(
    a: usize,
    x: ValueV,
    k: i64,
    heap: HeapV,
    facts: HostFactsV,
    span: SpanV,
)
    requires
        a < heap.arrays.len() <= usize::MAX,
        heap.arrays[a as int].len() <= i64::MAX,
    ensures
        ({
            let reply = |key: NativeKey, args: Seq<ValueV>, h: HeapV|
                builtin_reply(Builtin::Native(key), args, h, facts, span);
            let s = heap.arrays[a as int];
            let l = list_value(heap.arrays.len() as usize);
            let made = reply(NativeKey::StdCoreListFrom, seq![ValueV::Array(a)], heap);
            let pushed = reply(NativeKey::StdCoreListPush, seq![l, x], made.heap);
            &&& made == plain(l, made.heap)
            &&& made.heap.arrays[a as int] == s
            &&& reply(NativeKey::StdCoreListLen, seq![l], made.heap) == plain(
                ValueV::I64(s.len() as i64),
                made.heap,
            )
            &&& reply(NativeKey::StdCoreListGet, seq![l, ValueV::I64(k)], made.heap) == plain(
                perhaps(
                    if 0 <= k < s.len() {
                        Some(s[k as int])
                    } else {
                        None
                    },
                ),
                made.heap,
            )
            &&& pushed == plain(ValueV::Unit, pushed.heap)
            &&& pushed.heap.arrays[a as int] == s
            &&& reply(NativeKey::StdCoreListPop, seq![l], pushed.heap) == plain(
                perhaps(Some(x)),
                made.heap,
            )
            &&& s.len() == 0 ==> reply(NativeKey::StdCoreListPop, seq![l], made.heap) == plain(
                perhaps(None),
                made.heap,
            )
        }),
{
    let i = heap.arrays.len() as usize;
    let l = list_value(i);
    let s = heap.arrays[a as int];
    let h = HeapV { arrays: heap.arrays.push(s), ..heap };
    let p = with_array(h, i, s.push(x));
    lemma_backing(i, seq![l], h);
    lemma_backing(i, seq![l, ValueV::I64(k)], h);
    lemma_backing(i, seq![l, x], h);
    lemma_backing(i, seq![l], p);
    assert(list_push(seq![l, x], h) == plain(ValueV::Unit, p));
    assert(p.arrays[i as int] == s.push(x));
    assert(s.push(x).drop_last() =~= s);
    assert(p.arrays.update(i as int, s) =~= h.arrays);
    assert(list_pop(seq![l], p, span) == plain(perhaps(Some(x)), h));
}

} // verus!
