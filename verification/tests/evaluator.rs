use metel::error::{MetelError, RuntimeErrorCode};
use metel::evaluator::builtins::{call_builtin, Effect, HostFacts};
use metel::evaluator::type_of::{refine_with_static, value_to_type};
use metel::evaluator::value::{Builtin, Heap, RuntimeCallable, Value};
use metel::infer::{InferType, TypeVar};
use metel::native_keys::NativeKey;
use metel::registry::{FieldEntry, StructInfo, TypeDefinitionRegistry};
use metel::span::Span;
use metel::types::Type;

fn span() -> Span {
    Span { start: 0, end: 0, filename: "main.mtl".to_string(), line: 1, col: 1 }
}

fn facts() -> HostFacts {
    HostFacts {
        shown: Some("shown".to_string()),
        debugged: "debugged".to_string(),
        clock: 17,
        truncated: -3,
        as_f32: 7,
        as_f64: 8,
    }
}

fn heap() -> Heap {
    Heap { arrays: vec![], cells: vec![] }
}

fn call(
    key: NativeKey,
    args: Vec<Value>,
    heap: &mut Heap,
) -> Result<(Value, Effect), MetelError> {
    call_builtin(Builtin::Native(key), &args, heap, &facts(), &span())
}

fn registry() -> TypeDefinitionRegistry {
    TypeDefinitionRegistry {
        structs: vec![StructInfo {
            name: "Box".to_string(),
            type_params: Some(vec![TypeVar(0)]),
            fields: vec![FieldEntry {
                name: "item".to_string(),
                ty: InferType::Var(TypeVar(0)),
                span: span(),
            }],
        }],
        enums: vec![],
        methods: vec![],
        array_methods: vec![],
        aspects: vec![],
        impls: vec![],
        array_aspects: vec![],
        imports: vec![],
        type_params: vec![],
        fun_params: vec![],
        method_schemes: vec![],
        array_method_schemes: vec![],
        assoc_impls: vec![],
        homes: vec![],
        decl_schemes: vec![],
    }
}

#[test]
fn printing_hands_the_text_to_the_host() {
    let mut h = heap();
    let (v, effect) = call(NativeKey::StdCorePrintln, vec![Value::I64(3)], &mut h).unwrap();
    assert!(matches!(v, Value::Unit));
    assert!(matches!(effect, Effect::PrintLine(s) if s == "shown"));
    let (_, effect) = call(NativeKey::StdCorePrint, vec![Value::I64(3)], &mut h).unwrap();
    assert!(matches!(effect, Effect::Print(s) if s == "shown"));
    let (v, effect) = call(NativeKey::StdCoreDbg, vec![Value::I64(3)], &mut h).unwrap();
    assert!(matches!(v, Value::I64(3)));
    assert!(matches!(effect, Effect::Debug(s) if s == "[dbg] debugged"));
}

#[test]
fn a_value_that_cannot_be_shown_stops_the_program() {
    let hidden = HostFacts { shown: None, ..facts() };
    let e = call_builtin(
        Builtin::Native(NativeKey::StdCorePrint),
        &vec![Value::Unit],
        &mut heap(),
        &hidden,
        &span(),
    )
    .unwrap_err();
    assert_eq!(
        e,
        MetelError::Panic {
            code: RuntimeErrorCode::R0009,
            message: "print: value does not implement Display".to_string(),
            span: span(),
        }
    );
}

#[test]
fn a_failed_assertion_stops_the_program() {
    let e = call(NativeKey::StdCoreAssert, vec![Value::Boolean(false)], &mut heap()).unwrap_err();
    assert_eq!(
        e,
        MetelError::Panic {
            code: RuntimeErrorCode::R0013,
            message: "assertion failed".to_string(),
            span: span(),
        }
    );
    let args = vec![Value::Boolean(false), Value::Str("why".to_string())];
    let e = call(NativeKey::StdCoreAssertMsg, args, &mut heap()).unwrap_err();
    assert_eq!(e.describe(), "why");
    assert!(call(NativeKey::StdCoreAssert, vec![Value::Boolean(true)], &mut heap()).is_ok());
}

#[test]
fn a_misused_builtin_is_an_internal_error() {
    let e = call(NativeKey::StdCoreAssert, vec![], &mut heap()).unwrap_err();
    assert_eq!(
        e,
        MetelError::Internal { message: "assert: expected boolean argument".to_string() }
    );
}

#[test]
fn conversions_between_numbers_drop_what_does_not_fit() {
    let mut h = heap();
    let (v, _) = call(NativeKey::StdCoreU8From, vec![Value::I64(300)], &mut h).unwrap();
    assert!(matches!(v, Value::U8(44)));
    let (v, _) = call(NativeKey::StdCoreI8From, vec![Value::U8(200)], &mut h).unwrap();
    assert!(matches!(v, Value::I8(-56)));
    let (v, _) = call(NativeKey::StdCoreI32From, vec![Value::F64(0)], &mut h).unwrap();
    assert!(matches!(v, Value::I32(-3)));
    let (v, _) = call(NativeKey::StdCoreF64From, vec![Value::I64(1)], &mut h).unwrap();
    assert!(matches!(v, Value::F64(8)));
    let (v, _) = call(NativeKey::StdCoreU32From, vec![Value::Char('A')], &mut h).unwrap();
    assert!(matches!(v, Value::U32(65)));
}

#[test]
fn only_a_scalar_value_is_a_character() {
    let mut h = heap();
    let (v, _) = call(NativeKey::StdCoreCharFrom, vec![Value::U32(65)], &mut h).unwrap();
    assert!(matches!(v, Value::Char('A')));
    let e = call(NativeKey::StdCoreCharFrom, vec![Value::U32(0xD800)], &mut h).unwrap_err();
    assert_eq!(e.describe(), "u32 value 55296 is not a valid Unicode scalar");
}

#[test]
fn a_string_is_measured_in_characters() {
    let mut h = heap();
    let s = Value::Str("h\u{e9}".to_string());
    let (v, _) = call(NativeKey::StdCoreStringLen, vec![s], &mut h).unwrap();
    assert!(matches!(v, Value::I64(2)));
    let both = vec![Value::Str("a".to_string()), Value::Str("b".to_string())];
    let (v, _) = call(NativeKey::StdCoreStringConcat, both, &mut h).unwrap();
    assert!(matches!(v, Value::Str(s) if s == "ab"));
    let (v, _) = call(NativeKey::StdCoreClock, vec![], &mut h).unwrap();
    assert!(matches!(v, Value::I64(17)));
}

#[test]
fn popping_gives_back_what_was_pushed() {
    let mut h = heap();
    let (list, _) = call(NativeKey::StdCoreListNew, vec![], &mut h).unwrap();
    for n in [1, 2] {
        call(NativeKey::StdCoreListPush, vec![list.copy(), Value::I64(n)], &mut h).unwrap();
    }
    let (len, _) = call(NativeKey::StdCoreListLen, vec![list.copy()], &mut h).unwrap();
    assert!(matches!(len, Value::I64(2)));
    let (first, _) =
        call(NativeKey::StdCoreListGet, vec![list.copy(), Value::I64(0)], &mut h).unwrap();
    assert_eq!(format!("{first:?}"), format!("{:?}", some(Value::I64(1))));
    let (last, _) = call(NativeKey::StdCoreListPop, vec![list.copy()], &mut h).unwrap();
    assert_eq!(format!("{last:?}"), format!("{:?}", some(Value::I64(2))));
    let (outside, _) =
        call(NativeKey::StdCoreListGet, vec![list.copy(), Value::I64(5)], &mut h).unwrap();
    assert!(matches!(outside, Value::Enum { variant, .. } if variant == "None"));
}

fn some(v: Value) -> Value {
    Value::Enum {
        name: "Perhaps".to_string(),
        variant: "Some".to_string(),
        fields: vec![("value".to_string(), v)],
    }
}

#[test]
fn the_type_of_a_value_is_sampled() {
    let h = Heap { arrays: vec![vec![Value::I64(1)], vec![]], cells: vec![Value::Boolean(true)] };
    let r = registry();
    assert_eq!(value_to_type(&Value::Str("s".to_string()), &h, &r), Some(Type::Str));
    assert_eq!(
        value_to_type(&Value::Array(0), &h, &r),
        Some(Type::Array(Box::new(Type::I64)))
    );
    assert_eq!(
        value_to_type(&Value::Array(1), &h, &r),
        Some(Type::Array(Box::new(Type::Never)))
    );
    let boxed = Value::Struct {
        name: "Box".to_string(),
        fields: vec![("item".to_string(), Value::Boolean(true))],
    };
    assert_eq!(
        value_to_type(&boxed, &h, &r),
        Some(Type::Named("Box".to_string(), vec![Type::Boolean]))
    );
    let closure = Value::Callable(RuntimeCallable::Closure { fun_type: None });
    assert_eq!(value_to_type(&closure, &h, &r), Some(Type::Fun(vec![], Box::new(Type::Unit))));
    assert_eq!(
        value_to_type(&Value::Reference(0), &h, &r),
        Some(Type::Reference(Box::new(Type::Boolean)))
    );
}

#[test]
fn the_call_site_fills_in_what_could_not_be_sampled() {
    let sampled = Type::Tuple(vec![Type::Array(Box::new(Type::Never)), Type::I64]);
    let known = Type::Tuple(vec![Type::Array(Box::new(Type::Str)), Type::Boolean]);
    assert_eq!(
        refine_with_static(&sampled, &known),
        Type::Tuple(vec![Type::Array(Box::new(Type::Str)), Type::I64])
    );
    assert_eq!(refine_with_static(&known, &known), known);
}

#[test]
fn an_unsampled_field_of_a_record_is_refined() {
    let record = |t: Type| Type::Record(vec![("xs".to_string(), Type::Array(Box::new(t)))]);
    assert_eq!(
        refine_with_static(&record(Type::Never), &record(Type::I64)),
        record(Type::I64)
    );
    assert_eq!(refine_with_static(&record(Type::U8), &record(Type::I64)), record(Type::U8));
    let other = Type::Record(vec![("ys".to_string(), Type::I64)]);
    assert_eq!(refine_with_static(&record(Type::Never), &other), record(Type::Never));
}

#[test]
fn a_list_holds_what_it_is_made_of() {
    let none = |v: &Value| matches!(v, Value::Enum { variant, .. } if variant == "None");
    let mut h = Heap { arrays: vec![vec![Value::I64(7), Value::I64(8)], vec![]], cells: vec![] };
    let array = format!("{:?}", h.arrays[0]);
    let (list, _) = call(NativeKey::StdCoreListFrom, vec![Value::Array(0)], &mut h).unwrap();
    let (len, _) = call(NativeKey::StdCoreListLen, vec![list.copy()], &mut h).unwrap();
    assert!(matches!(len, Value::I64(2)));
    for (i, n) in [(0, 7), (1, 8)] {
        let (v, _) =
            call(NativeKey::StdCoreListGet, vec![list.copy(), Value::I64(i)], &mut h).unwrap();
        assert_eq!(format!("{v:?}"), format!("{:?}", some(Value::I64(n))));
    }
    for i in [-1, 2] {
        let (v, _) =
            call(NativeKey::StdCoreListGet, vec![list.copy(), Value::I64(i)], &mut h).unwrap();
        assert!(none(&v));
    }
    call(NativeKey::StdCoreListPush, vec![list.copy(), Value::I64(9)], &mut h).unwrap();
    let (v, _) = call(NativeKey::StdCoreListPop, vec![list.copy()], &mut h).unwrap();
    assert_eq!(format!("{v:?}"), format!("{:?}", some(Value::I64(9))));
    assert_eq!(format!("{:?}", h.arrays[0]), array);
    let (empty, _) = call(NativeKey::StdCoreListFrom, vec![Value::Array(1)], &mut h).unwrap();
    let (v, _) = call(NativeKey::StdCoreListPop, vec![empty], &mut h).unwrap();
    assert!(none(&v));
}
