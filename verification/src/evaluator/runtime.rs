//! What a running program finds under the names of the standard library.
use vstd::prelude::*;
use crate::ast::{copy_type_exprs, type_exprs_view, Decl, FunDecl, ImplBlock};
use crate::ast::{NativeBinding, Param, Program, ReceiverKind, TypeExpr, TypeExprV};
use crate::elaborate::rules::{native_key, native_key_for};
use crate::native_keys::NativeKey;
use crate::text::{joined3, texts};
use super::value::{Builtin, RuntimeCallable, RuntimeCallableV};

verus! {

/// The type of a parameter or a result, as far as a call looks at it.
#[derive(Debug)]
pub enum RuntimeTypeRef {
    /// By its name.
    Named(String),
    /// As it is written in a declaration.
    Written(TypeExpr),
}

/// A type that has methods whatever its arguments are.
#[derive(Debug, Clone, Copy, PartialEq, Eq, Structural)]
pub enum RuntimeTypePattern {
    Str,
    Array,
}

/// A method as it is called.
#[derive(Debug)]
pub struct RuntimeMethod {
    pub label: String,
    pub receiver: Option<ReceiverKind>,
    pub params: Vec<RuntimeTypeRef>,
    pub ret: Option<RuntimeTypeRef>,
    pub body: RuntimeCallable,
}

/// A method of a named type.
#[derive(Debug)]
pub struct OwnedMethod {
    pub owner: String,
    pub name: String,
    pub method: RuntimeMethod,
}

/// A method of every type of a pattern.
#[derive(Debug)]
pub struct PatternMethod {
    pub pattern: RuntimeTypePattern,
    pub name: String,
    pub method: RuntimeMethod,
}

/// A method that a named type has from an aspect.
#[derive(Debug)]
pub struct AspectMethodEntry {
    pub owner: String,
    pub aspect: String,
    pub type_args: Vec<TypeExpr>,
    pub name: String,
    pub method: RuntimeMethod,
}

/// What a running program finds under the names of the standard library.
#[derive(Debug)]
pub struct RuntimeRegistry {
    /// The functions of `std::core`.
    pub core_values: Vec<(String, RuntimeCallable)>,
    /// Functions of types that take no receiver.
    pub type_values: Vec<OwnedMethod>,
    pub inherent: Vec<OwnedMethod>,
    pub patterns: Vec<PatternMethod>,
    pub aspects: Vec<AspectMethodEntry>,
}

/// A [`RuntimeTypeRef`] as a mathematical object.
pub ghost enum RuntimeTypeRefV {
    Named(Seq<char>),
    Written(TypeExprV),
}

/// A [`RuntimeMethod`] as a mathematical object.
pub ghost struct RuntimeMethodV {
    pub label: Seq<char>,
    pub receiver: Option<ReceiverKind>,
    pub params: Seq<RuntimeTypeRefV>,
    pub ret: Option<RuntimeTypeRefV>,
    pub body: RuntimeCallableV,
}

/// An [`OwnedMethod`] as a mathematical object.
pub ghost struct OwnedMethodV {
    pub owner: Seq<char>,
    pub name: Seq<char>,
    pub method: RuntimeMethodV,
}

/// A [`PatternMethod`] as a mathematical object.
pub ghost struct PatternMethodV {
    pub pattern: RuntimeTypePattern,
    pub name: Seq<char>,
    pub method: RuntimeMethodV,
}

/// An [`AspectMethodEntry`] as a mathematical object.
pub ghost struct AspectMethodEntryV {
    pub owner: Seq<char>,
    pub aspect: Seq<char>,
    pub type_args: Seq<TypeExprV>,
    pub name: Seq<char>,
    pub method: RuntimeMethodV,
}

/// A [`RuntimeRegistry`] as a mathematical object.
pub ghost struct RuntimeRegistryV {
    pub core_values: Seq<(Seq<char>, RuntimeCallableV)>,
    pub type_values: Seq<OwnedMethodV>,
    pub inherent: Seq<OwnedMethodV>,
    pub patterns: Seq<PatternMethodV>,
    pub aspects: Seq<AspectMethodEntryV>,
}

impl View for RuntimeTypeRef {
    type V = RuntimeTypeRefV;

    open spec fn view(&self) -> RuntimeTypeRefV {
        match *self {
            RuntimeTypeRef::Named(s) => RuntimeTypeRefV::Named(s@),
            RuntimeTypeRef::Written(t) => RuntimeTypeRefV::Written(t@),
        }
    }
}

/// The views of type references.
pub open spec fn refs_view(s: Seq<RuntimeTypeRef>) -> Seq<RuntimeTypeRefV> {
    Seq::new(s.len(), |i: int| s[i]@)
}

impl View for RuntimeMethod {
    type V = RuntimeMethodV;

    open spec fn view(&self) -> RuntimeMethodV {
        RuntimeMethodV {
            label: self.label@,
            receiver: self.receiver,
            params: refs_view(self.params@),
            ret: match self.ret {
                Some(t) => Some(t@),
                None => None,
            },
            body: self.body@,
        }
    }
}

/// The views of the functions of `std::core`.
pub open spec fn core_view(s: Seq<(String, RuntimeCallable)>) -> Seq<(Seq<char>, RuntimeCallableV)> {
    Seq::new(s.len(), |i: int| (s[i].0@, s[i].1@))
}

/// The views of methods of named types.
pub open spec fn owned_view(s: Seq<OwnedMethod>) -> Seq<OwnedMethodV> {
    Seq::new(
        s.len(),
        |i: int| OwnedMethodV { owner: s[i].owner@, name: s[i].name@, method: s[i].method@ },
    )
}

/// The views of methods of patterns.
pub open spec fn patterns_view(s: Seq<PatternMethod>) -> Seq<PatternMethodV> {
    Seq::new(
        s.len(),
        |i: int|
            PatternMethodV { pattern: s[i].pattern, name: s[i].name@, method: s[i].method@ },
    )
}

/// The views of methods from aspects.
pub open spec fn aspects_view(s: Seq<AspectMethodEntry>) -> Seq<AspectMethodEntryV> {
    Seq::new(
        s.len(),
        |i: int|
            AspectMethodEntryV {
                owner: s[i].owner@,
                aspect: s[i].aspect@,
                type_args: type_exprs_view(s[i].type_args@),
                name: s[i].name@,
                method: s[i].method@,
            },
    )
}

impl View for RuntimeRegistry {
    type V = RuntimeRegistryV;

    open spec fn view(&self) -> RuntimeRegistryV {
        RuntimeRegistryV {
            core_values: core_view(self.core_values@),
            type_values: owned_view(self.type_values@),
            inherent: owned_view(self.inherent@),
            patterns: patterns_view(self.patterns@),
            aspects: aspects_view(self.aspects@),
        }
    }
}

/// The name under which a native function is shown.
pub open spec fn native_label(key: NativeKey) -> Seq<char> {
    match key {
        NativeKey::StdCorePrint => "std::core::print"@,
        NativeKey::StdCorePrintln => "std::core::println"@,
        NativeKey::StdCoreDbg => "std::core::dbg"@,
        NativeKey::StdCoreAssert => "std::core::assert"@,
        NativeKey::StdCoreAssertMsg => "std::core::assert_msg"@,
        NativeKey::StdCoreClock => "std::core::clock"@,
        NativeKey::StdCoreStringLen => "std::core::string_len"@,
        NativeKey::StdCoreStringConcat => "std::core::string_concat"@,
        NativeKey::StdCoreToString => "Display::to_string"@,
        NativeKey::StdCoreI8From => "i8::from"@,
        NativeKey::StdCoreI16From => "i16::from"@,
        NativeKey::StdCoreI32From => "i32::from"@,
        NativeKey::StdCoreI64From => "i64::from"@,
        NativeKey::StdCoreU8From => "u8::from"@,
        NativeKey::StdCoreU16From => "u16::from"@,
        NativeKey::StdCoreU32From => "u32::from"@,
        NativeKey::StdCoreU64From => "u64::from"@,
        NativeKey::StdCoreF32From => "f32::from"@,
        NativeKey::StdCoreF64From => "f64::from"@,
        NativeKey::StdCoreCharFrom => "Char::from"@,
        NativeKey::StdCoreListNew => "List::new"@,
        NativeKey::StdCoreListFrom => "List::from"@,
        NativeKey::StdCoreListPush => "List::push"@,
        NativeKey::StdCoreListPop => "List::pop"@,
        NativeKey::StdCoreListLen => "List::len"@,
        NativeKey::StdCoreListGet => "List::get"@,
        NativeKey::StdCoreListAsSlice => "List::as_slice"@,
    }
}

/// The host implementation of a native function.
pub open spec fn host_impl(key: NativeKey) -> RuntimeCallableV {
    RuntimeCallableV::Intrinsic { label: native_label(key), fun: Builtin::Native(key) }
}

/// The host implementation of a native function. Every key has one.
pub fn native_host_impl(key: NativeKey) -> (r: RuntimeCallable)
    ensures
        r@ == host_impl(key),
{
    let label: &str = match key {
        NativeKey::StdCorePrint => "std::core::print",
        NativeKey::StdCorePrintln => "std::core::println",
        NativeKey::StdCoreDbg => "std::core::dbg",
        NativeKey::StdCoreAssert => "std::core::assert",
        NativeKey::StdCoreAssertMsg => "std::core::assert_msg",
        NativeKey::StdCoreClock => "std::core::clock",
        NativeKey::StdCoreStringLen => "std::core::string_len",
        NativeKey::StdCoreStringConcat => "std::core::string_concat",
        NativeKey::StdCoreToString => "Display::to_string",
        NativeKey::StdCoreI8From => "i8::from",
        NativeKey::StdCoreI16From => "i16::from",
        NativeKey::StdCoreI32From => "i32::from",
        NativeKey::StdCoreI64From => "i64::from",
        NativeKey::StdCoreU8From => "u8::from",
        NativeKey::StdCoreU16From => "u16::from",
        NativeKey::StdCoreU32From => "u32::from",
        NativeKey::StdCoreU64From => "u64::from",
        NativeKey::StdCoreF32From => "f32::from",
        NativeKey::StdCoreF64From => "f64::from",
        NativeKey::StdCoreCharFrom => "Char::from",
        NativeKey::StdCoreListNew => "List::new",
        NativeKey::StdCoreListFrom => "List::from",
        NativeKey::StdCoreListPush => "List::push",
        NativeKey::StdCoreListPop => "List::pop",
        NativeKey::StdCoreListLen => "List::len",
        NativeKey::StdCoreListGet => "List::get",
        NativeKey::StdCoreListAsSlice => "List::as_slice",
    };
    RuntimeCallable::Intrinsic { label: label.to_owned(), fun: Builtin::Native(key) }
}

/// The types of the parameters among the first `k` that are not the receiver.
pub open spec fn param_refs(s: Seq<Param>, k: int) -> Seq<RuntimeTypeRefV>
    decreases k,
{
    if k <= 0 || k > s.len() {
        Seq::empty()
    } else {
        let before = param_refs(s, k - 1);
        match (s[k - 1].receiver, s[k - 1].type_ann) {
            (None, Some(t)) => before.push(RuntimeTypeRefV::Written(t@)),
            _ => before,
        }
    }
}

/// How a method takes its receiver.
pub open spec fn receiver_of(f: FunDecl) -> Option<ReceiverKind> {
    if f.params@.len() == 0 {
        None
    } else {
        f.params@[0].receiver
    }
}

/// A native method of a type as it is called.
pub open spec fn native_method(owner: Seq<char>, f: FunDecl, key: NativeKey) -> RuntimeMethodV {
    RuntimeMethodV {
        label: owner + "::"@ + f.name@,
        receiver: receiver_of(f),
        params: param_refs(f.params@, f.params@.len() as int),
        ret: match f.return_type {
            Some(t) => Some(RuntimeTypeRefV::Written(t@)),
            None => None,
        },
        body: host_impl(key),
    }
}

/// The registry with a native method of an impl; a method with a body is left to elaboration.
pub open spec fn with_method(
    reg: RuntimeRegistryV,
    owner: Seq<char>,
    ib: ImplBlock,
    f: FunDecl,
) -> RuntimeRegistryV {
    match f.native {
        None => reg,
        Some(binding) => match native_key(texts(binding.key_path@)) {
            None => reg,
            Some(key) => {
                let method = native_method(owner, f, key);
                let owned = OwnedMethodV { owner, name: f.name@, method };
                match ib.aspect_name {
                    Some(aspect) => RuntimeRegistryV {
                        aspects: reg.aspects.push(
                            AspectMethodEntryV {
                                owner,
                                aspect: aspect@,
                                type_args: type_exprs_view(ib.aspect_type_args@),
                                name: f.name@,
                                method,
                            },
                        ),
                        ..reg
                    },
                    None => if receiver_of(f) is None {
                        RuntimeRegistryV { type_values: reg.type_values.push(owned), ..reg }
                    } else {
                        RuntimeRegistryV { inherent: reg.inherent.push(owned), ..reg }
                    },
                }
            },
        },
    }
}

/// The registry with the native methods among the first `k` of an impl.
pub open spec fn with_methods(
    reg: RuntimeRegistryV,
    owner: Seq<char>,
    ib: ImplBlock,
    k: int,
) -> RuntimeRegistryV
    decreases k,
{
    if k <= 0 || k > ib.methods@.len() {
        reg
    } else {
        with_method(with_methods(reg, owner, ib, k - 1), owner, ib, ib.methods@[k - 1])
    }
}

/// The registry with what a declaration of `std::core` provides.
pub open spec fn with_core_decl(reg: RuntimeRegistryV, d: Decl) -> RuntimeRegistryV {
    match d {
        Decl::Fun(f) => match f.native {
            None => reg,
            Some(binding) => match native_key(texts(binding.key_path@)) {
                None => reg,
                Some(key) => RuntimeRegistryV {
                    core_values: reg.core_values.push((f.name@, host_impl(key))),
                    ..reg
                },
            },
        },
        Decl::Impl(ib) => match ib.target_type {
            TypeExpr::Named(owner, _) => with_methods(reg, owner@, ib, ib.methods@.len() as int),
            _ => reg,
        },
        _ => reg,
    }
}

/// The registry with what the first `k` declarations of `std::core` provide.
pub open spec fn with_core(reg: RuntimeRegistryV, s: Seq<Decl>, k: int) -> RuntimeRegistryV
    decreases k,
{
    if k <= 0 || k > s.len() {
        reg
    } else {
        with_core_decl(with_core(reg, s, k - 1), s[k - 1])
    }
}

/// Whether a declaration names a native function that exists, if it names one.
pub open spec fn binding_known(b: Option<NativeBinding>) -> bool {
    match b {
        Some(b) => native_key(texts(b.key_path@)) is Some,
        None => true,
    }
}

/// Whether every parameter but the receiver has its type written down.
pub open spec fn annotated(s: Seq<Param>) -> bool {
    forall|i: int|
        0 <= i < s.len() ==> ((#[trigger] s[i]).receiver is Some || s[i].type_ann is Some)
}

/// Whether a method of `std::core` names a native function that exists and is fully annotated, if
/// it names one.
pub open spec fn method_known(f: FunDecl) -> bool {
    binding_known(f.native) && (f.native is Some ==> annotated(f.params@))
}

/// Whether a declaration of `std::core` can be provided.
pub open spec fn core_decl_known(d: Decl) -> bool {
    match d {
        Decl::Fun(f) => binding_known(f.native),
        Decl::Impl(ib) => ib.target_type is Named ==> forall|i: int|
            0 <= i < ib.methods@.len() ==> method_known(#[trigger] ib.methods@[i]),
        _ => true,
    }
}

/// Whether every declaration of `std::core` can be provided.
pub open spec fn core_known(s: Seq<Decl>) -> bool {
    forall|i: int| 0 <= i < s.len() ==> core_decl_known(#[trigger] s[i])
}

/// A method of a type that is built in: by its label, its receiver, and the names of its types.
pub open spec fn builtin_method(
    label: Seq<char>,
    receiver: Option<ReceiverKind>,
    params: Seq<Seq<char>>,
    ret: Seq<char>,
    fun: Builtin,
) -> RuntimeMethodV {
    RuntimeMethodV {
        label,
        receiver,
        params: Seq::new(params.len(), |i: int| RuntimeTypeRefV::Named(params[i])),
        ret: Some(RuntimeTypeRefV::Named(ret)),
        body: RuntimeCallableV::Intrinsic { label, fun },
    }
}

/// A method of `List` that is built in.
pub open spec fn list_method(
    name: Seq<char>,
    label: Seq<char>,
    receiver: Option<ReceiverKind>,
    params: Seq<Seq<char>>,
    ret: Seq<char>,
    key: NativeKey,
) -> OwnedMethodV {
    OwnedMethodV {
        owner: "List"@,
        name,
        method: builtin_method(label, receiver, params, ret, Builtin::Native(key)),
    }
}

/// The registry with everything that is built in.
pub open spec fn with_builtins(start: RuntimeRegistryV, core: Seq<Decl>) -> RuntimeRegistryV {
    let reg = with_core(start, core, core.len() as int);
    let value = Some(ReceiverKind::Value);
    let write = Some(ReceiverKind::RefMut);
    let none = Seq::<Seq<char>>::empty();
    RuntimeRegistryV {
        patterns: reg.patterns.push(
            PatternMethodV {
                pattern: RuntimeTypePattern::Str,
                name: "len"@,
                method: builtin_method("String::len"@, value, none, "i64"@, Builtin::StringLen),
            },
        ).push(
            PatternMethodV {
                pattern: RuntimeTypePattern::Array,
                name: "len"@,
                method: builtin_method("Array::len"@, value, none, "i64"@, Builtin::ArrayLen),
            },
        ),
        type_values: reg.type_values.push(
            list_method("new"@, "List::new"@, None, none, "List<T>"@, NativeKey::StdCoreListNew),
        ).push(
            list_method(
                "from"@,
                "List::from"@,
                None,
                seq!["T[]"@],
                "List<T>"@,
                NativeKey::StdCoreListFrom,
            ),
        ),
        inherent: reg.inherent.push(
            list_method(
                "push"@,
                "List::push"@,
                write,
                seq!["T"@],
                "()"@,
                NativeKey::StdCoreListPush,
            ),
        ).push(
            list_method(
                "pop"@,
                "List::pop"@,
                write,
                none,
                "Perhaps<T>"@,
                NativeKey::StdCoreListPop,
            ),
        ).push(
            list_method("len"@, "List::len"@, value, none, "i64"@, NativeKey::StdCoreListLen),
        ).push(
            list_method(
                "get"@,
                "List::get"@,
                value,
                seq!["i64"@],
                "Perhaps<T>"@,
                NativeKey::StdCoreListGet,
            ),
        ).push(
            list_method(
                "as_slice"@,
                "List::as_slice"@,
                value,
                none,
                "T[]"@,
                NativeKey::StdCoreListAsSlice,
            ),
        ),
        ..reg
    }
}

fn types_of_params(s: &Vec<Param>) -> (r: Vec<RuntimeTypeRef>)
    ensures
        refs_view(r@) == param_refs(s@, s@.len() as int),
{
    let mut out: Vec<RuntimeTypeRef> = Vec::new();
    assert(refs_view(out@) =~= Seq::empty());
    let mut i: usize = 0;
    while i < s.len()
        invariant
            i <= s@.len(),
            refs_view(out@) == param_refs(s@, i as int),
        decreases s@.len() - i,
    {
        let ghost before = out@;
        if s[i].receiver.is_none() {
            if let Some(t) = &s[i].type_ann {
                out.push(RuntimeTypeRef::Written(t.copy()));
                assert(refs_view(out@) =~= refs_view(before).push(RuntimeTypeRefV::Written(t@)));
            }
        }
        i += 1;
    }
    out
}

impl RuntimeRegistry {
    /// A registry that holds nothing.
    pub fn new() -> (r: Self)
        ensures
            r@ == (RuntimeRegistryV {
                core_values: Seq::empty(),
                type_values: Seq::empty(),
                inherent: Seq::empty(),
                patterns: Seq::empty(),
                aspects: Seq::empty(),
            }),
    {
        let r = RuntimeRegistry {
            core_values: Vec::new(),
            type_values: Vec::new(),
            inherent: Vec::new(),
            patterns: Vec::new(),
            aspects: Vec::new(),
        };
        assert(r@.core_values =~= Seq::empty());
        assert(r@.type_values =~= Seq::empty());
        assert(r@.inherent =~= Seq::empty());
        assert(r@.patterns =~= Seq::empty());
        assert(r@.aspects =~= Seq::empty());
        r
    }

    fn register_method(&mut self, owner: &String, ib: &ImplBlock, f: &FunDecl)
        ensures
            final(self)@ == with_method(old(self)@, owner@, *ib, *f),
    {
        let binding: &NativeBinding = match &f.native {
            Some(b) => b,
            None => {
                return;
            },
        };
        let key: NativeKey = match native_key_for(&binding.key_path) {
            Some(key) => key,
            None => {
                return;
            },
        };
        let receiver: Option<ReceiverKind> = if f.params.len() == 0 {
            None
        } else {
            f.params[0].receiver
        };
        let method: RuntimeMethod = RuntimeMethod {
            label: joined3(owner.as_str(), "::", f.name.as_str()),
            receiver,
            params: types_of_params(&f.params),
            ret: match &f.return_type {
                Some(t) => Some(RuntimeTypeRef::Written(t.copy())),
                None => None,
            },
            body: native_host_impl(key),
        };
        let ghost mv = method@;
        assert(mv == native_method(owner@, *f, key));
        let ghost before = self@;
        match &ib.aspect_name {
            Some(aspect) => {
                self.aspects.push(
                    AspectMethodEntry {
                        owner: owner.clone(),
                        aspect: aspect.clone(),
                        type_args: copy_type_exprs(&ib.aspect_type_args),
                        name: f.name.clone(),
                        method,
                    },
                );
                assert(self@.aspects =~= before.aspects.push(
                    AspectMethodEntryV {
                        owner: owner@,
                        aspect: aspect@,
                        type_args: type_exprs_view(ib.aspect_type_args@),
                        name: f.name@,
                        method: mv,
                    },
                ));
            },
            None => {
                let entry: OwnedMethod = OwnedMethod {
                    owner: owner.clone(),
                    name: f.name.clone(),
                    method,
                };
                let ghost ev = OwnedMethodV { owner: owner@, name: f.name@, method: mv };
                if receiver.is_none() {
                    self.type_values.push(entry);
                    assert(self@.type_values =~= before.type_values.push(ev));
                } else {
                    self.inherent.push(entry);
                    assert(self@.inherent =~= before.inherent.push(ev));
                }
            },
        }
    }

    fn register_core_decl(&mut self, d: &Decl)
        ensures
            final(self)@ == with_core_decl(old(self)@, *d),
    {
        match d {
            Decl::Fun(f) => {
                if let Some(binding) = &f.native {
                    if let Some(key) = native_key_for(&binding.key_path) {
                        let ghost before = self@;
                        self.core_values.push((f.name.clone(), native_host_impl(key)));
                        assert(self@.core_values =~= before.core_values.push(
                            (f.name@, host_impl(key)),
                        ));
                    }
                }
            },
            Decl::Impl(ib) => {
                if let TypeExpr::Named(owner, _) = &ib.target_type {
                    let ghost start = self@;
                    let mut i: usize = 0;
                    while i < ib.methods.len()
                        invariant
                            i <= ib.methods@.len(),
                            self@ == with_methods(start, owner@, *ib, i as int),
                        decreases ib.methods@.len() - i,
                    {
                        self.register_method(owner, ib, &ib.methods[i]);
                        i += 1;
                    }
                }
            },
            _ => {},
        }
    }

    /// Register what `std::core` declares as native, each under its host implementation. The
    /// declarations are the only list there is.
    pub fn register_core_natives(&mut self, core: &Program)
        requires
            core_known(core.decls@),
        ensures
            final(self)@ == with_core(old(self)@, core.decls@, core.decls@.len() as int),
    {
        let ghost start = self@;
        let mut i: usize = 0;
        while i < core.decls.len()
            invariant
                i <= core.decls@.len(),
                self@ == with_core(start, core.decls@, i as int),
            decreases core.decls@.len() - i,
        {
            self.register_core_decl(&core.decls[i]);
            i += 1;
        }
    }

    fn add_pattern(&mut self, pattern: RuntimeTypePattern, name: &str, method: RuntimeMethod)
        ensures
            final(self)@ == (RuntimeRegistryV {
                patterns: old(self)@.patterns.push(
                    PatternMethodV { pattern, name: name@, method: method@ },
                ),
                ..old(self)@
            }),
    {
        let ghost before = self@;
        let ghost mv = method@;
        self.patterns.push(PatternMethod { pattern, name: name.to_owned(), method });
        assert(self@.patterns =~= before.patterns.push(
            PatternMethodV { pattern, name: name@, method: mv },
        ));
    }

    fn add_list_value(&mut self, name: &str, method: RuntimeMethod)
        ensures
            final(self)@ == (RuntimeRegistryV {
                type_values: old(self)@.type_values.push(
                    OwnedMethodV { owner: "List"@, name: name@, method: method@ },
                ),
                ..old(self)@
            }),
    {
        let ghost before = self@;
        let ghost mv = method@;
        self.type_values.push(
            OwnedMethod { owner: "List".to_owned(), name: name.to_owned(), method },
        );
        assert(self@.type_values =~= before.type_values.push(
            OwnedMethodV { owner: "List"@, name: name@, method: mv },
        ));
    }

    fn add_list_method(&mut self, name: &str, method: RuntimeMethod)
        ensures
            final(self)@ == (RuntimeRegistryV {
                inherent: old(self)@.inherent.push(
                    OwnedMethodV { owner: "List"@, name: name@, method: method@ },
                ),
                ..old(self)@
            }),
    {
        let ghost before = self@;
        let ghost mv = method@;
        self.inherent.push(
            OwnedMethod { owner: "List".to_owned(), name: name.to_owned(), method },
        );
        assert(self@.inherent =~= before.inherent.push(
            OwnedMethodV { owner: "List"@, name: name@, method: mv },
        ));
    }

    /// Register everything that is built in: what `std::core` declares as native, the length of
    /// strings and arrays, and lists.
    pub fn register_builtins(&mut self, core: &Program)
        requires
            core_known(core.decls@),
        ensures
            final(self)@ == with_builtins(old(self)@, core.decls@),
    {
        self.register_core_natives(core);
        let value: Option<ReceiverKind> = Some(ReceiverKind::Value);
        let write: Option<ReceiverKind> = Some(ReceiverKind::RefMut);
        self.add_pattern(
            RuntimeTypePattern::Str,
            "len",
            method_without("String::len", value, "i64", Builtin::StringLen),
        );
        self.add_pattern(
            RuntimeTypePattern::Array,
            "len",
            method_without("Array::len", value, "i64", Builtin::ArrayLen),
        );
        self.add_list_value(
            "new",
            method_without(
                "List::new",
                None,
                "List<T>",
                Builtin::Native(NativeKey::StdCoreListNew),
            ),
        );
        self.add_list_value(
            "from",
            method_with(
                "List::from",
                None,
                "T[]",
                "List<T>",
                Builtin::Native(NativeKey::StdCoreListFrom),
            ),
        );
        self.add_list_method(
            "push",
            method_with(
                "List::push",
                write,
                "T",
                "()",
                Builtin::Native(NativeKey::StdCoreListPush),
            ),
        );
        self.add_list_method(
            "pop",
            method_without(
                "List::pop",
                write,
                "Perhaps<T>",
                Builtin::Native(NativeKey::StdCoreListPop),
            ),
        );
        self.add_list_method(
            "len",
            method_without("List::len", value, "i64", Builtin::Native(NativeKey::StdCoreListLen)),
        );
        self.add_list_method(
            "get",
            method_with(
                "List::get",
                value,
                "i64",
                "Perhaps<T>",
                Builtin::Native(NativeKey::StdCoreListGet),
            ),
        );
        self.add_list_method(
            "as_slice",
            method_without(
                "List::as_slice",
                value,
                "T[]",
                Builtin::Native(NativeKey::StdCoreListAsSlice),
            ),
        );
    }
}

fn method_without(label: &str, receiver: Option<ReceiverKind>, ret: &str, fun: Builtin) -> (r:
    RuntimeMethod)
    ensures
        r@ == builtin_method(label@, receiver, Seq::empty(), ret@, fun),
{
    let r = RuntimeMethod {
        label: label.to_owned(),
        receiver,
        params: Vec::new(),
        ret: Some(RuntimeTypeRef::Named(ret.to_owned())),
        body: RuntimeCallable::Intrinsic { label: label.to_owned(), fun },
    };
    assert(r@.params =~= builtin_method(label@, receiver, Seq::empty(), ret@, fun).params);
    r
}

fn method_with(
    label: &str,
    receiver: Option<ReceiverKind>,
    param: &str,
    ret: &str,
    fun: Builtin,
) -> (r: RuntimeMethod)
    ensures
        r@ == builtin_method(label@, receiver, seq![param@], ret@, fun),
{
    let mut params: Vec<RuntimeTypeRef> = Vec::new();
    params.push(RuntimeTypeRef::Named(param.to_owned()));
    let r = RuntimeMethod {
        label: label.to_owned(),
        receiver,
        params,
        ret: Some(RuntimeTypeRef::Named(ret.to_owned())),
        body: RuntimeCallable::Intrinsic { label: label.to_owned(), fun },
    };
    assert(r@.params =~= builtin_method(label@, receiver, seq![param@], ret@, fun).params);
    r
}

/// The registry that a program starts with.
pub fn runtime_registry(core: &Program) -> (r: RuntimeRegistry)
    requires
        core_known(core.decls@),
    ensures
        r@ == with_builtins(
            RuntimeRegistryV {
                core_values: Seq::empty(),
                type_values: Seq::empty(),
                inherent: Seq::empty(),
                patterns: Seq::empty(),
                aspects: Seq::empty(),
            },
            core.decls@,
        ),
{
    let mut r: RuntimeRegistry = RuntimeRegistry::new();
    r.register_builtins(core);
    r
}

fn params_annotated(s: &Vec<Param>) -> (r: bool)
    ensures
        r == annotated(s@),
{
    let mut i: usize = 0;
    while i < s.len()
        invariant
            i <= s@.len(),
            forall|k: int|
                0 <= k < i ==> ((#[trigger] s@[k]).receiver is Some || s@[k].type_ann is Some),
        decreases s@.len() - i,
    {
        if s[i].receiver.is_none() && s[i].type_ann.is_none() {
            assert(!(s@[i as int].receiver is Some || s@[i as int].type_ann is Some));
            return false;
        }
        i += 1;
    }
    true
}

fn native_exists(b: &Option<NativeBinding>) -> (r: bool)
    ensures
        r == binding_known(*b),
{
    match b {
        Some(b) => native_key_for(&b.key_path).is_some(),
        None => true,
    }
}

fn decl_can_be_provided(d: &Decl) -> (r: bool)
    ensures
        r == core_decl_known(*d),
{
    match d {
        Decl::Fun(f) => native_exists(&f.native),
        Decl::Impl(ib) => {
            if !matches!(ib.target_type, TypeExpr::Named(_, _)) {
                return true;
            }
            let mut i: usize = 0;
            while i < ib.methods.len()
                invariant
                    i <= ib.methods@.len(),
                    ib.target_type is Named,
                    *d == Decl::Impl(*ib),
                    forall|k: int| 0 <= k < i ==> method_known(#[trigger] ib.methods@[k]),
                decreases ib.methods@.len() - i,
            {
                let f: &FunDecl = &ib.methods[i];
                if !native_exists(&f.native) || (f.native.is_some() && !params_annotated(&f.params)) {
                    assert(!method_known(ib.methods@[i as int]));
                    return false;
                }
                i += 1;
            }
            true
        },
        _ => true,
    }
}

/// Whether every native function that a source of `std::core` declares exists, with the types of
/// its parameters written down.
pub fn core_is_complete(core: &Program) -> (r: bool)
    ensures
        r == core_known(core.decls@),
{
    let mut i: usize = 0;
    while i < core.decls.len()
        invariant
            i <= core.decls@.len(),
            forall|k: int| 0 <= k < i ==> core_decl_known(#[trigger] core.decls@[k]),
        decreases core.decls@.len() - i,
    {
        if !decl_can_be_provided(&core.decls[i]) {
            assert(!core_decl_known(core.decls@[i as int]));
            return false;
        }
        i += 1;
    }
    true
}

} // verus!
