//! What the host provides to a program.
use vstd::prelude::*;
use crate::ast::{type_exprs_view, Decl, FunDecl, ImplBlock, Param, ReceiverKind, TypeExpr};
use crate::elaborate::rules::native_key;
use crate::native_keys::NativeKey;
use crate::text::texts;
use super::runtime::{native_method, param_refs, with_builtins, with_core, with_core_decl};
use super::runtime::{with_method, with_methods, OwnedMethodV, PatternMethodV, RuntimeMethodV};
use super::runtime::{RuntimeRegistryV, RuntimeTypePattern, RuntimeTypeRefV};
use super::value::{Builtin, RuntimeCallableV};

verus! {

/// Whether a registry holds what another holds, at the same positions, and perhaps more.
pub open spec fn grown(before: RuntimeRegistryV, after: RuntimeRegistryV) -> bool {
    &&& before.core_values.is_prefix_of(after.core_values)
    &&& before.type_values.is_prefix_of(after.type_values)
    &&& before.inherent.is_prefix_of(after.inherent)
    &&& before.patterns.is_prefix_of(after.patterns)
    &&& before.aspects.is_prefix_of(after.aspects)
}

/// Whether something that is called is a native function.
pub open spec fn runs(c: RuntimeCallableV, key: NativeKey) -> bool {
    c matches RuntimeCallableV::Intrinsic { fun, .. } && fun == Builtin::Native(key)
}

/// Whether a function declaration names a native function.
pub open spec fn names_native(f: FunDecl, key: NativeKey) -> bool {
    f.native matches Some(b) && native_key(texts(b.key_path@)) == Some(key)
}

/// Whether a method is a native one as it is declared: its receiver, its types, and the function
/// that it runs.
pub open spec fn stands_for(m: RuntimeMethodV, f: FunDecl, key: NativeKey) -> bool {
    &&& runs(m.body, key)
    &&& m.receiver == (if f.params@.len() == 0 {
        None::<ReceiverKind>
    } else {
        f.params@[0].receiver
    })
    &&& match f.return_type {
        Some(t) => m.ret == Some(RuntimeTypeRefV::Written(t@)),
        None => m.ret is None,
    }
    &&& written_params(f.params@, m.params)
}

/// Whether types are those of parameters, the receiver left out.
pub open spec fn written_params(s: Seq<Param>, types: Seq<RuntimeTypeRefV>) -> bool {
    &&& only_first_receives(s) && s.len() > 0 && s[0].receiver is Some ==> types.len() == s.len() - 1
        && forall|i: int|
        0 <= i < types.len() ==> (s[i + 1].type_ann matches Some(t) && #[trigger] types[i]
            == RuntimeTypeRefV::Written(t@))
    &&& only_first_receives(s) && (s.len() == 0 || s[0].receiver is None) ==> types.len() == s.len()
        && forall|i: int|
        0 <= i < types.len() ==> (s[i].type_ann matches Some(t) && #[trigger] types[i]
            == RuntimeTypeRefV::Written(t@))
}

/// Whether every parameter but the receiver, which can only be the first, has a type written down.
pub open spec fn only_first_receives(s: Seq<Param>) -> bool {
    forall|i: int|
        0 <= i < s.len() ==> ((#[trigger] s[i]).receiver is None ==> s[i].type_ann is Some) && (i > 0
            ==> s[i].receiver is None)
}

proof fn lemma_params(s: Seq<Param>, k: int)
    requires
        only_first_receives(s),
        0 <= k <= s.len(),
    ensures
        s.len() > 0 && s[0].receiver is Some && k > 0 ==> param_refs(s, k).len() == k - 1,
        s.len() == 0 || s[0].receiver is None || k == 0 ==> param_refs(s, k).len() == k,
        forall|i: int|
            0 <= i < param_refs(s, k).len() ==> ({
                let j = if s[0].receiver is Some {
                    i + 1
                } else {
                    i
                };
                s[j].type_ann matches Some(t) && #[trigger] param_refs(s, k)[i]
                    == RuntimeTypeRefV::Written(t@)
            }),
    decreases k,
{
    if k > 0 {
        lemma_params(s, k - 1);
        assert(s[k - 1].receiver is None ==> s[k - 1].type_ann is Some);
    }
}

proof fn lemma_stands(owner: Seq<char>, f: FunDecl, key: NativeKey)
    ensures
        stands_for(native_method(owner, f, key), f, key),
{
    if only_first_receives(f.params@) {
        lemma_params(f.params@, f.params@.len() as int);
    }
}

proof fn lemma_grows_on(a: RuntimeRegistryV, b: RuntimeRegistryV, c: RuntimeRegistryV)
    requires
        grown(a, b),
        grown(b, c),
    ensures
        grown(a, c),
{
}

proof fn lemma_method_grows(reg: RuntimeRegistryV, owner: Seq<char>, ib: ImplBlock, f: FunDecl)
    ensures
        grown(reg, with_method(reg, owner, ib, f)),
{
}

proof fn lemma_methods_grow(reg: RuntimeRegistryV, owner: Seq<char>, ib: ImplBlock, j: int, k: int)
    requires
        0 <= j <= k <= ib.methods@.len(),
    ensures
        grown(with_methods(reg, owner, ib, j), with_methods(reg, owner, ib, k)),
    decreases k - j,
{
    if j < k {
        lemma_methods_grow(reg, owner, ib, j, k - 1);
        let before = with_methods(reg, owner, ib, k - 1);
        lemma_method_grows(before, owner, ib, ib.methods@[k - 1]);
        lemma_grows_on(with_methods(reg, owner, ib, j), before, with_methods(reg, owner, ib, k));
    }
}

proof fn lemma_decl_grows(reg: RuntimeRegistryV, d: Decl)
    ensures
        grown(reg, with_core_decl(reg, d)),
{
    if let Decl::Impl(ib) = d {
        if let TypeExpr::Named(owner, _) = ib.target_type {
            lemma_methods_grow(reg, owner@, ib, 0, ib.methods@.len() as int);
        }
    }
}

proof fn lemma_core_grows(reg: RuntimeRegistryV, s: Seq<Decl>, j: int, k: int)
    requires
        0 <= j <= k <= s.len(),
    ensures
        grown(with_core(reg, s, j), with_core(reg, s, k)),
    decreases k - j,
{
    if j < k {
        lemma_core_grows(reg, s, j, k - 1);
        lemma_decl_grows(with_core(reg, s, k - 1), s[k - 1]);
        lemma_grows_on(with_core(reg, s, j), with_core(reg, s, k - 1), with_core(reg, s, k));
    }
}

proof fn lemma_built_grows(reg: RuntimeRegistryV, s: Seq<Decl>, k: int)
    requires
        0 <= k <= s.len(),
    ensures
        grown(with_core(reg, s, k), with_builtins(reg, s)),
{
    lemma_core_grows(reg, s, k, s.len() as int);
    let last = with_core(reg, s, s.len() as int);
    assert(grown(last, with_builtins(reg, s)));
    lemma_grows_on(with_core(reg, s, k), last, with_builtins(reg, s));
}

/// Nothing that was there is taken away or moved.
pub proof fn law_nothing_provided_is_taken_away(reg: RuntimeRegistryV, core: Seq<Decl>)
    ensures
        grown(reg, with_builtins(reg, core)),
{
    lemma_built_grows(reg, core, 0);
}

/// Every native function that `std::core` declares is provided under its name, and runs what it
/// names.
pub proof fn law_native_functions_are_provided(
    reg: RuntimeRegistryV,
    core: Seq<Decl>,
    i: int,
    key: NativeKey,
)
    requires
        0 <= i < core.len(),
        core[i] matches Decl::Fun(f) && names_native(f, key),
    ensures
        exists|k: int|
            0 <= k < with_builtins(reg, core).core_values.len() && (#[trigger] with_builtins(
                reg,
                core,
            ).core_values[k]).0 == core[i]->Fun_0.name@ && runs(
                with_builtins(reg, core).core_values[k].1,
                key,
            ),
{
    lemma_built_grows(reg, core, i + 1);
    let before = with_core(reg, core, i);
    let after = with_core(reg, core, i + 1);
    assert(after == with_core_decl(before, core[i]));
    let k = before.core_values.len() as int;
    assert(with_builtins(reg, core).core_values[k] == after.core_values[k]);
}

/// Where a native method of an impl is provided: with the aspect where the impl is one of an aspect,
/// else with the values of the type where it has no receiver, else with the methods of the type.
pub open spec fn provided(
    reg: RuntimeRegistryV,
    owner: Seq<char>,
    ib: ImplBlock,
    f: FunDecl,
    key: NativeKey,
) -> bool {
    match ib.aspect_name {
        Some(aspect) => exists|k: int|
            0 <= k < reg.aspects.len() && (#[trigger] reg.aspects[k]).owner == owner
                && reg.aspects[k].aspect == aspect@ && reg.aspects[k].type_args == type_exprs_view(
                ib.aspect_type_args@,
            ) && reg.aspects[k].name == f.name@ && stands_for(reg.aspects[k].method, f, key),
        None => if f.params@.len() > 0 && f.params@[0].receiver is Some {
            owns(reg.inherent, owner, f, key)
        } else {
            owns(reg.type_values, owner, f, key)
        },
    }
}

/// Whether a list has a native method under its type and its name.
pub open spec fn owns(s: Seq<OwnedMethodV>, owner: Seq<char>, f: FunDecl, key: NativeKey) -> bool {
    exists|k: int|
        0 <= k < s.len() && (#[trigger] s[k]).owner == owner && s[k].name == f.name@ && stands_for(
            s[k].method,
            f,
            key,
        )
}

proof fn lemma_still_provided(
    a: RuntimeRegistryV,
    b: RuntimeRegistryV,
    owner: Seq<char>,
    ib: ImplBlock,
    f: FunDecl,
    key: NativeKey,
)
    requires
        grown(a, b),
        provided(a, owner, ib, f, key),
    ensures
        provided(b, owner, ib, f, key),
{
    match ib.aspect_name {
        Some(aspect) => {
            let k = choose|k: int|
                0 <= k < a.aspects.len() && (#[trigger] a.aspects[k]).owner == owner
                    && a.aspects[k].aspect == aspect@ && a.aspects[k].type_args == type_exprs_view(
                    ib.aspect_type_args@,
                ) && a.aspects[k].name == f.name@ && stands_for(a.aspects[k].method, f, key);
            assert(b.aspects[k] == a.aspects[k]);
        },
        None => {
            if f.params@.len() > 0 && f.params@[0].receiver is Some {
                lemma_still_owned(a.inherent, b.inherent, owner, f, key);
            } else {
                lemma_still_owned(a.type_values, b.type_values, owner, f, key);
            }
        },
    }
}

proof fn lemma_still_owned(
    a: Seq<OwnedMethodV>,
    b: Seq<OwnedMethodV>,
    owner: Seq<char>,
    f: FunDecl,
    key: NativeKey,
)
    requires
        a.is_prefix_of(b),
        owns(a, owner, f, key),
    ensures
        owns(b, owner, f, key),
{
    let k = choose|k: int|
        0 <= k < a.len() && (#[trigger] a[k]).owner == owner && a[k].name == f.name@ && stands_for(
            a[k].method,
            f,
            key,
        );
    assert(b[k] == a[k]);
}

/// Every native method of an impl of `std::core` is provided for the type of the impl, as it is
/// declared.
pub proof fn law_native_methods_are_provided(
    reg: RuntimeRegistryV,
    core: Seq<Decl>,
    i: int,
    j: int,
    owner: String,
    args: Vec<TypeExpr>,
    key: NativeKey,
)
    requires
        0 <= i < core.len(),
        core[i] matches Decl::Impl(ib) && ib.target_type == TypeExpr::Named(owner, args) && 0 <= j
            < ib.methods@.len() && names_native(ib.methods@[j], key),
    ensures
        provided(
            with_builtins(reg, core),
            owner@,
            core[i]->Impl_0,
            core[i]->Impl_0.methods@[j],
            key,
        ),
{
    let ib = core[i]->Impl_0;
    let f = ib.methods@[j];
    let before = with_core(reg, core, i);
    let after = with_core(reg, core, i + 1);
    let n = ib.methods@.len() as int;
    assert(after == with_core_decl(before, core[i]));
    assert(after == with_methods(before, owner@, ib, n));
    let short = with_methods(before, owner@, ib, j);
    let long = with_methods(before, owner@, ib, j + 1);
    assert(long == with_method(short, owner@, ib, f));
    lemma_stands(owner@, f, key);
    match ib.aspect_name {
        Some(_) => {
            assert(long.aspects[short.aspects.len() as int].method == native_method(owner@, f, key));
        },
        None => {
            if f.params@.len() > 0 && f.params@[0].receiver is Some {
                assert(long.inherent[short.inherent.len() as int].method == native_method(
                    owner@,
                    f,
                    key,
                ));
            } else {
                assert(long.type_values[short.type_values.len() as int].method == native_method(
                    owner@,
                    f,
                    key,
                ));
            }
        },
    }
    assert(provided(long, owner@, ib, f, key));
    lemma_methods_grow(before, owner@, ib, j + 1, n);
    lemma_still_provided(long, after, owner@, ib, f, key);
    lemma_built_grows(reg, core, i + 1);
    lemma_still_provided(after, with_builtins(reg, core), owner@, ib, f, key);
}

/// A declaration that names no native function provides nothing.
pub proof fn law_other_functions_provide_nothing(reg: RuntimeRegistryV, d: Decl)
    requires
        match d {
            Decl::Fun(f) => f.native is None,
            Decl::Impl(ib) => forall|i: int|
                0 <= i < ib.methods@.len() ==> (#[trigger] ib.methods@[i]).native is None,
            _ => true,
        },
    ensures
        with_core_decl(reg, d) == reg,
{
    if let Decl::Impl(ib) = d {
        if let TypeExpr::Named(owner, _) = ib.target_type {
            lemma_no_methods(reg, owner@, ib, ib.methods@.len() as int);
        }
    }
}

proof fn lemma_no_methods(reg: RuntimeRegistryV, owner: Seq<char>, ib: ImplBlock, k: int)
    requires
        0 <= k <= ib.methods@.len(),
        forall|i: int| 0 <= i < ib.methods@.len() ==> (#[trigger] ib.methods@[i]).native is None,
    ensures
        with_methods(reg, owner, ib, k) == reg,
    decreases k,
{
    if k > 0 {
        lemma_no_methods(reg, owner, ib, k - 1);
        assert(ib.methods@[k - 1].native is None);
    }
}

/// Whether a list has a method of `List` under a name, with its receiver and the function it runs.
pub open spec fn lists(
    s: Seq<OwnedMethodV>,
    name: Seq<char>,
    receiver: Option<ReceiverKind>,
    key: NativeKey,
) -> bool {
    exists|k: int|
        0 <= k < s.len() && (#[trigger] s[k]).owner == "List"@ && s[k].name == name
            && s[k].method.receiver == receiver && runs(s[k].method.body, key)
}

/// Lists are made by functions of the type, and used through methods: those that change one take it
/// by `&var`, the others take it by value.
pub proof fn law_lists_are_built_in(reg: RuntimeRegistryV, core: Seq<Decl>)
    ensures
        lists(with_builtins(reg, core).type_values, "new"@, None, NativeKey::StdCoreListNew),
        lists(with_builtins(reg, core).type_values, "from"@, None, NativeKey::StdCoreListFrom),
        lists(
            with_builtins(reg, core).inherent,
            "push"@,
            Some(ReceiverKind::RefMut),
            NativeKey::StdCoreListPush,
        ),
        lists(
            with_builtins(reg, core).inherent,
            "pop"@,
            Some(ReceiverKind::RefMut),
            NativeKey::StdCoreListPop,
        ),
        lists(
            with_builtins(reg, core).inherent,
            "len"@,
            Some(ReceiverKind::Value),
            NativeKey::StdCoreListLen,
        ),
        lists(
            with_builtins(reg, core).inherent,
            "get"@,
            Some(ReceiverKind::Value),
            NativeKey::StdCoreListGet,
        ),
        lists(
            with_builtins(reg, core).inherent,
            "as_slice"@,
            Some(ReceiverKind::Value),
            NativeKey::StdCoreListAsSlice,
        ),
{
    let before = with_core(reg, core, core.len() as int);
    let t = with_builtins(reg, core).type_values;
    let h = with_builtins(reg, core).inherent;
    let n = before.type_values.len() as int;
    let m = before.inherent.len() as int;
    assert(t[n].name == "new"@);
    assert(t[n + 1].name == "from"@);
    assert(h[m].name == "push"@);
    assert(h[m + 1].name == "pop"@);
    assert(h[m + 2].name == "len"@);
    assert(h[m + 3].name == "get"@);
    assert(h[m + 4].name == "as_slice"@);
}

/// Whether a list has a `len` for a kind of value, which takes it by value and runs a function.
pub open spec fn measures(s: Seq<PatternMethodV>, pattern: RuntimeTypePattern, fun: Builtin) -> bool {
    exists|k: int|
        0 <= k < s.len() && (#[trigger] s[k]).pattern == pattern && s[k].name == "len"@
            && s[k].method.receiver == Some(ReceiverKind::Value) && (
        s[k].method.body matches RuntimeCallableV::Intrinsic { fun: f, .. } && f == fun)
}

/// Strings and arrays have a length, each its own.
pub proof fn law_lengths_are_built_in(reg: RuntimeRegistryV, core: Seq<Decl>)
    ensures
        measures(with_builtins(reg, core).patterns, RuntimeTypePattern::Str, Builtin::StringLen),
        measures(with_builtins(reg, core).patterns, RuntimeTypePattern::Array, Builtin::ArrayLen),
{
    let n = with_core(reg, core, core.len() as int).patterns.len() as int;
    let s = with_builtins(reg, core).patterns;
    assert(s[n].name == "len"@);
    assert(s[n + 1].name == "len"@);
}

} // verus!
