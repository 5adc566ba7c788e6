//! What loading promises.
use vstd::prelude::*;
use crate::ast::ImportDecl;
use crate::module_loader::{advanced, entered, first_found, frame_of, import_base, import_names};
use crate::module_loader::{import_taken, imports_left};
use crate::module_loader::{in_std, module_done, module_of, stepped, Event, FileV, FrameV, LoaderV};
use crate::module_loader::{ModuleV, WaitingV};

verus! {

/// Whether every file is known once: it is loaded, or its imports are being followed, or it is
/// about to be read.
pub open spec fn files_apart(st: LoaderV) -> bool {
    &&& forall|i: int, j: int|
        0 <= i < j < st.frames.len() ==> (#[trigger] st.frames[i]).info.file != (
        #[trigger] st.frames[j]).info.file
    &&& forall|i: int, j: int|
        0 <= i < j < st.modules.len() ==> (#[trigger] st.modules[i]).file != (
        #[trigger] st.modules[j]).file
    &&& forall|i: int, j: int|
        0 <= i < st.frames.len() && 0 <= j < st.modules.len() ==> (
        #[trigger] st.frames[i]).info.file != (#[trigger] st.modules[j]).file
    &&& match st.waiting {
        WaitingV::Source { info, .. } => unknown(st, info.file),
        _ => true,
    }
}

/// Whether a file is neither loaded nor under way.
pub open spec fn unknown(st: LoaderV, file: Seq<char>) -> bool {
    &&& forall|i: int| 0 <= i < st.frames.len() ==> (#[trigger] st.frames[i]).info.file != file
    &&& forall|i: int| 0 <= i < st.modules.len() ==> (#[trigger] st.modules[i]).file != file
}

/// Whether no module past the first `n` lies in the namespace of the standard library, nor one
/// that is under way.
pub open spec fn std_reserved(st: LoaderV, n: int) -> bool {
    &&& forall|i: int| n <= i < st.modules.len() ==> !in_std((#[trigger] st.modules[i]).path)
    &&& forall|i: int| 0 <= i < st.frames.len() ==> !in_std((#[trigger] st.frames[i]).path)
    &&& match st.waiting {
        WaitingV::Source { path, .. } => !in_std(path),
        _ => true,
    }
}

/// Whether every further path stands for the path of a loaded module.
pub open spec fn aliases_lead(st: LoaderV) -> bool {
    forall|a: Seq<Seq<char>>|
        #[trigger] st.aliases.dom().contains(a) ==> has_path(st.modules, st.aliases[a])
}

/// Whether a module has a path.
pub open spec fn has_path(s: Seq<ModuleV>, path: Seq<Seq<char>>) -> bool {
    exists|i: int| 0 <= i < s.len() && (#[trigger] s[i]).path == path
}

/// What holds of the loader at all times: no file is known twice, the first `n` modules alone may
/// lie in the namespace of the standard library, and further paths lead to loaded modules.
pub open spec fn orderly(st: LoaderV, n: int) -> bool {
    0 <= n <= st.modules.len() && files_apart(st) && std_reserved(st, n) && aliases_lead(st)
}

proof fn lemma_no_frame(s: Seq<FrameV>, file: Seq<char>, i: int)
    requires
        0 <= i,
        frame_of(s, file, i) is None,
    ensures
        forall|k: int| i <= k < s.len() ==> (#[trigger] s[k]).info.file != file,
    decreases s.len() - i,
{
    if i < s.len() {
        lemma_no_frame(s, file, i + 1);
    }
}

proof fn lemma_module_of(s: Seq<ModuleV>, file: Seq<char>, i: int)
    requires
        0 <= i,
    ensures
        match module_of(s, file, i) {
            None => forall|k: int| i <= k < s.len() ==> (#[trigger] s[k]).file != file,
            Some(m) => has_path(s, m.path),
        },
    decreases s.len() - i,
{
    if i < s.len() {
        if s[i].file == file {
            assert(s[i].path == s[i].path);
        } else {
            lemma_module_of(s, file, i + 1);
        }
    }
}

proof fn lemma_module_done(st: LoaderV, n: int)
    requires
        orderly(st, n),
        st.waiting is Nothing,
        st.frames.len() > 0,
    ensures
        orderly(module_done(st), n),
{
    let after = module_done(st);
    let top = st.frames.last();
    assert(top == st.frames[st.frames.len() - 1]);
    assert forall|i: int, j: int| 0 <= i < j < after.modules.len() implies (
    #[trigger] after.modules[i]).file != (#[trigger] after.modules[j]).file by {
        if j == st.modules.len() {
            assert(st.frames[st.frames.len() - 1].info.file != st.modules[i].file);
        }
    }
    assert forall|i: int, j: int|
        0 <= i < after.frames.len() && 0 <= j < after.modules.len() implies (
    #[trigger] after.frames[i]).info.file != (#[trigger] after.modules[j]).file by {
        assert(after.frames[i] == st.frames[i]);
        if j == st.modules.len() {
            assert(st.frames[i].info.file != st.frames[st.frames.len() - 1].info.file);
        }
    }
    assert forall|a: Seq<Seq<char>>| #[trigger] after.aliases.dom().contains(a) implies has_path(
        after.modules,
        after.aliases[a],
    ) by {
        assert(st.aliases.dom().contains(a));
        let i = choose|i: int|
            0 <= i < st.modules.len() && (#[trigger] st.modules[i]).path == st.aliases[a];
        assert(after.modules[i].path == after.aliases[a]);
    }
}

proof fn lemma_advanced(st: LoaderV, n: int)
    requires
        orderly(st, n),
        st.waiting is Nothing,
    ensures
        orderly(advanced(st).st, n),
        advanced(st).out is Ok,
    decreases st.frames.len(), imports_left(st),
{
    if st.frames.len() > 0 {
        let top = st.frames.last();
        assert(top == st.frames[st.frames.len() - 1]);
        if top.next < 0 || top.next >= top.program.imports@.len() {
            lemma_module_done(st, n);
            lemma_advanced(module_done(st), n);
        } else {
            let after = import_taken(st);
            assert(after.frames.len() == st.frames.len());
            assert forall|i: int| 0 <= i < after.frames.len() implies (
            #[trigger] after.frames[i]).info == st.frames[i].info && after.frames[i].path
                == st.frames[i].path by {}
            assert(orderly(after, n));
            match import_names(top.program.imports@[top.next]) {
                None => lemma_advanced(after, n),
                Some(_) => {},
            }
        }
    }
}

proof fn lemma_entered(st: LoaderV, info: FileV, path: Seq<Seq<char>>, n: int)
    requires
        orderly(st, n),
        st.waiting is Nothing,
    ensures
        entered(st, info, path).out is Ok ==> orderly(entered(st, info, path).st, n),
{
    if frame_of(st.frames, info.file, 0) is None {
        lemma_no_frame(st.frames, info.file, 0);
        lemma_module_of(st.modules, info.file, 0);
        match module_of(st.modules, info.file, 0) {
            Some(m) => {
                let after = if m.path == path {
                    st
                } else {
                    LoaderV { aliases: st.aliases.insert(path, m.path), ..st }
                };
                assert(orderly(after, n));
                lemma_advanced(after, n);
            },
            None => {},
        }
    }
}

/// Whatever the loader is told, it stays orderly: it never loads a file twice, a user module never
/// gets into the namespace of the standard library, and a further path always leads to a module
/// that is loaded.
pub proof fn law_loading_is_orderly(st: LoaderV, ev: Event, n: int)
    requires
        orderly(st, n),
        stepped(st, ev).out is Ok,
    ensures
        orderly(stepped(st, ev).st, n),
{
    let rest = LoaderV { waiting: WaitingV::Nothing, ..st };
    assert(orderly(rest, n));
    match (st.waiting, ev) {
        (WaitingV::Source { info, path }, Event::Parsed(program)) => {
            let after = LoaderV {
                frames: rest.frames.push(FrameV { info, path, program, next: 0 }),
                ..rest
            };
            assert(orderly(after, n));
            lemma_advanced(after, n);
        },
        (WaitingV::Place { path }, Event::Located(info)) => lemma_entered(rest, info@, path, n),
        _ => {},
    }
}

/// Once nothing is left to find out, no module is left under way.
pub proof fn law_finished_means_loaded(st: LoaderV, ev: Event)
    requires
        stepped(st, ev).out == Ok::<
            crate::module_loader::ActionV,
            crate::error::MetelErrorV,
        >(crate::module_loader::ActionV::Finished),
    ensures
        stepped(st, ev).st.frames.len() == 0,
{
    let rest = LoaderV { waiting: WaitingV::Nothing, ..st };
    match (st.waiting, ev) {
        (WaitingV::Source { info, path }, Event::Parsed(program)) => {
            lemma_finished(
                LoaderV {
                    frames: rest.frames.push(FrameV { info, path, program, next: 0 }),
                    ..rest
                },
            );
        },
        (WaitingV::Place { path }, Event::Located(info)) => {
            if frame_of(rest.frames, info@.file, 0) is None {
                match module_of(rest.modules, info@.file, 0) {
                    Some(m) => lemma_finished(
                        if m.path == path {
                            rest
                        } else {
                            LoaderV { aliases: rest.aliases.insert(path, m.path), ..rest }
                        },
                    ),
                    None => {},
                }
            }
        },
        _ => {},
    }
}

proof fn lemma_finished(st: LoaderV)
    ensures
        advanced(st).out == Ok::<
            crate::module_loader::ActionV,
            crate::error::MetelErrorV,
        >(crate::module_loader::ActionV::Finished) ==> advanced(st).st.frames.len() == 0,
    decreases st.frames.len(), imports_left(st),
{
    if st.frames.len() > 0 {
        let top = st.frames.last();
        if top.next < 0 || top.next >= top.program.imports@.len() {
            lemma_finished(module_done(st));
        } else {
            match import_names(top.program.imports@[top.next]) {
                None => lemma_finished(import_taken(st)),
                Some(_) => {},
            }
        }
    }
}

/// Whether a path stands for one of the first `k` modules, by itself or as a further path.
pub open spec fn path_loaded(
    s: Seq<ModuleV>,
    aliases: Map<Seq<Seq<char>>, Seq<Seq<char>>>,
    path: Seq<Seq<char>>,
    k: int,
) -> bool {
    exists|j: int|
        0 <= j < k && j < s.len() && ((#[trigger] s[j]).path == path || (aliases.dom().contains(
            path,
        ) && aliases[path] == s[j].path))
}

/// Whether an import of a module may mean a path: that of as many of its names as there are, or of
/// fewer.
pub open spec fn may_mean(x: ImportDecl, from: Seq<Seq<char>>, path: Seq<Seq<char>>) -> bool {
    import_names(x) is Some && names_path(x, from, import_names(x)->0, path)
}

/// Whether an import of a module with these names may mean a path.
pub open spec fn names_path(
    x: ImportDecl,
    from: Seq<Seq<char>>,
    segs: Seq<Seq<char>>,
    path: Seq<Seq<char>>,
) -> bool {
    exists|i: int| 0 <= i < segs.len() && #[trigger] named_path(x, from, segs, i) == path
}

/// The path that an import of a module means without its last `i` names.
pub open spec fn named_path(
    x: ImportDecl,
    from: Seq<Seq<char>>,
    segs: Seq<Seq<char>>,
    i: int,
) -> Seq<Seq<char>> {
    import_base(from, x.path.root) + segs.take(segs.len() - i)
}

/// Whether what an import of a module means is among the first `k` modules. An import that names
/// no file means nothing.
pub open spec fn import_loaded(st: LoaderV, from: Seq<Seq<char>>, x: ImportDecl, k: int) -> bool {
    import_names(x) is Some ==> exists|path: Seq<Seq<char>>| #[trigger]
        may_mean(x, from, path) && path_loaded(st.modules, st.aliases, path, k)
}

/// [`import_loaded`] for the first `upto` imports.
pub open spec fn imports_loaded(
    st: LoaderV,
    from: Seq<Seq<char>>,
    s: Seq<ImportDecl>,
    upto: int,
    k: int,
) -> bool {
    forall|i: int| 0 <= i < upto && i < s.len() ==> import_loaded(st, from, #[trigger] s[i], k)
}

/// Whether every module past the first `n` stands behind those that it imports.
pub open spec fn imports_first(st: LoaderV, n: int) -> bool {
    forall|k: int|
        0 <= k && n <= k < st.modules.len() ==> imports_loaded(
            st,
            (#[trigger] st.modules[k]).path,
            st.modules[k].program.imports@,
            st.modules[k].program.imports@.len() as int,
            k,
        )
}

/// Whether a frame is about to follow an import that may mean a path, and has followed those
/// before it.
pub open spec fn awaits(st: LoaderV, f: FrameV, path: Seq<Seq<char>>) -> bool {
    let s = f.program.imports@;
    &&& 1 <= f.next <= s.len()
    &&& imports_loaded(st, f.path, s, f.next - 1, st.modules.len() as int)
    &&& may_mean(s[f.next - 1], f.path, path)
}

/// Whether the innermost frame is as far as what the loader waits for tells.
pub open spec fn on_the_way(st: LoaderV, f: FrameV) -> bool {
    let s = f.program.imports@;
    match st.waiting {
        WaitingV::Nothing => 0 <= f.next <= s.len() && imports_loaded(
            st,
            f.path,
            s,
            f.next as int,
            st.modules.len() as int,
        ),
        WaitingV::Choice { segs, base, .. } => {
            &&& 1 <= f.next <= s.len()
            &&& imports_loaded(st, f.path, s, f.next - 1, st.modules.len() as int)
            &&& import_names(s[f.next - 1]) == Some(segs)
            &&& base == import_base(f.path, s[f.next - 1].path.root)
        },
        WaitingV::Place { path } => awaits(st, f, path),
        WaitingV::Source { path, .. } => awaits(st, f, path),
    }
}

/// What holds of the loader at all times: every module past the first `n` stands behind those that
/// it imports, and every module under way is followed by the one that its current import means.
pub open spec fn followed(st: LoaderV, n: int) -> bool {
    &&& imports_first(st, n)
    &&& forall|d: int|
        0 <= d < st.frames.len() - 1 ==> awaits(
            st,
            #[trigger] st.frames[d],
            st.frames[d + 1].path,
        )
    &&& st.frames.len() > 0 ==> on_the_way(st, st.frames.last())
}

/// Whether a path is located in one file: where it is a further path already, it leads to the
/// module of that file.
pub open spec fn located_alike(st: LoaderV, ev: Event) -> bool {
    match (st.waiting, ev) {
        (WaitingV::Place { path }, Event::Located(info)) => st.aliases.dom().contains(path) ==> (
        module_of(st.modules, info@.file, 0) matches Some(m) ==> m.path == st.aliases[path]),
        _ => true,
    }
}

/// A loader that knows more: the modules that another knows come first, and its further paths lead
/// where they led.
spec fn knows_more(b: LoaderV, a: LoaderV) -> bool {
    &&& a.modules.len() <= b.modules.len()
    &&& forall|i: int| 0 <= i < a.modules.len() ==> #[trigger] b.modules[i] == a.modules[i]
    &&& forall|p: Seq<Seq<char>>| #[trigger]
        a.aliases.dom().contains(p) ==> b.aliases.dom().contains(p) && b.aliases[p] == a.aliases[p]
}

proof fn lemma_path_stays(a: LoaderV, b: LoaderV, path: Seq<Seq<char>>, k: int, l: int)
    requires
        knows_more(b, a),
        path_loaded(a.modules, a.aliases, path, k),
        k <= l,
    ensures
        path_loaded(b.modules, b.aliases, path, l),
{
    let j = choose|j: int|
        0 <= j < k && j < a.modules.len() && ((#[trigger] a.modules[j]).path == path || (
        a.aliases.dom().contains(path) && a.aliases[path] == a.modules[j].path));
    assert(b.modules[j] == a.modules[j]);
}

proof fn lemma_imports_stay(
    a: LoaderV,
    b: LoaderV,
    from: Seq<Seq<char>>,
    s: Seq<ImportDecl>,
    upto: int,
    k: int,
    l: int,
)
    requires
        knows_more(b, a),
        imports_loaded(a, from, s, upto, k),
        k <= l,
    ensures
        imports_loaded(b, from, s, upto, l),
{
    assert forall|i: int| 0 <= i < upto && i < s.len() implies import_loaded(
        b,
        from,
        #[trigger] s[i],
        l,
    ) by {
        assert(import_loaded(a, from, s[i], k));
        if import_names(s[i]) is Some {
            let path = choose|path: Seq<Seq<char>>| #[trigger]
                may_mean(s[i], from, path) && path_loaded(a.modules, a.aliases, path, k);
            lemma_path_stays(a, b, path, k, l);
        }
    }
}

proof fn lemma_order_stays(a: LoaderV, b: LoaderV, n: int)
    requires
        knows_more(b, a),
        a.modules.len() == b.modules.len(),
        imports_first(a, n),
    ensures
        imports_first(b, n),
{
    assert forall|k: int| 0 <= k && n <= k < b.modules.len() implies imports_loaded(
        b,
        (#[trigger] b.modules[k]).path,
        b.modules[k].program.imports@,
        b.modules[k].program.imports@.len() as int,
        k,
    ) by {
        assert(b.modules[k] == a.modules[k]);
        let m = a.modules[k];
        lemma_imports_stay(a, b, m.path, m.program.imports@, m.program.imports@.len() as int, k, k);
    }
}

/// The import that a frame awaits is loaded once what it may mean is.
proof fn lemma_arrived(a: LoaderV, b: LoaderV, f: FrameV, path: Seq<Seq<char>>)
    requires
        awaits(a, f, path),
        knows_more(b, a),
        path_loaded(b.modules, b.aliases, path, b.modules.len() as int),
    ensures
        imports_loaded(
            b,
            f.path,
            f.program.imports@,
            f.next as int,
            b.modules.len() as int,
        ),
{
    let s = f.program.imports@;
    let l = b.modules.len() as int;
    lemma_imports_stay(a, b, f.path, s, f.next - 1, a.modules.len() as int, l);
    assert forall|i: int| 0 <= i < f.next && i < s.len() implies import_loaded(
        b,
        f.path,
        #[trigger] s[i],
        l,
    ) by {
        if i == f.next - 1 {
            assert(may_mean(s[i], f.path, path));
        }
    }
}

proof fn lemma_waits_on(a: LoaderV, b: LoaderV, f: FrameV, path: Seq<Seq<char>>)
    requires
        awaits(a, f, path),
        knows_more(b, a),
    ensures
        awaits(b, f, path),
{
    lemma_imports_stay(
        a,
        b,
        f.path,
        f.program.imports@,
        f.next - 1,
        a.modules.len() as int,
        b.modules.len() as int,
    );
}

proof fn lemma_done_followed(st: LoaderV, n: int)
    requires
        followed(st, n),
        st.waiting is Nothing,
        st.frames.len() > 0,
        st.frames.last().next >= st.frames.last().program.imports@.len(),
    ensures
        followed(module_done(st), n),
{
    let after = module_done(st);
    let top = st.frames.last();
    let m = st.modules.len() as int;
    assert(knows_more(after, st));
    assert forall|k: int| 0 <= k && n <= k < after.modules.len() implies imports_loaded(
        after,
        (#[trigger] after.modules[k]).path,
        after.modules[k].program.imports@,
        after.modules[k].program.imports@.len() as int,
        k,
    ) by {
        let x = after.modules[k];
        if k < m {
            assert(st.modules[k] == x);
        } else {
            assert(x.path == top.path);
        }
        lemma_imports_stay(st, after, x.path, x.program.imports@, x.program.imports@.len() as int, k, k);
    }
    assert forall|d: int| 0 <= d < after.frames.len() - 1 implies awaits(
        after,
        #[trigger] after.frames[d],
        after.frames[d + 1].path,
    ) by {
        assert(after.frames[d] == st.frames[d]);
        assert(after.frames[d + 1] == st.frames[d + 1]);
        lemma_waits_on(st, after, st.frames[d], st.frames[d + 1].path);
    }
    if after.frames.len() > 0 {
        let d = st.frames.len() - 2;
        let f = st.frames[d];
        assert(after.frames.last() == f);
        assert(st.frames[d + 1] == top);
        assert(awaits(st, f, top.path));
        assert(after.modules[m].path == top.path);
        assert(path_loaded(after.modules, after.aliases, top.path, m + 1));
        lemma_arrived(st, after, f, top.path);
    }
}

proof fn lemma_advanced_followed(st: LoaderV, n: int)
    requires
        followed(st, n),
        st.waiting is Nothing,
    ensures
        followed(advanced(st).st, n),
    decreases st.frames.len(), imports_left(st),
{
    if st.frames.len() > 0 {
        let top = st.frames.last();
        if top.next < 0 || top.next >= top.program.imports@.len() {
            lemma_done_followed(st, n);
            lemma_advanced_followed(module_done(st), n);
        } else {
            let after = import_taken(st);
            let s = top.program.imports@;
            let next = after.frames.last();
            let last = st.frames.len() - 1;
            assert(knows_more(after, st));
            lemma_order_stays(st, after, n);
            lemma_imports_stay(
                st,
                after,
                top.path,
                s,
                top.next as int,
                st.modules.len() as int,
                st.modules.len() as int,
            );
            let x = s[top.next as int];
            let ended = match import_names(x) {
                None => after,
                Some(segs) => LoaderV {
                    waiting: WaitingV::Choice {
                        dir: crate::module_loader::import_dir(st.root_dir, top.info, x.path.root),
                        segs,
                        base: import_base(top.path, x.path.root),
                    },
                    ..after
                },
            };
            assert(knows_more(ended, st));
            lemma_order_stays(st, ended, n);
            lemma_imports_stay(
                st,
                ended,
                top.path,
                s,
                top.next as int,
                st.modules.len() as int,
                st.modules.len() as int,
            );
            assert forall|d: int| 0 <= d < ended.frames.len() - 1 implies awaits(
                ended,
                #[trigger] ended.frames[d],
                ended.frames[d + 1].path,
            ) by {
                assert(ended.frames[d] == st.frames[d]);
                assert(ended.frames[d + 1].path == st.frames[d + 1].path) by {
                    if d + 1 == last {
                        assert(ended.frames[last].path == top.path);
                    } else {
                        assert(ended.frames[d + 1] == st.frames[d + 1]);
                    }
                }
                lemma_waits_on(st, ended, st.frames[d], st.frames[d + 1].path);
            }
            assert(ended.frames.last() == next);
            assert(on_the_way(ended, next)) by {
                if import_names(x) is None {
                    assert forall|i: int| 0 <= i < next.next && i < s.len() implies import_loaded(
                        ended,
                        next.path,
                        #[trigger] s[i],
                        ended.modules.len() as int,
                    ) by {
                        if i == top.next {
                            assert(s[i] == x);
                        }
                    }
                }
            }
            if import_names(x) is None {
                lemma_advanced_followed(after, n);
            }
        }
    }
}

/// Whatever the loader is told, every module stands behind those that it imports, past the first
/// `n`, which were there from the start. A path has to be located in one file each time.
pub proof fn law_imports_are_loaded_first(st: LoaderV, ev: Event, n: int)
    requires
        followed(st, n),
        located_alike(st, ev),
        stepped(st, ev).out is Ok,
    ensures
        followed(stepped(st, ev).st, n),
{
    let rest = LoaderV { waiting: WaitingV::Nothing, ..st };
    let size = st.modules.len() as int;
    match (st.waiting, ev) {
        (WaitingV::Source { info, path }, Event::Parsed(program)) => {
            let fresh = FrameV { info, path, program, next: 0 };
            let after = LoaderV { frames: rest.frames.push(fresh), ..rest };
            assert(knows_more(after, st));
            lemma_order_stays(st, after, n);
            assert forall|d: int| 0 <= d < after.frames.len() - 1 implies awaits(
                after,
                #[trigger] after.frames[d],
                after.frames[d + 1].path,
            ) by {
                assert(after.frames[d] == st.frames[d]);
                if d + 1 == st.frames.len() {
                    assert(st.frames.last() == st.frames[d]);
                    lemma_waits_on(st, after, st.frames[d], path);
                } else {
                    assert(after.frames[d + 1] == st.frames[d + 1]);
                    lemma_waits_on(st, after, st.frames[d], st.frames[d + 1].path);
                }
            }
            assert(after.frames.last() == fresh);
            lemma_advanced_followed(after, n);
        },
        (WaitingV::Choice { segs, base, .. }, Event::Probed(found)) => {
            let i = first_found(found@, segs.len() as int, 0)->0;
            lemma_first_found(found@, segs.len() as int, 0);
            let taken = segs.take(segs.len() - i);
            let after = LoaderV { waiting: WaitingV::Place { path: base + taken }, ..rest };
            lemma_still_followed(st, after, n);
            if st.frames.len() > 0 {
                let top = st.frames.last();
                let s = top.program.imports@;
                let x = s[top.next - 1];
                lemma_imports_stay(st, after, top.path, s, top.next - 1, size, size);
                lemma_means(x, top.path, segs, i);
                assert(base + taken =~= named_path(x, top.path, segs, i));
            }
        },
        (WaitingV::Place { path }, Event::Located(info)) => {
            lemma_module_of(rest.modules, info@.file, 0);
            match module_of(rest.modules, info@.file, 0) {
                Some(m) => {
                    let after = if m.path == path {
                        rest
                    } else {
                        LoaderV { aliases: rest.aliases.insert(path, m.path), ..rest }
                    };
                    assert(knows_more(after, st));
                    let j = choose|j: int|
                        0 <= j < st.modules.len() && (#[trigger] st.modules[j]).path == m.path;
                    assert(after.modules[j].path == m.path);
                    assert(path_loaded(after.modules, after.aliases, path, size));
                    lemma_still_followed(st, after, n);
                    if st.frames.len() > 0 {
                        lemma_arrived(st, after, st.frames.last(), path);
                    }
                    lemma_advanced_followed(after, n);
                },
                None => {
                    let after = LoaderV { waiting: WaitingV::Source { info: info@, path }, ..rest };
                    lemma_still_followed(st, after, n);
                    if st.frames.len() > 0 {
                        lemma_waits_on(st, after, st.frames.last(), path);
                    }
                },
            }
        },
        _ => {},
    }
}

proof fn lemma_means(x: ImportDecl, from: Seq<Seq<char>>, segs: Seq<Seq<char>>, i: int)
    requires
        import_names(x) == Some(segs),
        0 <= i < segs.len(),
    ensures
        may_mean(x, from, named_path(x, from, segs, i)),
{
    let path = named_path(x, from, segs, i);
    assert(0 <= i < segs.len() && named_path(x, from, segs, i) == path);
    assert(names_path(x, from, segs, path));
}

proof fn lemma_first_found(found: Seq<bool>, n: int, i: int)
    requires
        0 <= i,
    ensures
        first_found(found, n, i) matches Some(k) ==> i <= k < n,
    decreases n - i,
{
    if !(i >= n || i >= found.len()) && !found[i] {
        lemma_first_found(found, n, i + 1);
    }
}

/// What does not depend on what the loader waits for stays, where the frames do.
proof fn lemma_still_followed(st: LoaderV, after: LoaderV, n: int)
    requires
        followed(st, n),
        knows_more(after, st),
        after.frames == st.frames,
        after.modules == st.modules,
    ensures
        imports_first(after, n),
        forall|d: int|
            0 <= d < after.frames.len() - 1 ==> awaits(
                after,
                #[trigger] after.frames[d],
                after.frames[d + 1].path,
            ),
{
    lemma_order_stays(st, after, n);
    assert forall|d: int| 0 <= d < after.frames.len() - 1 implies awaits(
        after,
        #[trigger] after.frames[d],
        after.frames[d + 1].path,
    ) by {
        lemma_waits_on(st, after, st.frames[d], st.frames[d + 1].path);
    }
}

/// At the start, before the root was read, this holds: the modules that are there from the start
/// are not looked at.
pub proof fn law_a_new_loader_has_nothing_to_follow(st: LoaderV)
    requires
        st.frames.len() == 0,
    ensures
        followed(st, st.modules.len() as int),
{
}

} // verus!
