//! Finding and loading the modules of a program.
//!
//! Loading starts at a root file and follows imports. What a file holds and where it lies only
//! the file system knows, so the [`Loader`] says what it has to find out next, is told, and
//! decides: which file an import names, whether a module was loaded before, whether modules import
//! one another in a circle, and in which order they are handed on.
use vstd::prelude::*;
use crate::ast::{ImportDecl, ImportTree, PathRoot, Program};
use crate::error::{MetelError, MetelErrorV, ParseErrorCode};
use crate::stdlib::{embedded_source, lookup, EmbeddedModule};
use crate::text::{copy_texts, join_spec, join_texts, joined, joined3, same_text, same_texts, texts};

verus! {

/// Supplies the source of a module: from the file system, from the embedded standard library, or
/// from a buffer that is not saved yet. A provider goes by the path of the module or by the file,
/// whichever it needs.
pub trait SourceProvider {
    fn read(&self, path: &Vec<String>, file_path: &str) -> Result<String, MetelError>;
}

/// Serves the modules of the standard library from sources that are part of the program, and all
/// others through another provider.
pub struct EmbeddedStdlibProvider<'a, P> {
    pub stdlib: &'a Vec<EmbeddedModule>,
    pub inner: P,
}

impl<'a, P: SourceProvider> SourceProvider for EmbeddedStdlibProvider<'a, P> {
    fn read(&self, path: &Vec<String>, file_path: &str) -> (r: Result<String, MetelError>)
        ensures
            match embedded_source(self.stdlib@, texts(path@)) {
                Some(source) => r matches Ok(s) && s@ == source,
                None => call_ensures(P::read, (&self.inner, path, file_path), r),
            },
    {
        match lookup(self.stdlib, path) {
            Some(source) => Ok(source.to_owned()),
            None => self.inner.read(path, file_path),
        }
    }
}

/// A loaded module.
#[derive(Debug)]
pub struct LoadedModule {
    pub path: Vec<String>,
    pub file_path: String,
    pub program: Program,
}

/// A further path under which a module can be reached.
#[derive(Debug)]
pub struct PathAlias {
    pub alias: Vec<String>,
    pub canonical: Vec<String>,
}

/// The modules of a program, each after those that it imports.
#[derive(Debug)]
pub struct ModuleGraph {
    pub root: String,
    pub modules: Vec<LoadedModule>,
    pub path_aliases: Vec<PathAlias>,
}

/// A file under its one true name, the directory that it lies in, and the directory above.
#[derive(Debug)]
pub struct FileInfo {
    pub file: String,
    pub dir: String,
    pub up: String,
}

/// The file that a module may lie in: below a directory, one name after the other, with the
/// extension of source files.
#[derive(Debug)]
pub struct Candidate {
    pub dir: String,
    pub segs: Vec<String>,
}

/// What the loader has to find out next.
#[derive(Debug)]
#[allow(inconsistent_fields)]
pub enum Action {
    /// Read and parse a module.
    Read { path: Vec<String>, file: String },
    /// Find out which of these files exist.
    Probe(Vec<Candidate>),
    /// Find the one true name of a file.
    Locate(Candidate),
    /// Nothing: all modules are loaded.
    Finished,
}

/// What the loader is told.
#[derive(Debug)]
pub enum Event {
    Parsed(Program),
    Probed(Vec<bool>),
    Located(FileInfo),
}

/// A module whose imports are being followed.
#[derive(Debug)]
pub struct Frame {
    pub info: FileInfo,
    pub path: Vec<String>,
    pub program: Program,
    pub next: usize,
}

/// What the loader waits for.
#[derive(Debug)]
#[allow(inconsistent_fields)]
pub enum Waiting {
    Nothing,
    Source { info: FileInfo, path: Vec<String> },
    Choice { dir: String, segs: Vec<String>, base: Vec<String> },
    Place { path: Vec<String> },
}

/// The state of loading.
#[derive(Debug)]
pub struct Loader {
    pub root_dir: String,
    pub modules: Vec<LoadedModule>,
    pub path_aliases: Vec<PathAlias>,
    pub frames: Vec<Frame>,
    pub waiting: Waiting,
}

/// A [`LoadedModule`] as a mathematical object.
pub ghost struct ModuleV {
    pub path: Seq<Seq<char>>,
    pub file: Seq<char>,
    pub program: Program,
}

/// A [`FileInfo`] as a mathematical object.
pub ghost struct FileV {
    pub file: Seq<char>,
    pub dir: Seq<char>,
    pub up: Seq<char>,
}

/// A [`Candidate`] as a mathematical object.
pub ghost struct CandidateV {
    pub dir: Seq<char>,
    pub segs: Seq<Seq<char>>,
}

/// An [`Action`] as a mathematical object.
#[allow(inconsistent_fields)]
pub ghost enum ActionV {
    Read { path: Seq<Seq<char>>, file: Seq<char> },
    Probe(Seq<CandidateV>),
    Locate(CandidateV),
    Finished,
}

/// A [`Frame`] as a mathematical object.
pub ghost struct FrameV {
    pub info: FileV,
    pub path: Seq<Seq<char>>,
    pub program: Program,
    pub next: int,
}

/// A [`Waiting`] as a mathematical object.
#[allow(inconsistent_fields)]
pub ghost enum WaitingV {
    Nothing,
    Source { info: FileV, path: Seq<Seq<char>> },
    Choice { dir: Seq<char>, segs: Seq<Seq<char>>, base: Seq<Seq<char>> },
    Place { path: Seq<Seq<char>> },
}

/// A [`Loader`] as a mathematical object.
pub ghost struct LoaderV {
    pub root_dir: Seq<char>,
    pub modules: Seq<ModuleV>,
    /// What each further path stands for.
    pub aliases: Map<Seq<Seq<char>>, Seq<Seq<char>>>,
    pub frames: Seq<FrameV>,
    pub waiting: WaitingV,
}

impl View for FileInfo {
    type V = FileV;

    open spec fn view(&self) -> FileV {
        FileV { file: self.file@, dir: self.dir@, up: self.up@ }
    }
}

impl View for Candidate {
    type V = CandidateV;

    open spec fn view(&self) -> CandidateV {
        CandidateV { dir: self.dir@, segs: texts(self.segs@) }
    }
}

/// The views of candidates.
pub open spec fn candidates_view(s: Seq<Candidate>) -> Seq<CandidateV> {
    Seq::new(s.len(), |i: int| s[i]@)
}

impl View for Action {
    type V = ActionV;

    open spec fn view(&self) -> ActionV {
        match *self {
            Action::Read { path, file } => ActionV::Read { path: texts(path@), file: file@ },
            Action::Probe(s) => ActionV::Probe(candidates_view(s@)),
            Action::Locate(c) => ActionV::Locate(c@),
            Action::Finished => ActionV::Finished,
        }
    }
}

impl View for Frame {
    type V = FrameV;

    open spec fn view(&self) -> FrameV {
        FrameV {
            info: self.info@,
            path: texts(self.path@),
            program: self.program,
            next: self.next as int,
        }
    }
}

impl View for Waiting {
    type V = WaitingV;

    open spec fn view(&self) -> WaitingV {
        match *self {
            Waiting::Nothing => WaitingV::Nothing,
            Waiting::Source { info, path } => WaitingV::Source {
                info: info@,
                path: texts(path@),
            },
            Waiting::Choice { dir, segs, base } => WaitingV::Choice {
                dir: dir@,
                segs: texts(segs@),
                base: texts(base@),
            },
            Waiting::Place { path } => WaitingV::Place { path: texts(path@) },
        }
    }
}

/// The view of a module.
pub open spec fn module_view(m: LoadedModule) -> ModuleV {
    ModuleV { path: texts(m.path@), file: m.file_path@, program: m.program }
}

/// The views of modules.
pub open spec fn modules_view(s: Seq<LoadedModule>) -> Seq<ModuleV> {
    Seq::new(s.len(), |i: int| module_view(s[i]))
}

/// The views of frames.
pub open spec fn frames_view(s: Seq<Frame>) -> Seq<FrameV> {
    Seq::new(s.len(), |i: int| s[i]@)
}

/// What further paths stand for; of two entries for one path the later.
pub open spec fn aliases_map(s: Seq<PathAlias>) -> Map<Seq<Seq<char>>, Seq<Seq<char>>>
    decreases s.len(),
{
    if s.len() == 0 {
        Map::empty()
    } else {
        aliases_map(s.drop_last()).insert(texts(s.last().alias@), texts(s.last().canonical@))
    }
}

impl View for Loader {
    type V = LoaderV;

    open spec fn view(&self) -> LoaderV {
        LoaderV {
            root_dir: self.root_dir@,
            modules: modules_view(self.modules@),
            aliases: aliases_map(self.path_aliases@),
            frames: frames_view(self.frames@),
            waiting: self.waiting@,
        }
    }
}

/// An error of a module as a whole.
pub open spec fn module_failure(message: Seq<char>, file: Seq<char>) -> MetelErrorV {
    MetelErrorV::ParseError {
        code: ParseErrorCode::P0001,
        message,
        start: 0,
        end: 0,
        filename: file,
        line: 1,
        col: 1,
        source_line: None,
    }
}

/// An error of a module as a whole.
pub fn module_error(message: String, file_path: &str) -> (r: MetelError)
    ensures
        r@ == module_failure(message@, file_path@),
{
    MetelError::ParseError {
        code: ParseErrorCode::P0001,
        message,
        start: 0,
        end: 0,
        filename: file_path.to_owned(),
        line: 1,
        col: 1,
        source_line: None,
    }
}

/// Whether a path lies in the namespace of the standard library.
pub open spec fn in_std(path: Seq<Seq<char>>) -> bool {
    path.len() > 0 && path[0] == "std"@
}

/// The error of a user module in the namespace of the standard library.
pub open spec fn reserved_error(file: Seq<char>) -> MetelErrorV {
    module_failure("module path `std::\u{2026}` is reserved for the standard library"@, file)
}

/// Reject a user module in the namespace of the standard library.
pub fn validate_std_namespace(path: &Vec<String>, file_path: &str) -> (r: Result<(), MetelError>)
    ensures
        in_std(texts(path@)) ==> (r matches Err(e) && e@ == reserved_error(file_path@)),
        !in_std(texts(path@)) ==> r is Ok,
{
    if path.len() > 0 && same_text(path[0].as_str(), "std") {
        assert(texts(path@)[0] == path@[0]@);
        return Err(
            module_error(
                "module path `std::\u{2026}` is reserved for the standard library".to_owned(),
                file_path,
            ),
        );
    }
    Ok(())
}

/// Whether a module goes above itself by one of its imports.
pub open spec fn imports_super(s: Seq<ImportDecl>) -> bool {
    exists|i: int| 0 <= i < s.len() && (#[trigger] s[i]).path.root is Super
}

/// The error of a root module that goes above itself.
pub open spec fn super_error(file: Seq<char>) -> MetelErrorV {
    module_failure("`super::` is invalid from the root module"@, file)
}

/// Reject `super::` in the root module: there is nothing above it.
pub fn validate_super_root(program: &Program, path: &Vec<String>, file_path: &str) -> (r: Result<
    (),
    MetelError,
>)
    ensures
        path@.len() == 0 && imports_super(program.imports@) ==> (r matches Err(e) && e@
            == super_error(file_path@)),
        !(path@.len() == 0 && imports_super(program.imports@)) ==> r is Ok,
{
    if path.len() > 0 {
        return Ok(());
    }
    let mut i: usize = 0;
    while i < program.imports.len()
        invariant
            i <= program.imports@.len(),
            path@.len() == 0,
            forall|k: int| 0 <= k < i ==> !((#[trigger] program.imports@[k]).path.root is Super),
        decreases program.imports@.len() - i,
    {
        if matches!(program.imports[i].path.root, PathRoot::Super) {
            return Err(
                module_error(
                    "`super::` is invalid from the root module".to_owned(),
                    file_path,
                ),
            );
        }
        i += 1;
    }
    Ok(())
}

/// The names that an import spells out below its root, up to a group or a glob.
pub open spec fn tree_segments(t: ImportTree) -> Seq<Seq<char>>
    decreases t,
{
    match t {
        ImportTree::Name { name, .. } => seq![name@],
        ImportTree::Path { name, tree } => seq![name@] + tree_segments(*tree),
        ImportTree::Group(_) => Seq::empty(),
        ImportTree::Glob => Seq::empty(),
    }
}

/// The names that an import spells out below its root, up to a group or a glob.
pub fn import_tree_segments(tree: &ImportTree) -> (r: Vec<String>)
    ensures
        texts(r@) == tree_segments(*tree),
    decreases *tree,
{
    let mut out: Vec<String> = Vec::new();
    assert(texts(out@) =~= Seq::empty());
    match tree {
        ImportTree::Name { name, .. } => {
            out.push(name.clone());
            assert(texts(out@) =~= seq![name@]);
        },
        ImportTree::Path { name, tree } => {
            out.push(name.clone());
            assert(texts(out@) =~= seq![name@]);
            let rest: Vec<String> = import_tree_segments(tree);
            append_texts(&mut out, &rest);
        },
        ImportTree::Group(_) => {},
        ImportTree::Glob => {},
    }
    out
}

fn append_texts(out: &mut Vec<String>, v: &Vec<String>)
    ensures
        texts(final(out)@) == texts(old(out)@) + texts(v@),
{
    let ghost start = texts(out@);
    let ghost whole = texts(v@);
    assert(start + whole.take(0) =~= start);
    let mut i: usize = 0;
    while i < v.len()
        invariant
            i <= v@.len(),
            whole == texts(v@),
            texts(out@) == start + whole.take(i as int),
        decreases v@.len() - i,
    {
        let ghost before = out@;
        out.push(v[i].clone());
        assert(texts(out@) =~= texts(before).push(v@[i as int]@));
        assert(whole.take(i + 1) =~= whole.take(i as int).push(v@[i as int]@));
        assert(start + whole.take(i + 1) =~= (start + whole.take(i as int)).push(v@[i as int]@));
        i += 1;
    }
    assert(whole.take(i as int) =~= whole);
}

/// The names that an import spells out, or `None` where it names no file: an import of the
/// standard library, or one that is all glob or group.
pub open spec fn import_names(x: ImportDecl) -> Option<Seq<Seq<char>>> {
    let rest = tree_segments(x.path.tree);
    match x.path.root {
        PathRoot::Std => None,
        PathRoot::Name(name) => Some(seq![name@] + rest),
        _ => if rest.len() == 0 {
            None
        } else {
            Some(rest)
        },
    }
}

/// The directory in which the file of an import is looked for.
pub open spec fn import_dir(root_dir: Seq<char>, info: FileV, root: PathRoot) -> Seq<char> {
    match root {
        PathRoot::Root => root_dir,
        PathRoot::Super => if info.dir == root_dir {
            root_dir
        } else {
            info.up
        },
        _ => info.dir,
    }
}

/// The path below which an imported module stands. The name that an import may start with is
/// among the names that it spells out.
pub open spec fn import_base(path: Seq<Seq<char>>, root: PathRoot) -> Seq<Seq<char>> {
    match root {
        PathRoot::Std => seq!["std"@],
        PathRoot::Root => Seq::empty(),
        PathRoot::Super => if path.len() == 0 {
            path
        } else {
            path.drop_last()
        },
        PathRoot::Self_ => path,
        PathRoot::Name(_) => path,
    }
}

/// The files that names may stand for: the longest prefix of the names first.
pub open spec fn candidates(dir: Seq<char>, segs: Seq<Seq<char>>) -> Seq<CandidateV> {
    Seq::new(segs.len(), |i: int| CandidateV { dir, segs: segs.take(segs.len() - i) })
}

/// The first file that exists.
pub open spec fn first_found(found: Seq<bool>, n: int, i: int) -> Option<int>
    decreases n - i,
{
    if i < 0 || i >= n || i >= found.len() {
        None
    } else if found[i] {
        Some(i)
    } else {
        first_found(found, n, i + 1)
    }
}

/// Where a file stands among those whose imports are being followed.
pub open spec fn frame_of(s: Seq<FrameV>, file: Seq<char>, i: int) -> Option<int>
    decreases s.len() - i,
{
    if i < 0 || i >= s.len() {
        None
    } else if s[i].info.file == file {
        Some(i)
    } else {
        frame_of(s, file, i + 1)
    }
}

/// The module of a file, from `i` on.
pub open spec fn module_of(s: Seq<ModuleV>, file: Seq<char>, i: int) -> Option<ModuleV>
    decreases s.len() - i,
{
    if i < 0 || i >= s.len() {
        None
    } else if s[i].file == file {
        Some(s[i])
    } else {
        module_of(s, file, i + 1)
    }
}

/// The files of frames.
pub open spec fn frame_files(s: Seq<FrameV>) -> Seq<Seq<char>> {
    Seq::new(s.len(), |i: int| s[i].info.file)
}

/// The error of modules that import one another in a circle.
pub open spec fn cycle_error(s: Seq<FrameV>, start: int, file: Seq<char>) -> MetelErrorV {
    module_failure(
        "circular module dependency: "@ + join_spec(
            frame_files(s).skip(start).push(file),
            " -> "@,
        ),
        file,
    )
}

/// The error of an import whose file does not exist.
pub open spec fn missing_error(segs: Seq<Seq<char>>, file: Seq<char>) -> MetelErrorV {
    module_failure("cannot find module file for `"@ + join_spec(segs, "::"@) + "`"@, file)
}

/// What the loader wants to know next, and its state.
pub ghost struct Outcome {
    pub out: Result<ActionV, MetelErrorV>,
    pub st: LoaderV,
}

/// The innermost frame with its next import taken.
pub open spec fn import_taken(st: LoaderV) -> LoaderV {
    let top = st.frames.last();
    LoaderV {
        frames: st.frames.drop_last().push(FrameV { next: top.next + 1, ..top }),
        ..st
    }
}

/// The state once every import of the innermost module was followed.
pub open spec fn module_done(st: LoaderV) -> LoaderV {
    let top = st.frames.last();
    LoaderV {
        frames: st.frames.drop_last(),
        modules: st.modules.push(
            ModuleV { path: top.path, file: top.info.file, program: top.program },
        ),
        ..st
    }
}

/// How many imports of the innermost module are left.
pub open spec fn imports_left(st: LoaderV) -> int {
    if st.frames.len() == 0 {
        0
    } else {
        let top = st.frames.last();
        let n = top.program.imports@.len();
        if top.next < n {
            n - top.next
        } else {
            0
        }
    }
}

/// Go on with the next import that names a file.
pub open spec fn advanced(st: LoaderV) -> Outcome
    decreases st.frames.len(), imports_left(st),
{
    if st.frames.len() == 0 {
        Outcome { out: Ok(ActionV::Finished), st }
    } else {
        let top = st.frames.last();
        if top.next < 0 || top.next >= top.program.imports@.len() {
            advanced(module_done(st))
        } else {
            let x = top.program.imports@[top.next];
            let st1 = import_taken(st);
            match import_names(x) {
                None => advanced(st1),
                Some(segs) => {
                    let dir = import_dir(st.root_dir, top.info, x.path.root);
                    Outcome {
                        out: Ok(ActionV::Probe(candidates(dir, segs))),
                        st: LoaderV {
                            waiting: WaitingV::Choice {
                                dir,
                                segs,
                                base: import_base(top.path, x.path.root),
                            },
                            ..st1
                        },
                    }
                },
            }
        }
    }
}

/// Go into a module: it may be under way already, or loaded, or has to be read.
pub open spec fn entered(st: LoaderV, info: FileV, path: Seq<Seq<char>>) -> Outcome {
    match frame_of(st.frames, info.file, 0) {
        Some(i) => Outcome { out: Err(cycle_error(st.frames, i, info.file)), st },
        None => match module_of(st.modules, info.file, 0) {
            Some(m) => advanced(
                if m.path == path {
                    st
                } else {
                    LoaderV { aliases: st.aliases.insert(path, m.path), ..st }
                },
            ),
            None => if in_std(path) {
                Outcome { out: Err(reserved_error(info.file)), st }
            } else {
                Outcome {
                    out: Ok(ActionV::Read { path, file: info.file }),
                    st: LoaderV { waiting: WaitingV::Source { info, path }, ..st },
                }
            },
        },
    }
}

/// What follows from what the loader is told.
pub open spec fn stepped(before: LoaderV, ev: Event) -> Outcome {
    let st = LoaderV { waiting: WaitingV::Nothing, ..before };
    match (before.waiting, ev) {
        (WaitingV::Source { info, path }, Event::Parsed(program)) => if path.len() == 0
            && imports_super(program.imports@) {
            Outcome { out: Err(super_error(info.file)), st }
        } else {
            advanced(
                LoaderV {
                    frames: st.frames.push(FrameV { info, path, program, next: 0 }),
                    ..st
                },
            )
        },
        (WaitingV::Choice { dir, segs, base }, Event::Probed(found)) => match first_found(
            found@,
            segs.len() as int,
            0,
        ) {
            None => Outcome {
                out: Err(
                    missing_error(
                        segs,
                        if st.frames.len() == 0 {
                            ""@
                        } else {
                            st.frames.last().info.file
                        },
                    ),
                ),
                st,
            },
            Some(i) => {
                let taken = segs.take(segs.len() - i);
                Outcome {
                    out: Ok(ActionV::Locate(CandidateV { dir, segs: taken })),
                    st: LoaderV { waiting: WaitingV::Place { path: base + taken }, ..st },
                }
            },
        },
        (WaitingV::Place { path }, Event::Located(info)) => entered(st, info@, path),
        _ => Outcome {
            out: Err(MetelErrorV::Internal { message: "module loader: unexpected event"@ }),
            st,
        },
    }
}

fn take_texts(v: &Vec<String>, n: usize) -> (r: Vec<String>)
    requires
        n <= v@.len(),
    ensures
        texts(r@) == texts(v@).take(n as int),
{
    let ghost whole = texts(v@);
    let mut out: Vec<String> = Vec::new();
    let mut i: usize = 0;
    while i < n
        invariant
            i <= n <= v@.len(),
            out@.len() == i,
            forall|k: int| 0 <= k < i ==> (#[trigger] out@[k])@ == v@[k]@,
        decreases n - i,
    {
        out.push(v[i].clone());
        i += 1;
    }
    assert(texts(out@) =~= whole.take(n as int));
    out
}

fn probe_list(dir: &String, segs: &Vec<String>) -> (r: Vec<Candidate>)
    ensures
        candidates_view(r@) == candidates(dir@, texts(segs@)),
{
    let ghost names = texts(segs@);
    let n: usize = segs.len();
    let mut out: Vec<Candidate> = Vec::new();
    let mut i: usize = 0;
    while i < n
        invariant
            i <= n,
            n == segs@.len(),
            names == texts(segs@),
            names.len() == n,
            out@.len() == i,
            forall|k: int|
                0 <= k < i ==> (#[trigger] out@[k])@ == (CandidateV {
                    dir: dir@,
                    segs: names.take(n - k),
                }),
        decreases n - i,
    {
        out.push(Candidate { dir: dir.clone(), segs: take_texts(segs, n - i) });
        i += 1;
    }
    assert(candidates_view(out@) =~= candidates(dir@, names));
    out
}

fn names_of_import(x: &ImportDecl) -> (r: Option<Vec<String>>)
    ensures
        match r {
            Some(s) => import_names(*x) == Some(texts(s@)),
            None => import_names(*x) is None,
        },
{
    if matches!(x.path.root, PathRoot::Std) {
        return None;
    }
    let rest: Vec<String> = import_tree_segments(&x.path.tree);
    assert(texts(rest@).len() == rest@.len());
    match &x.path.root {
        PathRoot::Name(name) => {
            let mut out: Vec<String> = Vec::new();
            out.push(name.clone());
            assert(texts(out@) =~= seq![name@]);
            append_texts(&mut out, &rest);
            Some(out)
        },
        _ => {
            if rest.len() == 0 {
                None
            } else {
                Some(rest)
            }
        },
    }
}

fn base_of_import(path: &Vec<String>, root: &PathRoot) -> (r: Vec<String>)
    ensures
        texts(r@) == import_base(texts(path@), *root),
{
    match root {
        PathRoot::Std => {
            let mut out: Vec<String> = Vec::new();
            out.push("std".to_owned());
            assert(texts(out@) =~= seq!["std"@]);
            out
        },
        PathRoot::Root => {
            let out: Vec<String> = Vec::new();
            assert(texts(out@) =~= Seq::empty());
            out
        },
        PathRoot::Super => {
            assert(texts(path@).len() == path@.len());
            if path.len() == 0 {
                copy_texts(path)
            } else {
                let out: Vec<String> = take_texts(path, path.len() - 1);
                assert(texts(out@) =~= texts(path@).drop_last());
                out
            }
        },
        PathRoot::Self_ => copy_texts(path),
        PathRoot::Name(_) => copy_texts(path),
    }
}

fn pick(found: &Vec<bool>, n: usize) -> (r: Option<usize>)
    ensures
        match r {
            Some(i) => i < n && first_found(found@, n as int, 0) == Some(i as int),
            None => first_found(found@, n as int, 0) is None,
        },
{
    let mut i: usize = 0;
    while i < n && i < found.len()
        invariant
            i <= n,
            i <= found@.len(),
            first_found(found@, n as int, 0) == first_found(found@, n as int, i as int),
        decreases n - i,
    {
        if found[i] {
            return Some(i);
        }
        i += 1;
    }
    None
}

/// The outcome of a step as a mathematical object.
pub open spec fn action_result(r: Result<Action, MetelError>) -> Result<ActionV, MetelErrorV> {
    match r {
        Ok(a) => Ok(a@),
        Err(e) => Err(e@),
    }
}

impl Loader {
    /// A loader that knows the modules of the standard library, and what it has to find out first:
    /// what the root file holds.
    pub fn new(root: FileInfo, embedded: Vec<LoadedModule>) -> (r: (Self, Action))
        ensures
            r.0@ == (LoaderV {
                root_dir: root@.dir,
                modules: modules_view(embedded@),
                aliases: Map::empty(),
                frames: Seq::empty(),
                waiting: WaitingV::Source { info: root@, path: Seq::empty() },
            }),
            r.1@ == (ActionV::Read { path: Seq::empty(), file: root@.file }),
    {
        let none: Vec<String> = Vec::new();
        assert(texts(none@) =~= Seq::empty());
        let path: Vec<String> = Vec::new();
        assert(texts(path@) =~= Seq::empty());
        let action: Action = Action::Read { path: none, file: root.file.clone() };
        let loader: Loader = Loader {
            root_dir: root.dir.clone(),
            modules: embedded,
            path_aliases: Vec::new(),
            frames: Vec::new(),
            waiting: Waiting::Source { info: root, path },
        };
        assert(loader@.frames =~= Seq::empty());
        (loader, action)
    }

    fn find_frame(&self, file: &str) -> (r: Option<usize>)
        ensures
            match r {
                Some(i) => i < self.frames@.len() && frame_of(self@.frames, file@, 0) == Some(
                    i as int,
                ),
                None => frame_of(self@.frames, file@, 0) is None,
            },
    {
        let ghost views = frames_view(self.frames@);
        let mut i: usize = 0;
        while i < self.frames.len()
            invariant
                i <= self.frames@.len(),
                views == frames_view(self.frames@),
                frame_of(views, file@, 0) == frame_of(views, file@, i as int),
            decreases self.frames@.len() - i,
        {
            assert(views[i as int] == self.frames@[i as int]@);
            if same_text(self.frames[i].info.file.as_str(), file) {
                return Some(i);
            }
            i += 1;
        }
        None
    }

    fn find_module(&self, file: &str) -> (r: Option<usize>)
        ensures
            match r {
                Some(i) => i < self.modules@.len() && module_of(self@.modules, file@, 0) == Some(
                    module_view(self.modules@[i as int]),
                ),
                None => module_of(self@.modules, file@, 0) is None,
            },
    {
        let ghost views = modules_view(self.modules@);
        let mut i: usize = 0;
        while i < self.modules.len()
            invariant
                i <= self.modules@.len(),
                views == modules_view(self.modules@),
                module_of(views, file@, 0) == module_of(views, file@, i as int),
            decreases self.modules@.len() - i,
        {
            assert(views[i as int] == module_view(self.modules@[i as int]));
            if same_text(self.modules[i].file_path.as_str(), file) {
                return Some(i);
            }
            i += 1;
        }
        None
    }

    fn cycle(&self, start: usize, file: &String) -> (r: MetelError)
        requires
            start < self.frames@.len(),
        ensures
            r@ == cycle_error(self@.frames, start as int, file@),
    {
        let ghost files = frame_files(self@.frames).skip(start as int);
        let mut chain: Vec<String> = Vec::new();
        let mut i: usize = start;
        while i < self.frames.len()
            invariant
                start <= i <= self.frames@.len(),
                files == frame_files(self@.frames).skip(start as int),
                files.len() == self.frames@.len() - start,
                chain@.len() == i - start,
                forall|k: int| 0 <= k < i - start ==> (#[trigger] chain@[k])@ == files[k],
            decreases self.frames@.len() - i,
        {
            assert(files[i - start] == self.frames@[i as int].info.file@);
            chain.push(self.frames[i].info.file.clone());
            i += 1;
        }
        chain.push(file.clone());
        assert(texts(chain@) =~= files.push(file@));
        let list: String = join_texts(&chain, " -> ");
        module_error(joined("circular module dependency: ", list.as_str()), file.as_str())
    }

    fn advance(&mut self) -> (r: Result<Action, MetelError>)
        ensures
            advanced(old(self)@) == (Outcome { out: action_result(r), st: final(self)@ }),
    {
        let ghost start = self@;
        loop
            invariant
                start == old(self)@,
                advanced(start) == advanced(self@),
            decreases self@.frames.len(), imports_left(self@),
        {
            let ghost st = self@;
            assert(st.frames.len() == self.frames@.len());
            let top: Frame = match self.frames.pop() {
                None => {
                    return Ok(Action::Finished);
                },
                Some(top) => top,
            };
            assert(st.frames.last() == top@);
            assert(frames_view(self.frames@) =~= st.frames.drop_last());
            if top.next >= top.program.imports.len() {
                let ghost before = self.modules@;
                self.modules.push(
                    LoadedModule {
                        path: top.path,
                        file_path: top.info.file,
                        program: top.program,
                    },
                );
                assert(modules_view(self.modules@) =~= st.modules.push(
                    ModuleV {
                        path: st.frames.last().path,
                        file: st.frames.last().info.file,
                        program: st.frames.last().program,
                    },
                ));
                assert(self@ == module_done(st));
            } else {
                let x: &ImportDecl = &top.program.imports[top.next];
                let found: Option<Vec<String>> = names_of_import(x);
                let dir: String = match x.path.root {
                    PathRoot::Root => self.root_dir.clone(),
                    PathRoot::Super => {
                        if same_text(top.info.dir.as_str(), self.root_dir.as_str()) {
                            self.root_dir.clone()
                        } else {
                            top.info.up.clone()
                        }
                    },
                    _ => top.info.dir.clone(),
                };
                let base: Vec<String> = base_of_import(&top.path, &x.path.root);
                let mut top: Frame = top;
                top.next = top.next + 1;
                let ghost tv = top@;
                self.frames.push(top);
                assert(frames_view(self.frames@) =~= st.frames.drop_last().push(tv));
                assert(self@ == import_taken(st));
                if let Some(segs) = found {
                    let list: Vec<Candidate> = probe_list(&dir, &segs);
                    self.waiting = Waiting::Choice { dir, segs, base };
                    return Ok(Action::Probe(list));
                }
            }
        }
    }

    fn enter(&mut self, info: FileInfo, path: Vec<String>) -> (r: Result<Action, MetelError>)
        ensures
            entered(old(self)@, info@, texts(path@)) == (Outcome {
                out: action_result(r),
                st: final(self)@,
            }),
    {
        if let Some(i) = self.find_frame(info.file.as_str()) {
            return Err(self.cycle(i, &info.file));
        }
        if let Some(i) = self.find_module(info.file.as_str()) {
            if !same_texts(&self.modules[i].path, &path) {
                let canonical: Vec<String> = copy_texts(&self.modules[i].path);
                let ghost before = self.path_aliases@;
                self.path_aliases.push(PathAlias { alias: path, canonical });
                assert(self.path_aliases@.drop_last() =~= before);
            }
            return self.advance();
        }
        if let Err(e) = validate_std_namespace(&path, info.file.as_str()) {
            return Err(e);
        }
        let action: Action = Action::Read { path: copy_texts(&path), file: info.file.clone() };
        self.waiting = Waiting::Source { info, path };
        Ok(action)
    }

    fn choose_file(
        &mut self,
        dir: String,
        segs: Vec<String>,
        base: Vec<String>,
        found: Vec<bool>,
    ) -> (r: Result<Action, MetelError>)
        requires
            old(self)@.waiting is Nothing,
        ensures
            stepped(
                LoaderV {
                    waiting: WaitingV::Choice {
                        dir: dir@,
                        segs: texts(segs@),
                        base: texts(base@),
                    },
                    ..old(self)@
                },
                Event::Probed(found),
            ) == (Outcome { out: action_result(r), st: final(self)@ }),
    {
        assert(texts(segs@).len() == segs@.len());
        match pick(&found, segs.len()) {
            None => {
                let list: String = join_texts(&segs, "::");
                let message: String = joined3(
                    "cannot find module file for `",
                    list.as_str(),
                    "`",
                );
                assert(self@.frames.len() == self.frames@.len());
                if self.frames.len() == 0 {
                    return Err(module_error(message, ""));
                }
                assert(self@.frames.last() == self.frames@.last()@);
                Err(module_error(message, self.frames[self.frames.len() - 1].info.file.as_str()))
            },
            Some(i) => {
                let taken: Vec<String> = take_texts(&segs, segs.len() - i);
                let mut path: Vec<String> = base;
                append_texts(&mut path, &taken);
                self.waiting = Waiting::Place { path };
                Ok(Action::Locate(Candidate { dir, segs: taken }))
            },
        }
    }

    /// Tell the loader what it wanted to know; it says what it has to find out next.
    ///
    /// # Errors
    /// A circle of imports, an import without a file, `super::` in the root module, or a user
    /// module in the namespace of the standard library.
    pub fn step(&mut self, event: Event) -> (r: Result<Action, MetelError>)
        ensures
            stepped(old(self)@, event) == (Outcome { out: action_result(r), st: final(self)@ }),
    {
        let mut waiting: Waiting = Waiting::Nothing;
        std::mem::swap(&mut waiting, &mut self.waiting);
        match (waiting, event) {
            (Waiting::Source { info, path }, Event::Parsed(program)) => {
                assert(texts(path@).len() == path@.len());
                if let Err(e) = validate_super_root(&program, &path, info.file.as_str()) {
                    return Err(e);
                }
                let ghost before = self@.frames;
                let frame: Frame = Frame { info, path, program, next: 0 };
                let ghost fv = frame@;
                self.frames.push(frame);
                assert(frames_view(self.frames@) =~= before.push(fv));
                self.advance()
            },
            (Waiting::Choice { dir, segs, base }, Event::Probed(found)) => self.choose_file(
                dir,
                segs,
                base,
                found,
            ),
            (Waiting::Place { path }, Event::Located(info)) => self.enter(info, path),
            _ => Err(MetelError::internal("module loader: unexpected event".to_owned())),
        }
    }

    /// The modules that were loaded.
    pub fn finish(self, root: String) -> (r: ModuleGraph)
        ensures
            r.root@ == root@,
            modules_view(r.modules@) == self@.modules,
            aliases_map(r.path_aliases@) == self@.aliases,
    {
        ModuleGraph { root, modules: self.modules, path_aliases: self.path_aliases }
    }
}

} // verus!
