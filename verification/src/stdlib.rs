//! The sources of the standard library that are part of the program.
use vstd::prelude::*;
use crate::registry::{first_where, lemma_first_where_skip};
use crate::move_check::report::in_embedded_std;
use crate::span::SpanV;
use crate::text::{copy_texts, join_spec, join_texts, joined3, same_texts, texts};

verus! {

/// A module of the standard library with its source.
#[derive(Debug)]
pub struct EmbeddedModule {
    pub path: Vec<String>,
    pub source: String,
}

/// The source of an embedded module.
pub open spec fn embedded_source(table: Seq<EmbeddedModule>, path: Seq<Seq<char>>) -> Option<
    Seq<char>,
> {
    match first_where(table, |m: EmbeddedModule| texts(m.path@) == path) {
        Some(m) => Some(m.source@),
        None => None,
    }
}

/// The source of an embedded module, or `None` where no embedded module has the path.
pub fn lookup<'a>(table: &'a Vec<EmbeddedModule>, path: &Vec<String>) -> (r: Option<&'a str>)
    ensures
        match r {
            Some(s) => embedded_source(table@, texts(path@)) == Some(s@),
            None => embedded_source(table@, texts(path@)) is None,
        },
{
    let ghost want = texts(path@);
    let ghost p = |m: EmbeddedModule| texts(m.path@) == want;
    assert(table@.skip(0) =~= table@);
    let mut i: usize = 0;
    while i < table.len()
        invariant
            i <= table@.len(),
            want == texts(path@),
            p == (|m: EmbeddedModule| texts(m.path@) == want),
            first_where(table@, p) == first_where(table@.skip(i as int), p),
        decreases table@.len() - i,
    {
        proof {
            lemma_first_where_skip(table@, p, i as int);
        }
        if same_texts(&table[i].path, path) {
            return Some(table[i].source.as_str());
        }
        i += 1;
    }
    None
}

/// The paths of the embedded modules, in the order of the table.
pub fn module_paths(table: &Vec<EmbeddedModule>) -> (r: Vec<Vec<String>>)
    ensures
        r@.len() == table@.len(),
        forall|i: int|
            0 <= i < table@.len() ==> texts((#[trigger] r@[i])@) == texts(table@[i].path@),
{
    let mut out: Vec<Vec<String>> = Vec::new();
    let mut i: usize = 0;
    while i < table.len()
        invariant
            i <= table@.len(),
            out@.len() == i,
            forall|k: int|
                0 <= k < i ==> texts((#[trigger] out@[k])@) == texts(table@[k].path@),
        decreases table@.len() - i,
    {
        out.push(copy_texts(&table[i].path));
        i += 1;
    }
    out
}

/// Every embedded module has a source.
pub proof fn law_listed_modules_have_a_source(table: Seq<EmbeddedModule>, i: int)
    requires
        0 <= i < table.len(),
    ensures
        embedded_source(table, texts(table[i].path@)) is Some,
{
    let want = texts(table[i].path@);
    let p = |m: EmbeddedModule| texts(m.path@) == want;
    crate::registry::lemma_first_where(table, p);
    assert(p(table[i]));
}

/// The file name that stands for an embedded module in messages.
pub open spec fn embedded_name(path: Seq<Seq<char>>) -> Seq<char> {
    "<embedded "@ + join_spec(path, "::"@) + ">"@
}

/// The file name that stands for an embedded module in messages.
pub fn embedded_file_name(path: &Vec<String>) -> (r: String)
    ensures
        r@ == embedded_name(texts(path@)),
{
    joined3("<embedded ", join_texts(path, "::").as_str(), ">")
}

proof fn lemma_join_starts_with_first(s: Seq<Seq<char>>, sep: Seq<char>)
    requires
        s.len() > 1,
    ensures
        (s[0] + sep).is_prefix_of(join_spec(s, sep)),
    decreases s.len(),
{
    let front = s.drop_last();
    if s.len() == 2 {
        assert(join_spec(front, sep) == s[0]);
        assert(join_spec(s, sep).take((s[0] + sep).len() as int) =~= s[0] + sep);
    } else {
        lemma_join_starts_with_first(front, sep);
        assert(front[0] == s[0]);
        let head = join_spec(front, sep);
        assert(head.take((s[0] + sep).len() as int) =~= s[0] + sep);
        assert(join_spec(s, sep).take((s[0] + sep).len() as int) =~= head.take(
            (s[0] + sep).len() as int,
        ));
    }
}

/// A location in an embedded module of the standard library is recognised as such by its file
/// name.
pub proof fn law_embedded_modules_are_recognised(path: Seq<Seq<char>>, span: SpanV)
    requires
        path.len() > 1,
        path[0] == "std"@,
        span.filename == embedded_name(path),
    ensures
        in_embedded_std(span),
{
    reveal_strlit("<embedded ");
    reveal_strlit("<embedded std::");
    reveal_strlit("std");
    reveal_strlit("::");
    lemma_join_starts_with_first(path, "::"@);
    let joined = join_spec(path, "::"@);
    assert(joined.take(5) =~= "std"@ + "::"@);
    let name = embedded_name(path);
    assert(name.take(15) =~= "<embedded std::"@) by {
        assert forall|i: int| 0 <= i < 15 implies name.take(15)[i] == "<embedded std::"@[i] by {
            if i >= 10 {
                assert(name[i] == joined[i - 10]);
                assert(joined.take(5)[i - 10] == joined[i - 10]);
            }
        }
    }
}

} // verus!
