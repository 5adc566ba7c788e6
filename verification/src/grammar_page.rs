//! The page of the language reference that shows the grammar.
use vstd::prelude::*;
use crate::grammar_doc::{alternatives, body_of, omitted_ref, opt_fault, rules_view};
use crate::grammar_doc::{unknown_rule, Entry, Grammar, GrammarExprV, GrammarRule, GrammarV};
use crate::grammar_doc::{Mode, Place};
use crate::text::{has_text, joined3, same_text, texts};

verus! {

/// Why there is no page.
#[derive(Debug)]
pub enum PageError {
    /// An entry that cannot be followed.
    Broken(String),
    /// Rules without entries, and entries without rules.
    Mismatch(Vec<String>),
}

/// A [`PageError`] as a mathematical object.
pub ghost enum PageErrorV {
    Broken(Seq<char>),
    Mismatch(Seq<Seq<char>>),
}

impl View for PageError {
    type V = PageErrorV;

    open spec fn view(&self) -> PageErrorV {
        match *self {
            PageError::Broken(m) => PageErrorV::Broken(m@),
            PageError::Mismatch(v) => PageErrorV::Mismatch(texts(v@)),
        }
    }
}

/// Whether one of the first `k` entries is that of a rule.
pub open spec fn entry_before(s: Seq<Entry>, rule: Seq<char>, k: int) -> bool {
    exists|i: int| 0 <= i < k && i < s.len() && (#[trigger] s[i]).rule@ == rule
}

/// The first of the first `k` entries that repeats an earlier one.
pub open spec fn repeated(s: Seq<Entry>, k: int) -> Option<Seq<char>>
    decreases k,
{
    if k <= 0 || k > s.len() {
        None
    } else {
        match repeated(s, k - 1) {
            Some(r) => Some(r),
            None => if entry_before(s, s[k - 1].rule@, k - 1) {
                Some(s[k - 1].rule@)
            } else {
                None
            },
        }
    }
}

/// Whether a rule exists.
pub open spec fn rule_exists(s: Seq<(Seq<char>, GrammarExprV)>, rule: Seq<char>) -> bool {
    exists|i: int| 0 <= i < s.len() && (#[trigger] s[i]).0 == rule
}

/// What is said of those of the first `k` rules that have no entry.
pub open spec fn rules_without(g: GrammarV, k: int) -> Seq<Seq<char>>
    decreases k,
{
    if k <= 0 || k > g.rules.len() {
        Seq::empty()
    } else {
        let before = rules_without(g, k - 1);
        let name = g.rules[k - 1].0;
        if entry_before(g.entries, name, g.entries.len() as int) {
            before
        } else {
            before.push("grammar.pest rule `"@ + name + "` has no grammar-doc.toml entry"@)
        }
    }
}

/// What is said of those of the first `k` entries whose rule does not exist.
pub open spec fn entries_without(g: GrammarV, k: int) -> Seq<Seq<char>>
    decreases k,
{
    if k <= 0 || k > g.entries.len() {
        Seq::empty()
    } else {
        let before = entries_without(g, k - 1);
        let rule = g.entries[k - 1].rule@;
        if rule_exists(g.rules, rule) {
            before
        } else {
            before.push(
                "grammar-doc.toml entry `"@ + rule + "` names a pest rule that doesn't exist"@,
            )
        }
    }
}

/// The sections of the first `k` entries, in the order in which they first appear.
pub open spec fn sections(s: Seq<Entry>, k: int) -> Seq<Seq<char>>
    decreases k,
{
    if k <= 0 || k > s.len() {
        Seq::empty()
    } else {
        let before = sections(s, k - 1);
        match s[k - 1].mode {
            Mode::Named { section, .. } => if before.contains(section@) {
                before
            } else {
                before.push(section@)
            },
            _ => before,
        }
    }
}

/// The first reference from one of the first `k` productions to a rule that does not appear.
pub open spec fn page_fault(g: GrammarV, k: int) -> Option<Seq<char>>
    decreases k,
{
    if k <= 0 || k > g.entries.len() {
        None
    } else {
        match page_fault(g, k - 1) {
            Some(m) => Some(m),
            None => {
                let e = g.entries[k - 1];
                match e.mode {
                    Mode::Named { .. } => match body_of(g.rules, e.rule@) {
                        None => Some(unknown_rule(e.rule@)),
                        Some(body) => omitted_ref(g, body, e.rule@, g.entries.len()),
                    },
                    _ => None,
                }
            },
        }
    }
}

/// The longest name among those of the first `k` entries that stand in a section.
pub open spec fn width(s: Seq<Entry>, section: Seq<char>, k: int) -> nat
    decreases k,
{
    if k <= 0 || k > s.len() {
        0
    } else {
        let before = width(s, section, k - 1);
        match s[k - 1].mode {
            Mode::Named { name, section: own } => if own@ == section && name@.len() > before {
                name@.len()
            } else {
                before
            },
            _ => before,
        }
    }
}

/// Spaces.
pub open spec fn blanks(n: nat) -> Seq<char> {
    Seq::new(n, |i: int| ' ')
}

/// The first `k` lines of a production: its name stands before the first one, and the others are
/// set off below the arrow.
pub open spec fn production(name: Seq<char>, w: nat, lines: Seq<Seq<char>>, k: int) -> Seq<char>
    decreases k,
{
    if k <= 0 || k > lines.len() {
        Seq::empty()
    } else if k == 1 {
        name + blanks(
            if w >= name.len() {
                (w - name.len()) as nat
            } else {
                0
            },
        ) + " \u{2192} "@ + lines[0] + "\n"@
    } else {
        production(name, w, lines, k - 1) + blanks(w + 1) + "| "@ + lines[k - 1] + "\n"@
    }
}

/// The productions of a section, of the first `k` entries.
pub open spec fn section_text(g: GrammarV, section: Seq<char>, w: nat, k: int) -> Result<
    Seq<char>,
    Seq<char>,
>
    decreases k,
{
    if k <= 0 || k > g.entries.len() {
        Ok(Seq::empty())
    } else {
        match section_text(g, section, w, k - 1) {
            Err(m) => Err(m),
            Ok(before) => {
                let e = g.entries[k - 1];
                match e.mode {
                    Mode::Named { name, section: own } => if own@ == section {
                        match body_of(g.rules, e.rule@) {
                            None => Err(unknown_rule(e.rule@)),
                            Some(body) => match alternatives(
                                g,
                                body,
                                Place::Top,
                                g.entries.len(),
                            ) {
                                Err(m) => Err(m),
                                Ok(lines) => Ok(
                                    before + production(name@, w, lines, lines.len() as int),
                                ),
                            },
                        }
                    } else {
                        Ok(before)
                    },
                    _ => Ok(before),
                }
            },
        }
    }
}

/// The first `k` sections, with an empty line between them.
pub open spec fn sections_text(g: GrammarV, order: Seq<Seq<char>>, k: int) -> Result<
    Seq<char>,
    Seq<char>,
>
    decreases k,
{
    if k <= 0 || k > order.len() {
        Ok(Seq::empty())
    } else {
        match sections_text(g, order, k - 1) {
            Err(m) => Err(m),
            Ok(before) => match section_text(
                g,
                order[k - 1],
                width(g.entries, order[k - 1], g.entries.len() as int),
                g.entries.len() as int,
            ) {
                Err(m) => Err(m),
                Ok(s) => Ok(
                    if k == 1 {
                        before + s
                    } else {
                        before + "\n"@ + s
                    },
                ),
            },
        }
    }
}

/// The page: a preamble, and the grammar as one block.
pub open spec fn page(g: GrammarV, preamble: Seq<char>) -> Result<Seq<char>, PageErrorV> {
    let n = g.entries.len() as int;
    let problems = rules_without(g, g.rules.len() as int) + entries_without(g, n);
    let order = sections(g.entries, n);
    match repeated(g.entries, n) {
        Some(rule) => Err(
            PageErrorV::Broken(
                "grammar-doc.toml: duplicate entry for pest rule `"@ + rule + "`"@,
            ),
        ),
        None => if problems.len() > 0 {
            Err(PageErrorV::Mismatch(problems))
        } else {
            match page_fault(g, n) {
                Some(m) => Err(PageErrorV::Broken(m)),
                None => match sections_text(g, order, order.len() as int) {
                    Err(m) => Err(PageErrorV::Broken(m)),
                    Ok(s) => Ok(preamble + "```\n"@ + s + "```\n"@),
                },
            }
        },
    }
}

fn has_entry(s: &Vec<Entry>, rule: &str, k: usize) -> (r: bool)
    requires
        k <= s@.len(),
    ensures
        r == entry_before(s@, rule@, k as int),
{
    let mut i: usize = 0;
    while i < k
        invariant
            i <= k <= s@.len(),
            forall|j: int| 0 <= j < i ==> (#[trigger] s@[j]).rule@ != rule@,
        decreases k - i,
    {
        if same_text(s[i].rule.as_str(), rule) {
            return true;
        }
        i += 1;
    }
    false
}

fn has_rule(s: &Vec<GrammarRule>, rule: &str) -> (r: bool)
    ensures
        r == rule_exists(rules_view(s@), rule@),
{
    let ghost views = rules_view(s@);
    assert(views.len() == s@.len());
    let mut i: usize = 0;
    while i < s.len()
        invariant
            i <= s@.len(),
            views == rules_view(s@),
            views.len() == s@.len(),
            forall|j: int| 0 <= j < i ==> (#[trigger] views[j]).0 != rule@,
        decreases s@.len() - i,
    {
        assert(views[i as int].0 == s@[i as int].name@);
        if same_text(s[i].name.as_str(), rule) {
            return true;
        }
        i += 1;
    }
    false
}

fn find_repeated(s: &Vec<Entry>) -> (r: Option<&String>)
    ensures
        match r {
            Some(rule) => repeated(s@, s@.len() as int) == Some(rule@),
            None => repeated(s@, s@.len() as int) is None,
        },
{
    let mut found: Option<&String> = None;
    let mut i: usize = 0;
    while i < s.len()
        invariant
            i <= s@.len(),
            match found {
                Some(rule) => repeated(s@, i as int) == Some(rule@),
                None => repeated(s@, i as int) is None,
            },
        decreases s@.len() - i,
    {
        if found.is_none() && has_entry(s, s[i].rule.as_str(), i) {
            found = Some(&s[i].rule);
        }
        i += 1;
    }
    found
}

fn list_problems(g: &Grammar) -> (r: Vec<String>)
    ensures
        texts(r@) == rules_without(g@, g.rules@.len() as int) + entries_without(
            g@,
            g.entries@.len() as int,
        ),
{
    let mut out: Vec<String> = Vec::new();
    assert(texts(out@) =~= Seq::empty());
    assert(g@.rules.len() == g.rules@.len());
    let mut i: usize = 0;
    while i < g.rules.len()
        invariant
            i <= g.rules@.len(),
            g@.rules.len() == g.rules@.len(),
            texts(out@) == rules_without(g@, i as int),
        decreases g.rules@.len() - i,
    {
        let ghost before = out@;
        let name: &String = &g.rules[i].name;
        assert(g@.rules[i as int].0 == name@);
        if !has_entry(g.entries, name.as_str(), g.entries.len()) {
            let m: String = joined3(
                "grammar.pest rule `",
                name.as_str(),
                "` has no grammar-doc.toml entry",
            );
            let ghost mv = m@;
            out.push(m);
            assert(texts(out@) =~= texts(before).push(mv));
        }
        i += 1;
    }
    let ghost first = texts(out@);
    assert(first + entries_without(g@, 0) =~= first);
    let mut j: usize = 0;
    while j < g.entries.len()
        invariant
            j <= g.entries@.len(),
            texts(out@) == first + entries_without(g@, j as int),
        decreases g.entries@.len() - j,
    {
        let ghost before = out@;
        let ghost listed = entries_without(g@, j as int);
        let rule: &String = &g.entries[j].rule;
        if !has_rule(g.rules, rule.as_str()) {
            let m: String = joined3(
                "grammar-doc.toml entry `",
                rule.as_str(),
                "` names a pest rule that doesn't exist",
            );
            let ghost mv = m@;
            out.push(m);
            assert(texts(out@) =~= texts(before).push(mv));
            assert((first + listed).push(mv) =~= first + listed.push(mv));
        }
        j += 1;
    }
    out
}

fn list_sections(s: &Vec<Entry>) -> (r: Vec<String>)
    ensures
        texts(r@) == sections(s@, s@.len() as int),
{
    let mut out: Vec<String> = Vec::new();
    assert(texts(out@) =~= Seq::empty());
    let mut i: usize = 0;
    while i < s.len()
        invariant
            i <= s@.len(),
            texts(out@) == sections(s@, i as int),
        decreases s@.len() - i,
    {
        if let Mode::Named { section, .. } = &s[i].mode {
            if !has_text(&out, section.as_str()) {
                let ghost before = out@;
                out.push(section.clone());
                assert(texts(out@) =~= texts(before).push(section@));
            }
        }
        i += 1;
    }
    out
}

fn find_fault(g: &Grammar) -> (r: Option<String>)
    ensures
        opt_fault(r) == page_fault(g@, g.entries@.len() as int),
{
    let mut found: Option<String> = None;
    let mut i: usize = 0;
    while i < g.entries.len()
        invariant
            i <= g.entries@.len(),
            opt_fault(found) == page_fault(g@, i as int),
        decreases g.entries@.len() - i,
    {
        if found.is_none() {
            let e: &Entry = &g.entries[i];
            if let Mode::Named { .. } = &e.mode {
                found = match g.body(e.rule.as_str()) {
                    None => Some(joined3("grammar-doc.toml: no rule `", e.rule.as_str(), "`")),
                    Some(body) => g.check_no_omitted_refs(
                        body,
                        e.rule.as_str(),
                        g.entries.len(),
                    ),
                };
            }
        }
        i += 1;
    }
    found
}

fn widest(s: &Vec<Entry>, section: &str) -> (r: usize)
    ensures
        r == width(s@, section@, s@.len() as int),
{
    let mut w: usize = 0;
    let mut i: usize = 0;
    while i < s.len()
        invariant
            i <= s@.len(),
            w == width(s@, section@, i as int),
        decreases s@.len() - i,
    {
        if let Mode::Named { name, section: own } = &s[i].mode {
            if same_text(own.as_str(), section) {
                let n: usize = name.as_str().unicode_len();
                if n > w {
                    w = n;
                }
            }
        }
        i += 1;
    }
    w
}

fn push_blanks(out: &mut String, n: usize)
    ensures
        final(out)@ == old(out)@ + blanks(n as nat),
{
    let ghost start = out@;
    assert(start + blanks(0) =~= start);
    let mut i: usize = 0;
    proof {
        reveal_strlit(" ");
    }
    while i < n
        invariant
            i <= n,
            " "@.len() == 1,
            " "@[0] == ' ',
            out@ == start + blanks(i as nat),
        decreases n - i,
    {
        out.append(" ");
        assert(out@ =~= start + blanks((i + 1) as nat));
        i += 1;
    }
}

fn push_production(out: &mut String, name: &String, w: usize, lines: &Vec<String>)
    ensures
        final(out)@ == old(out)@ + production(
            name@,
            w as nat,
            texts(lines@),
            texts(lines@).len() as int,
        ),
{
    let ghost start = out@;
    let ghost ls = texts(lines@);
    assert(ls.len() == lines@.len());
    assert(start + production(name@, w as nat, ls, 0) =~= start);
    let n: usize = name.as_str().unicode_len();
    let mut i: usize = 0;
    while i < lines.len()
        invariant
            i <= lines@.len(),
            n == name@.len(),
            ls == texts(lines@),
            ls.len() == lines@.len(),
            out@ == start + production(name@, w as nat, ls, i as int),
        decreases lines@.len() - i,
    {
        assert(ls[i as int] == lines@[i as int]@);
        let ghost before = production(name@, w as nat, ls, i as int);
        if i == 0 {
            out.append(name.as_str());
            push_blanks(
                out,
                if w >= n {
                    w - n
                } else {
                    0
                },
            );
            out.append(" \u{2192} ");
            out.append(lines[i].as_str());
            out.append("\n");
            assert(out@ =~= start + production(name@, w as nat, ls, 1));
        } else {
            push_blanks(out, w);
            out.append(" ");
            proof {
                reveal_strlit(" ");
                assert(blanks(w as nat) + " "@ =~= blanks((w + 1) as nat));
            }
            out.append("| ");
            out.append(lines[i].as_str());
            out.append("\n");
            assert(out@ =~= start + (before + blanks((w + 1) as nat) + "| "@ + ls[i as int]
                + "\n"@));
        }
        i += 1;
    }
}

fn render_section(g: &Grammar, section: &str) -> (r: Result<String, String>)
    ensures
        crate::grammar_doc::text_result(r) == section_text(
            g@,
            section@,
            width(g.entries@, section@, g.entries@.len() as int),
            g.entries@.len() as int,
        ),
{
    let w: usize = widest(g.entries, section);
    let mut out: String = "".to_owned();
    proof {
        reveal_strlit("");
        assert(out@ =~= Seq::empty());
    }
    let mut stopped: Option<String> = None;
    let mut i: usize = 0;
    while i < g.entries.len()
        invariant
            i <= g.entries@.len(),
            section_text(g@, section@, w as nat, i as int) == (match stopped {
                Some(m) => Err(m@),
                None => Ok(out@),
            }),
        decreases g.entries@.len() - i,
    {
        if stopped.is_none() {
            let e: &Entry = &g.entries[i];
            if let Mode::Named { name, section: own } = &e.mode {
                if same_text(own.as_str(), section) {
                    match g.body(e.rule.as_str()) {
                        None => {
                            stopped = Some(
                                joined3("grammar-doc.toml: no rule `", e.rule.as_str(), "`"),
                            );
                        },
                        Some(body) => match g.render_top(body) {
                            Err(m) => {
                                stopped = Some(m);
                            },
                            Ok(lines) => push_production(&mut out, name, w, &lines),
                        },
                    }
                }
            }
        }
        i += 1;
    }
    match stopped {
        Some(m) => Err(m),
        None => Ok(out),
    }
}

/// A page, or why there is none, as a mathematical object.
pub open spec fn page_result(r: Result<String, PageError>) -> Result<Seq<char>, PageErrorV> {
    match r {
        Ok(s) => Ok(s@),
        Err(e) => Err(e@),
    }
}

/// The page of the language reference that shows the grammar.
///
/// # Errors
/// An entry that is there twice, rules without entries and entries without rules, a reference to a
/// rule that does not appear, a rule that is inlined into itself, or a form without a notation.
pub fn render_page(g: &Grammar, preamble: &str) -> (r: Result<String, PageError>)
    ensures
        page_result(r) == page(g@, preamble@),
{
    if let Some(rule) = find_repeated(g.entries) {
        return Err(
            PageError::Broken(
                joined3(
                    "grammar-doc.toml: duplicate entry for pest rule `",
                    rule.as_str(),
                    "`",
                ),
            ),
        );
    }
    let problems: Vec<String> = list_problems(g);
    assert(texts(problems@).len() == problems@.len());
    if problems.len() > 0 {
        return Err(PageError::Mismatch(problems));
    }
    if let Some(m) = find_fault(g) {
        return Err(PageError::Broken(m));
    }
    let order: Vec<String> = list_sections(g.entries);
    let ghost names = texts(order@);
    assert(names.len() == order@.len());
    let mut body: String = "".to_owned();
    proof {
        reveal_strlit("");
        assert(body@ =~= Seq::empty());
    }
    let mut stopped: Option<String> = None;
    let mut i: usize = 0;
    while i < order.len()
        invariant
            i <= order@.len(),
            names == texts(order@),
            names.len() == order@.len(),
            sections_text(g@, names, i as int) == (match stopped {
                Some(m) => Err(m@),
                None => Ok(body@),
            }),
        decreases order@.len() - i,
    {
        if stopped.is_none() {
            assert(names[i as int] == order@[i as int]@);
            match render_section(g, order[i].as_str()) {
                Err(m) => {
                    stopped = Some(m);
                },
                Ok(s) => {
                    if i > 0 {
                        body.append("\n");
                    }
                    body.append(s.as_str());
                },
            }
        }
        i += 1;
    }
    match stopped {
        Some(m) => Err(PageError::Broken(m)),
        None => {
            let mut out: String = preamble.to_owned();
            out.append("```\n");
            out.append(body.as_str());
            out.append("```\n");
            Ok(out)
        },
    }
}

proof fn lemma_no_rule_without(g: GrammarV, k: int, i: int)
    requires
        0 <= i < k <= g.rules.len(),
        rules_without(g, k).len() == 0,
    ensures
        entry_before(g.entries, g.rules[i].0, g.entries.len() as int),
    decreases k,
{
    let name = g.rules[k - 1].0;
    if !entry_before(g.entries, name, g.entries.len() as int) {
        assert(rules_without(g, k).len() > 0);
    }
    if i < k - 1 {
        lemma_no_rule_without(g, k - 1, i);
    }
}

proof fn lemma_no_entry_without(g: GrammarV, k: int, i: int)
    requires
        0 <= i < k <= g.entries.len(),
        entries_without(g, k).len() == 0,
    ensures
        rule_exists(g.rules, g.entries[i].rule@),
    decreases k,
{
    let rule = g.entries[k - 1].rule@;
    if !rule_exists(g.rules, rule) {
        assert(entries_without(g, k).len() > 0);
    }
    if i < k - 1 {
        lemma_no_entry_without(g, k - 1, i);
    }
}

proof fn lemma_nothing_repeated(s: Seq<Entry>, k: int, i: int, j: int)
    requires
        0 <= i < j < k <= s.len(),
        repeated(s, k) is None,
    ensures
        s[i].rule@ != s[j].rule@,
    decreases k,
{
    if j == k - 1 {
        if s[i].rule@ == s[j].rule@ {
            assert(entry_before(s, s[k - 1].rule@, k - 1));
        }
    } else {
        lemma_nothing_repeated(s, k - 1, i, j);
    }
}

/// Where there is a page, every rule has an entry, every entry has a rule, and no two entries are
/// those of one rule.
pub proof fn law_a_page_accounts_for_every_rule(g: GrammarV, preamble: Seq<char>)
    requires
        page(g, preamble) is Ok,
    ensures
        forall|i: int|
            0 <= i < g.rules.len() ==> entry_before(
                g.entries,
                (#[trigger] g.rules[i]).0,
                g.entries.len() as int,
            ),
        forall|i: int|
            0 <= i < g.entries.len() ==> rule_exists(g.rules, (#[trigger] g.entries[i]).rule@),
        forall|i: int, j: int|
            0 <= i < j < g.entries.len() ==> (#[trigger] g.entries[i]).rule@ != (
            #[trigger] g.entries[j]).rule@,
{
    let n = g.entries.len() as int;
    assert(rules_without(g, g.rules.len() as int).len() == 0);
    assert(entries_without(g, n).len() == 0);
    assert forall|i: int| 0 <= i < g.rules.len() implies entry_before(
        g.entries,
        (#[trigger] g.rules[i]).0,
        n,
    ) by {
        lemma_no_rule_without(g, g.rules.len() as int, i);
    }
    assert forall|i: int| 0 <= i < g.entries.len() implies rule_exists(
        g.rules,
        (#[trigger] g.entries[i]).rule@,
    ) by {
        lemma_no_entry_without(g, n, i);
    }
    assert forall|i: int, j: int| 0 <= i < j < g.entries.len() implies (
    #[trigger] g.entries[i]).rule@ != (#[trigger] g.entries[j]).rule@ by {
        lemma_nothing_repeated(g.entries, n, i, j);
    }
}

/// Every section that an entry of a production names stands on the page once.
pub proof fn law_every_section_stands_once(s: Seq<Entry>, k: int)
    requires
        0 <= k <= s.len(),
    ensures
        sections(s, k).no_duplicates(),
        forall|i: int|
            0 <= i < k ==> ((#[trigger] s[i]).mode matches Mode::Named { section, .. }
                ==> sections(s, k).contains(section@)),
    decreases k,
{
    if k > 0 {
        law_every_section_stands_once(s, k - 1);
        let before = sections(s, k - 1);
        let after = sections(s, k);
        assert forall|x: Seq<char>| #[trigger] before.contains(x) implies after.contains(x) by {
            let i = choose|i: int| 0 <= i < before.len() && before[i] == x;
            assert(after[i] == x);
        }
        if let Mode::Named { section, .. } = s[k - 1].mode {
            if !before.contains(section@) {
                assert(after[before.len() as int] == section@);
            }
        }
        assert forall|i: int| 0 <= i < k implies ((#[trigger] s[i]).mode matches Mode::Named {
            section,
            ..
        } ==> after.contains(section@)) by {
            if i < k - 1 {
                if let Mode::Named { section, .. } = s[i].mode {
                    assert(before.contains(section@));
                }
            }
        }
    }
}

} // verus!
