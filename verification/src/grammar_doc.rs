//! The grammar as it stands in the language reference.
//!
//! Every rule of the grammar has an entry that says how it appears: as a production of its own, as
//! a terminal with a name, in place of each reference to it, or not at all.
use vstd::prelude::*;
use crate::registry::{first_where, lemma_first_where_skip};
use crate::text::{decimal, decimal_text, join_spec, join_texts, joined, joined3, joined5};
use crate::text::{same_text, texts};

verus! {

/// The body of a rule.
#[derive(Debug)]
pub enum GrammarExpr {
    Str(String),
    Insens(String),
    Range(String, String),
    Ident(String),
    PosPred(Box<GrammarExpr>),
    NegPred(Box<GrammarExpr>),
    Sequence(Box<GrammarExpr>, Box<GrammarExpr>),
    Choice(Box<GrammarExpr>, Box<GrammarExpr>),
    Opt(Box<GrammarExpr>),
    Rep(Box<GrammarExpr>),
    RepOnce(Box<GrammarExpr>),
    RepExact(Box<GrammarExpr>, u32),
    RepMin(Box<GrammarExpr>, u32),
    RepMax(Box<GrammarExpr>, u32),
    RepMinMax(Box<GrammarExpr>, u32, u32),
    /// A part whose match goes onto the stack, and how the whole is described: it has no notation.
    Push(Box<GrammarExpr>, String),
    /// A form that has no notation, as it is described.
    Other(String),
}

/// The value of a [`GrammarExpr`] as a mathematical object.
pub ghost enum GrammarExprV {
    Str(Seq<char>),
    Insens(Seq<char>),
    Range(Seq<char>, Seq<char>),
    Ident(Seq<char>),
    PosPred(Box<GrammarExprV>),
    NegPred(Box<GrammarExprV>),
    Sequence(Box<GrammarExprV>, Box<GrammarExprV>),
    Choice(Box<GrammarExprV>, Box<GrammarExprV>),
    Opt(Box<GrammarExprV>),
    Rep(Box<GrammarExprV>),
    RepOnce(Box<GrammarExprV>),
    RepExact(Box<GrammarExprV>, u32),
    RepMin(Box<GrammarExprV>, u32),
    RepMax(Box<GrammarExprV>, u32),
    RepMinMax(Box<GrammarExprV>, u32, u32),
    Push(Box<GrammarExprV>, Seq<char>),
    Other(Seq<char>),
}

/// How a rule appears.
#[derive(Debug)]
#[allow(inconsistent_fields)]
pub enum Mode {
    /// As a production under a name, in a section.
    Named { name: String, section: String },
    /// By a name alone.
    Terminal { name: String },
    /// By its body, in place of each reference.
    Inline,
    /// By these alternatives, in place of each reference.
    Literal { values: Vec<String> },
    /// Not at all.
    Omit,
}

/// The entry of a rule.
#[derive(Debug)]
pub struct Entry {
    pub rule: String,
    pub mode: Mode,
}

/// A rule of the grammar.
#[derive(Debug)]
pub struct GrammarRule {
    pub name: String,
    pub body: GrammarExpr,
}

/// The view of a [`GrammarExpr`].
pub open spec fn expr_view(e: GrammarExpr) -> GrammarExprV
    decreases e,
{
    match e {
        GrammarExpr::Str(s) => GrammarExprV::Str(s@),
        GrammarExpr::Insens(s) => GrammarExprV::Insens(s@),
        GrammarExpr::Range(a, b) => GrammarExprV::Range(a@, b@),
        GrammarExpr::Ident(s) => GrammarExprV::Ident(s@),
        GrammarExpr::PosPred(x) => GrammarExprV::PosPred(Box::new(expr_view(*x))),
        GrammarExpr::NegPred(x) => GrammarExprV::NegPred(Box::new(expr_view(*x))),
        GrammarExpr::Sequence(x, y) => GrammarExprV::Sequence(
            Box::new(expr_view(*x)),
            Box::new(expr_view(*y)),
        ),
        GrammarExpr::Choice(x, y) => GrammarExprV::Choice(
            Box::new(expr_view(*x)),
            Box::new(expr_view(*y)),
        ),
        GrammarExpr::Opt(x) => GrammarExprV::Opt(Box::new(expr_view(*x))),
        GrammarExpr::Rep(x) => GrammarExprV::Rep(Box::new(expr_view(*x))),
        GrammarExpr::RepOnce(x) => GrammarExprV::RepOnce(Box::new(expr_view(*x))),
        GrammarExpr::RepExact(x, n) => GrammarExprV::RepExact(Box::new(expr_view(*x)), n),
        GrammarExpr::RepMin(x, n) => GrammarExprV::RepMin(Box::new(expr_view(*x)), n),
        GrammarExpr::RepMax(x, n) => GrammarExprV::RepMax(Box::new(expr_view(*x)), n),
        GrammarExpr::RepMinMax(x, n, m) => GrammarExprV::RepMinMax(
            Box::new(expr_view(*x)),
            n,
            m,
        ),
        GrammarExpr::Push(x, s) => GrammarExprV::Push(Box::new(expr_view(*x)), s@),
        GrammarExpr::Other(s) => GrammarExprV::Other(s@),
    }
}

impl View for GrammarExpr {
    type V = GrammarExprV;

    open spec fn view(&self) -> GrammarExprV {
        expr_view(*self)
    }
}

/// The rules and how they appear.
pub struct Grammar<'a> {
    pub rules: &'a Vec<GrammarRule>,
    pub entries: &'a Vec<Entry>,
}

/// The value of a [`Grammar`] as a mathematical object: the rules by name, and the entries.
pub ghost struct GrammarV {
    pub rules: Seq<(Seq<char>, GrammarExprV)>,
    pub entries: Seq<Entry>,
}

/// Rules by name, as mathematical objects.
pub open spec fn rules_view(s: Seq<GrammarRule>) -> Seq<(Seq<char>, GrammarExprV)> {
    Seq::new(s.len(), |i: int| (s[i].name@, s[i].body@))
}

impl<'a> View for Grammar<'a> {
    type V = GrammarV;

    open spec fn view(&self) -> GrammarV {
        GrammarV { rules: rules_view(self.rules@), entries: self.entries@ }
    }
}

/// Where a part of a body stands.
#[derive(Debug, Clone, Copy, PartialEq, Eq, Structural)]
pub enum Place {
    /// As the whole of a production.
    Top,
    /// As an element of a sequence or a choice.
    Inner,
    /// As the operand of a prefix or a postfix operator.
    Atom,
}

/// How a rule appears.
pub open spec fn mode_of(s: Seq<Entry>, rule: Seq<char>) -> Option<Mode> {
    match first_where(s, |e: Entry| e.rule@ == rule) {
        Some(e) => Some(e.mode),
        None => None,
    }
}

/// The body of a rule: the last one, where several rules have one name.
pub open spec fn body_of(s: Seq<(Seq<char>, GrammarExprV)>, rule: Seq<char>) -> Option<
    GrammarExprV,
>
    decreases s.len(),
{
    if s.len() == 0 {
        None
    } else if s.last().0 == rule {
        Some(s.last().1)
    } else {
        body_of(s.drop_last(), rule)
    }
}

/// A choice between strings, from `i` on.
pub open spec fn literal_choice(values: Seq<String>, i: int) -> GrammarExprV
    decreases values.len() - i,
{
    if i < 0 || i + 1 >= values.len() {
        GrammarExprV::Str(values[i]@)
    } else {
        GrammarExprV::Choice(
            Box::new(GrammarExprV::Str(values[i]@)),
            Box::new(literal_choice(values, i + 1)),
        )
    }
}

/// What stands in place of a reference, if anything does.
pub open spec fn expansion(g: GrammarV, e: GrammarExprV) -> Option<Result<GrammarExprV, Seq<char>>> {
    match e {
        GrammarExprV::Ident(id) => match mode_of(g.entries, id) {
            Some(Mode::Inline) => match body_of(g.rules, id) {
                Some(body) => Some(Ok(body)),
                None => Some(Err(unknown_rule(id))),
            },
            Some(Mode::Literal { values }) => if values@.len() == 0 {
                Some(Err("grammar-doc.toml: a `literal` entry needs at least one value"@))
            } else {
                Some(Ok(literal_choice(values@, 0)))
            },
            _ => None,
        },
        _ => None,
    }
}

/// The error of a reference to a rule that does not exist.
pub open spec fn unknown_rule(id: Seq<char>) -> Seq<char> {
    "grammar-doc.toml: no rule `"@ + id + "`"@
}

/// The error of a rule that is inlined into itself.
pub open spec fn endless() -> Seq<char> {
    "grammar-doc.toml: an `inline` rule expands to itself"@
}

/// The error of a reference to a rule that does not appear.
pub open spec fn omitted_error(id: Seq<char>, in_rule: Seq<char>) -> Seq<char> {
    "grammar-doc.toml: `"@ + id + "` is `omit` but is referenced from `"@ + in_rule
        + "` (transitively) -- change its mode to `inline` if it should render, or fix `"@ + in_rule
        + "` if the reference is a mistake"@
}

/// The error of a form that has no notation.
pub open spec fn no_notation(s: Seq<char>) -> Seq<char> {
    "gen_grammar: encountered a pest expression ("@ + s
        + ") the renderer has no documented notation for yet -- add one rather than silently rendering nothing"@
}

/// The error of a reference that cannot be shown.
pub open spec fn not_shown(id: Seq<char>) -> Seq<char> {
    "gen_grammar: `"@ + id + "` has no name to be shown by"@
}

/// A string as the formatter shows it to programmers: in quotes, with escapes.
pub uninterp spec fn quoted_text(s: Seq<char>) -> Seq<char>;

/// A string in quotes, by the `Debug` implementation of strings: its result is a function of the
/// string alone.
#[verifier::external_body]
fn quoted(s: &str) -> (r: String)
    ensures
        r@ == quoted_text(s@),
{
    format!("{:?}", s)
}

/// Whether an expression is `ASCII_ALPHANUMERIC | "_"`.
pub open spec fn word_choice(e: GrammarExprV) -> bool {
    e matches GrammarExprV::Choice(x, y) && *x == GrammarExprV::Ident("ASCII_ALPHANUMERIC"@) && *y
        == GrammarExprV::Str("_"@)
}

/// Whether an expression only keeps a keyword from running into the next word: it is
/// `!(ASCII_ALPHANUMERIC | "_")`.
pub open spec fn boundary_guard(e: GrammarExprV) -> bool {
    e matches GrammarExprV::NegPred(x) && word_choice(*x)
}

/// In brackets, if need be.
pub open spec fn grouped(wrap: bool, s: Seq<char>) -> Seq<char> {
    if wrap {
        "( "@ + s + " )"@
    } else {
        s
    }
}

/// A text with something before and behind it, or what went wrong.
pub open spec fn around(before: Seq<char>, r: Result<Seq<char>, Seq<char>>, behind: Seq<char>) -> Result<
    Seq<char>,
    Seq<char>,
> {
    match r {
        Ok(s) => Ok(before + s + behind),
        Err(m) => Err(m),
    }
}

/// Two lists, one after the other, or what went wrong first.
pub open spec fn both(
    a: Result<Seq<Seq<char>>, Seq<char>>,
    b: Result<Seq<Seq<char>>, Seq<char>>,
) -> Result<Seq<Seq<char>>, Seq<char>> {
    match a {
        Err(m) => Err(m),
        Ok(x) => match b {
            Err(m) => Err(m),
            Ok(y) => Ok(x + y),
        },
    }
}

/// A body as it is written. `fuel` is how many references may still be replaced inside one
/// another.
pub open spec fn rendered(g: GrammarV, e: GrammarExprV, place: Place, fuel: nat) -> Result<
    Seq<char>,
    Seq<char>,
>
    decreases fuel, e, 0int,
{
    match expansion(g, e) {
        Some(Err(m)) => Err(m),
        Some(Ok(x)) => if fuel == 0 {
            Err(endless())
        } else {
            rendered(g, x, place, (fuel - 1) as nat)
        },
        None => match e {
            GrammarExprV::Str(s) => Ok(quoted_text(s)),
            GrammarExprV::Insens(s) => Ok("^"@ + quoted_text(s)),
            GrammarExprV::Range(a, b) => Ok(quoted_text(a) + ".."@ + quoted_text(b)),
            GrammarExprV::Ident(id) => if id == "EOI"@ {
                Ok("\"EOF\""@)
            } else {
                match mode_of(g.entries, id) {
                    Some(Mode::Named { name, .. }) => Ok(name@),
                    Some(Mode::Terminal { name }) => Ok(name@),
                    _ => Err(not_shown(id)),
                }
            },
            GrammarExprV::PosPred(x) => around("&"@, rendered(g, *x, Place::Atom, fuel), ""@),
            GrammarExprV::NegPred(x) => around("!"@, rendered(g, *x, Place::Atom, fuel), ""@),
            GrammarExprV::Sequence(x, y) => match both(
                seq_parts(g, *x, fuel),
                seq_parts(g, *y, fuel),
            ) {
                Err(m) => Err(m),
                Ok(s) => Ok(grouped(place == Place::Atom, join_spec(s, " "@))),
            },
            GrammarExprV::Choice(x, y) => match both(
                alternatives(g, *x, Place::Inner, fuel),
                alternatives(g, *y, Place::Inner, fuel),
            ) {
                Err(m) => Err(m),
                Ok(s) => Ok(grouped(place != Place::Top, join_spec(s, " | "@))),
            },
            GrammarExprV::Opt(x) => around(""@, rendered(g, *x, Place::Atom, fuel), "?"@),
            GrammarExprV::Rep(x) => around(""@, rendered(g, *x, Place::Atom, fuel), "*"@),
            GrammarExprV::RepOnce(x) => around(""@, rendered(g, *x, Place::Atom, fuel), "+"@),
            GrammarExprV::RepExact(x, n) => around(
                ""@,
                rendered(g, *x, Place::Atom, fuel),
                "{"@ + decimal(n as nat) + "}"@,
            ),
            GrammarExprV::RepMin(x, n) => around(
                ""@,
                rendered(g, *x, Place::Atom, fuel),
                "{"@ + decimal(n as nat) + ",}"@,
            ),
            GrammarExprV::RepMax(x, n) => around(
                ""@,
                rendered(g, *x, Place::Atom, fuel),
                "{,"@ + decimal(n as nat) + "}"@,
            ),
            GrammarExprV::RepMinMax(x, n, m) => around(
                ""@,
                rendered(g, *x, Place::Atom, fuel),
                "{"@ + decimal(n as nat) + ","@ + decimal(m as nat) + "}"@,
            ),
            GrammarExprV::Push(_, s) => Err(no_notation(s)),
            GrammarExprV::Other(s) => Err(no_notation(s)),
        },
    }
}

/// The elements of a sequence. The start of the input and what keeps keywords apart go without
/// saying.
pub open spec fn seq_parts(g: GrammarV, e: GrammarExprV, fuel: nat) -> Result<
    Seq<Seq<char>>,
    Seq<char>,
>
    decreases fuel, e, 1int,
{
    match expansion(g, e) {
        Some(Err(m)) => Err(m),
        Some(Ok(x)) => if fuel == 0 {
            Err(endless())
        } else {
            seq_parts(g, x, (fuel - 1) as nat)
        },
        None => match e {
            GrammarExprV::Sequence(x, y) => both(seq_parts(g, *x, fuel), seq_parts(g, *y, fuel)),
            _ => if e == GrammarExprV::Ident("SOI"@) || boundary_guard(e) {
                Ok(Seq::empty())
            } else {
                match rendered(g, e, Place::Inner, fuel) {
                    Ok(s) => Ok(seq![s]),
                    Err(m) => Err(m),
                }
            },
        },
    }
}

/// The alternatives of a choice.
pub open spec fn alternatives(g: GrammarV, e: GrammarExprV, place: Place, fuel: nat) -> Result<
    Seq<Seq<char>>,
    Seq<char>,
>
    decreases fuel, e, 1int,
{
    match expansion(g, e) {
        Some(Err(m)) => Err(m),
        Some(Ok(x)) => if fuel == 0 {
            Err(endless())
        } else {
            alternatives(g, x, place, (fuel - 1) as nat)
        },
        None => match e {
            GrammarExprV::Choice(x, y) => both(
                alternatives(g, *x, place, fuel),
                alternatives(g, *y, place, fuel),
            ),
            _ => match rendered(g, e, place, fuel) {
                Ok(s) => Ok(seq![s]),
                Err(m) => Err(m),
            },
        },
    }
}

/// The first of two faults.
pub open spec fn first_fault(a: Option<Seq<char>>, b: Option<Seq<char>>) -> Option<Seq<char>> {
    match a {
        Some(m) => Some(m),
        None => b,
    }
}

/// The first reference to a rule that does not appear, through rules that are inlined.
pub open spec fn omitted_ref(g: GrammarV, e: GrammarExprV, in_rule: Seq<char>, fuel: nat) -> Option<
    Seq<char>,
>
    decreases fuel, e,
{
    match e {
        GrammarExprV::Ident(id) => match mode_of(g.entries, id) {
            Some(Mode::Omit) => Some(omitted_error(id, in_rule)),
            Some(Mode::Inline) => match body_of(g.rules, id) {
                None => Some(unknown_rule(id)),
                Some(body) => if fuel == 0 {
                    Some(endless())
                } else {
                    omitted_ref(g, body, id, (fuel - 1) as nat)
                },
            },
            _ => None,
        },
        GrammarExprV::PosPred(x) => omitted_ref(g, *x, in_rule, fuel),
        GrammarExprV::NegPred(x) => omitted_ref(g, *x, in_rule, fuel),
        GrammarExprV::Sequence(x, y) => first_fault(
            omitted_ref(g, *x, in_rule, fuel),
            omitted_ref(g, *y, in_rule, fuel),
        ),
        GrammarExprV::Choice(x, y) => first_fault(
            omitted_ref(g, *x, in_rule, fuel),
            omitted_ref(g, *y, in_rule, fuel),
        ),
        GrammarExprV::Opt(x) => omitted_ref(g, *x, in_rule, fuel),
        GrammarExprV::Rep(x) => omitted_ref(g, *x, in_rule, fuel),
        GrammarExprV::RepOnce(x) => omitted_ref(g, *x, in_rule, fuel),
        GrammarExprV::RepExact(x, _) => omitted_ref(g, *x, in_rule, fuel),
        GrammarExprV::RepMin(x, _) => omitted_ref(g, *x, in_rule, fuel),
        GrammarExprV::RepMax(x, _) => omitted_ref(g, *x, in_rule, fuel),
        GrammarExprV::RepMinMax(x, _, _) => omitted_ref(g, *x, in_rule, fuel),
        GrammarExprV::Push(x, _) => omitted_ref(g, *x, in_rule, fuel),
        _ => None,
    }
}

/// Texts, or what went wrong, as a mathematical object.
pub open spec fn texts_result(r: Result<Vec<String>, String>) -> Result<Seq<Seq<char>>, Seq<char>> {
    match r {
        Ok(v) => Ok(texts(v@)),
        Err(m) => Err(m@),
    }
}

/// A text, or what went wrong, as a mathematical object.
pub open spec fn text_result(r: Result<String, String>) -> Result<Seq<char>, Seq<char>> {
    match r {
        Ok(s) => Ok(s@),
        Err(m) => Err(m@),
    }
}

/// A fault, or none, as a mathematical object.
pub open spec fn opt_fault(r: Option<String>) -> Option<Seq<char>> {
    match r {
        Some(m) => Some(m@),
        None => None,
    }
}

impl GrammarExpr {
    /// A copy with the same view.
    pub fn copy(&self) -> (r: Self)
        ensures
            r@ == self@,
        decreases *self,
    {
        match self {
            GrammarExpr::Str(s) => GrammarExpr::Str(s.clone()),
            GrammarExpr::Insens(s) => GrammarExpr::Insens(s.clone()),
            GrammarExpr::Range(a, b) => GrammarExpr::Range(a.clone(), b.clone()),
            GrammarExpr::Ident(s) => GrammarExpr::Ident(s.clone()),
            GrammarExpr::PosPred(x) => GrammarExpr::PosPred(Box::new(x.copy())),
            GrammarExpr::NegPred(x) => GrammarExpr::NegPred(Box::new(x.copy())),
            GrammarExpr::Sequence(x, y) => GrammarExpr::Sequence(
                Box::new(x.copy()),
                Box::new(y.copy()),
            ),
            GrammarExpr::Choice(x, y) => GrammarExpr::Choice(
                Box::new(x.copy()),
                Box::new(y.copy()),
            ),
            GrammarExpr::Opt(x) => GrammarExpr::Opt(Box::new(x.copy())),
            GrammarExpr::Rep(x) => GrammarExpr::Rep(Box::new(x.copy())),
            GrammarExpr::RepOnce(x) => GrammarExpr::RepOnce(Box::new(x.copy())),
            GrammarExpr::RepExact(x, n) => GrammarExpr::RepExact(Box::new(x.copy()), *n),
            GrammarExpr::RepMin(x, n) => GrammarExpr::RepMin(Box::new(x.copy()), *n),
            GrammarExpr::RepMax(x, n) => GrammarExpr::RepMax(Box::new(x.copy()), *n),
            GrammarExpr::RepMinMax(x, n, m) => GrammarExpr::RepMinMax(
                Box::new(x.copy()),
                *n,
                *m,
            ),
            GrammarExpr::Push(x, s) => GrammarExpr::Push(Box::new(x.copy()), s.clone()),
            GrammarExpr::Other(s) => GrammarExpr::Other(s.clone()),
        }
    }
}

fn literal_expr(values: &Vec<String>, i: usize) -> (r: GrammarExpr)
    requires
        i < values@.len(),
    ensures
        r@ == literal_choice(values@, i as int),
    decreases values@.len() - i,
{
    let head: GrammarExpr = GrammarExpr::Str(values[i].clone());
    assert(head@ == GrammarExprV::Str(values@[i as int]@));
    if values.len() - i <= 1 {
        head
    } else {
        GrammarExpr::Choice(Box::new(head), Box::new(literal_expr(values, i + 1)))
    }
}

fn is_ident(e: &GrammarExpr, name: &str) -> (r: bool)
    ensures
        r == (e@ == GrammarExprV::Ident(name@)),
{
    match e {
        GrammarExpr::Ident(id) => same_text(id.as_str(), name),
        _ => false,
    }
}

fn is_string(e: &GrammarExpr, value: &str) -> (r: bool)
    ensures
        r == (e@ == GrammarExprV::Str(value@)),
{
    match e {
        GrammarExpr::Str(s) => same_text(s.as_str(), value),
        _ => false,
    }
}

fn is_word_choice(e: &GrammarExpr) -> (r: bool)
    ensures
        r == word_choice(e@),
{
    match e {
        GrammarExpr::Choice(y, z) => is_ident(y, "ASCII_ALPHANUMERIC") && is_string(z, "_"),
        _ => false,
    }
}

/// Whether an expression only keeps a keyword from running into the next word: it is
/// `!(ASCII_ALPHANUMERIC | "_")`.
pub fn is_word_boundary_guard(e: &GrammarExpr) -> (r: bool)
    ensures
        r == boundary_guard(e@),
{
    match e {
        GrammarExpr::NegPred(x) => is_word_choice(x),
        _ => false,
    }
}

fn group(wrap: bool, s: String) -> (r: String)
    ensures
        r@ == grouped(wrap, s@),
{
    if wrap {
        joined3("( ", s.as_str(), " )")
    } else {
        s
    }
}

fn enclose(before: &str, r: Result<String, String>, behind: &str) -> (out: Result<String, String>)
    ensures
        text_result(out) == around(before@, text_result(r), behind@),
{
    match r {
        Ok(s) => Ok(joined3(before, s.as_str(), behind)),
        Err(m) => Err(m),
    }
}

fn concat(a: Result<Vec<String>, String>, b: Result<Vec<String>, String>) -> (r: Result<
    Vec<String>,
    String,
>)
    ensures
        texts_result(r) == both(texts_result(a), texts_result(b)),
{
    match a {
        Err(m) => Err(m),
        Ok(x) => match b {
            Err(m) => Err(m),
            Ok(y) => {
                let mut x: Vec<String> = x;
                let mut y: Vec<String> = y;
                let ghost xs = texts(x@);
                let ghost ys = texts(y@);
                let ghost before = x@;
                let ghost tail = y@;
                x.append(&mut y);
                assert(x@ == before + tail);
                assert(texts(x@) =~= xs + ys);
                Ok(x)
            },
        },
    }
}

fn one(r: Result<String, String>) -> (out: Result<Vec<String>, String>)
    ensures
        texts_result(out) == (match text_result(r) {
            Ok(s) => Ok(seq![s]),
            Err(m) => Err(m),
        }),
{
    match r {
        Ok(s) => {
            let ghost sv = s@;
            let mut v: Vec<String> = Vec::new();
            v.push(s);
            assert(texts(v@) =~= seq![sv]);
            Ok(v)
        },
        Err(m) => Err(m),
    }
}

fn endless_message() -> (r: String)
    ensures
        r@ == endless(),
{
    "grammar-doc.toml: an `inline` rule expands to itself".to_owned()
}

fn unknown_message(id: &str) -> (r: String)
    ensures
        r@ == unknown_rule(id@),
{
    joined3("grammar-doc.toml: no rule `", id, "`")
}

impl<'a> Grammar<'a> {
    fn mode(&self, rule: &str) -> (r: Option<&'a Mode>)
        ensures
            match r {
                Some(m) => mode_of(self.entries@, rule@) == Some(*m),
                None => mode_of(self.entries@, rule@) is None,
            },
    {
        let list: &'a Vec<Entry> = self.entries;
        let ghost p = |e: Entry| e.rule@ == rule@;
        assert(list@.skip(0) =~= list@);
        let mut i: usize = 0;
        while i < list.len()
            invariant
                i <= list@.len(),
                *list == *self.entries,
                p == (|e: Entry| e.rule@ == rule@),
                first_where(list@, p) == first_where(list@.skip(i as int), p),
            decreases list@.len() - i,
        {
            proof {
                lemma_first_where_skip(list@, p, i as int);
            }
            if same_text(list[i].rule.as_str(), rule) {
                return Some(&list[i].mode);
            }
            i += 1;
        }
        None
    }

    /// The body of a rule.
    pub fn body(&self, rule: &str) -> (r: Option<&'a GrammarExpr>)
        ensures
            match r {
                Some(b) => body_of(self@.rules, rule@) == Some(b@),
                None => body_of(self@.rules, rule@) is None,
            },
    {
        let list: &'a Vec<GrammarRule> = self.rules;
        let ghost views = rules_view(list@);
        assert(views.len() == list@.len());
        assert(views.take(views.len() as int) =~= views);
        let mut i: usize = list.len();
        while i > 0
            invariant
                i <= list@.len(),
                *list == *self.rules,
                views == rules_view(list@),
                views.len() == list@.len(),
                body_of(views, rule@) == body_of(views.take(i as int), rule@),
            decreases i,
        {
            i -= 1;
            assert(views[i as int] == (list@[i as int].name@, list@[i as int].body@));
            assert(views.take(i + 1).last() == views[i as int]);
            assert(views.take(i + 1).drop_last() =~= views.take(i as int));
            if same_text(list[i].name.as_str(), rule) {
                return Some(&list[i].body);
            }
        }
        None
    }

    /// What stands in place of a reference, if anything does.
    pub fn resolve_one(&self, e: &GrammarExpr) -> (r: Option<Result<GrammarExpr, String>>)
        ensures
            match r {
                None => expansion(self@, e@) is None,
                Some(Ok(x)) => expansion(self@, e@) == Some(
                    Ok::<GrammarExprV, Seq<char>>(x@),
                ),
                Some(Err(m)) => expansion(self@, e@) == Some(
                    Err::<GrammarExprV, Seq<char>>(m@),
                ),
            },
    {
        match e {
            GrammarExpr::Ident(id) => match self.mode(id.as_str()) {
                Some(Mode::Inline) => match self.body(id.as_str()) {
                    Some(body) => Some(Ok(body.copy())),
                    None => Some(Err(unknown_message(id.as_str()))),
                },
                Some(Mode::Literal { values }) => {
                    if values.len() == 0 {
                        Some(
                            Err(
                                "grammar-doc.toml: a `literal` entry needs at least one value".to_owned(),
                            ),
                        )
                    } else {
                        Some(Ok(literal_expr(values, 0)))
                    }
                },
                _ => None,
            },
            _ => None,
        }
    }

    /// A body as it is written.
    pub fn render(&self, e: &GrammarExpr, place: Place, fuel: usize) -> (r: Result<String, String>)
        ensures
            text_result(r) == rendered(self@, e@, place, fuel as nat),
        decreases fuel, *e, 0int,
    {
        match self.resolve_one(e) {
            Some(Err(m)) => {
                return Err(m);
            },
            Some(Ok(x)) => {
                if fuel == 0 {
                    return Err(endless_message());
                }
                return self.render(&x, place, fuel - 1);
            },
            None => {},
        }
        match e {
            GrammarExpr::Str(s) => Ok(quoted(s.as_str())),
            GrammarExpr::Insens(s) => Ok(joined("^", quoted(s.as_str()).as_str())),
            GrammarExpr::Range(a, b) => Ok(
                joined3(quoted(a.as_str()).as_str(), "..", quoted(b.as_str()).as_str()),
            ),
            GrammarExpr::Ident(id) => {
                if same_text(id.as_str(), "EOI") {
                    return Ok("\"EOF\"".to_owned());
                }
                match self.mode(id.as_str()) {
                    Some(Mode::Named { name, .. }) => Ok(name.clone()),
                    Some(Mode::Terminal { name }) => Ok(name.clone()),
                    _ => Err(
                        joined3("gen_grammar: `", id.as_str(), "` has no name to be shown by"),
                    ),
                }
            },
            GrammarExpr::PosPred(x) => enclose("&", self.render(x, Place::Atom, fuel), ""),
            GrammarExpr::NegPred(x) => enclose("!", self.render(x, Place::Atom, fuel), ""),
            GrammarExpr::Sequence(x, y) => {
                let left: Result<Vec<String>, String> = self.collect_seq(x, fuel);
                let right: Result<Vec<String>, String> = self.collect_seq(y, fuel);
                match concat(left, right) {
                    Err(m) => Err(m),
                    Ok(s) => Ok(group(place == Place::Atom, join_texts(&s, " "))),
                }
            },
            GrammarExpr::Choice(x, y) => {
                let left: Result<Vec<String>, String> = self.collect_choice_alts(
                    x,
                    Place::Inner,
                    fuel,
                );
                let right: Result<Vec<String>, String> = self.collect_choice_alts(
                    y,
                    Place::Inner,
                    fuel,
                );
                match concat(left, right) {
                    Err(m) => Err(m),
                    Ok(s) => Ok(group(place != Place::Top, join_texts(&s, " | "))),
                }
            },
            GrammarExpr::Opt(x) => enclose("", self.render(x, Place::Atom, fuel), "?"),
            GrammarExpr::Rep(x) => enclose("", self.render(x, Place::Atom, fuel), "*"),
            GrammarExpr::RepOnce(x) => enclose("", self.render(x, Place::Atom, fuel), "+"),
            GrammarExpr::RepExact(x, n) => enclose(
                "",
                self.render(x, Place::Atom, fuel),
                joined3("{", decimal_text(*n as u64).as_str(), "}").as_str(),
            ),
            GrammarExpr::RepMin(x, n) => enclose(
                "",
                self.render(x, Place::Atom, fuel),
                joined3("{", decimal_text(*n as u64).as_str(), ",}").as_str(),
            ),
            GrammarExpr::RepMax(x, n) => enclose(
                "",
                self.render(x, Place::Atom, fuel),
                joined3("{,", decimal_text(*n as u64).as_str(), "}").as_str(),
            ),
            GrammarExpr::RepMinMax(x, n, m) => enclose(
                "",
                self.render(x, Place::Atom, fuel),
                joined5(
                    "{",
                    decimal_text(*n as u64).as_str(),
                    ",",
                    decimal_text(*m as u64).as_str(),
                    "}",
                ).as_str(),
            ),
            GrammarExpr::Push(_, s) => Err(
                joined3(
                    "gen_grammar: encountered a pest expression (",
                    s.as_str(),
                    ") the renderer has no documented notation for yet -- add one rather than silently rendering nothing",
                ),
            ),
            GrammarExpr::Other(s) => Err(
                joined3(
                    "gen_grammar: encountered a pest expression (",
                    s.as_str(),
                    ") the renderer has no documented notation for yet -- add one rather than silently rendering nothing",
                ),
            ),
        }
    }

    /// The elements of a sequence.
    pub fn collect_seq(&self, e: &GrammarExpr, fuel: usize) -> (r: Result<Vec<String>, String>)
        ensures
            texts_result(r) == seq_parts(self@, e@, fuel as nat),
        decreases fuel, *e, 1int,
    {
        match self.resolve_one(e) {
            Some(Err(m)) => {
                return Err(m);
            },
            Some(Ok(x)) => {
                if fuel == 0 {
                    return Err(endless_message());
                }
                return self.collect_seq(&x, fuel - 1);
            },
            None => {},
        }
        if let GrammarExpr::Sequence(x, y) = e {
            let left: Result<Vec<String>, String> = self.collect_seq(x, fuel);
            let right: Result<Vec<String>, String> = self.collect_seq(y, fuel);
            return concat(left, right);
        }
        let start: bool = match e {
            GrammarExpr::Ident(id) => same_text(id.as_str(), "SOI"),
            _ => false,
        };
        if start || is_word_boundary_guard(e) {
            let none: Vec<String> = Vec::new();
            assert(texts(none@) =~= Seq::empty());
            return Ok(none);
        }
        one(self.render(e, Place::Inner, fuel))
    }

    /// The alternatives of a choice.
    pub fn collect_choice_alts(&self, e: &GrammarExpr, place: Place, fuel: usize) -> (r: Result<
        Vec<String>,
        String,
    >)
        ensures
            texts_result(r) == alternatives(self@, e@, place, fuel as nat),
        decreases fuel, *e, 1int,
    {
        match self.resolve_one(e) {
            Some(Err(m)) => {
                return Err(m);
            },
            Some(Ok(x)) => {
                if fuel == 0 {
                    return Err(endless_message());
                }
                return self.collect_choice_alts(&x, place, fuel - 1);
            },
            None => {},
        }
        if let GrammarExpr::Choice(x, y) = e {
            let left: Result<Vec<String>, String> = self.collect_choice_alts(x, place, fuel);
            let right: Result<Vec<String>, String> = self.collect_choice_alts(y, place, fuel);
            return concat(left, right);
        }
        one(self.render(e, place, fuel))
    }

    /// The first reference to a rule that does not appear.
    pub fn check_no_omitted_refs(&self, e: &GrammarExpr, in_rule: &str, fuel: usize) -> (r: Option<
        String,
    >)
        ensures
            opt_fault(r) == omitted_ref(self@, e@, in_rule@, fuel as nat),
        decreases fuel, *e,
    {
        match e {
            GrammarExpr::Ident(id) => match self.mode(id.as_str()) {
                Some(Mode::Omit) => {
                    let mut m: String = "grammar-doc.toml: `".to_owned();
                    m.append(id.as_str());
                    m.append("` is `omit` but is referenced from `");
                    m.append(in_rule);
                    m.append(
                        "` (transitively) -- change its mode to `inline` if it should render, or fix `",
                    );
                    m.append(in_rule);
                    m.append("` if the reference is a mistake");
                    Some(m)
                },
                Some(Mode::Inline) => match self.body(id.as_str()) {
                    None => Some(unknown_message(id.as_str())),
                    Some(body) => {
                        if fuel == 0 {
                            Some(endless_message())
                        } else {
                            self.check_no_omitted_refs(body, id.as_str(), fuel - 1)
                        }
                    },
                },
                _ => None,
            },
            GrammarExpr::PosPred(x) => self.check_no_omitted_refs(x, in_rule, fuel),
            GrammarExpr::NegPred(x) => self.check_no_omitted_refs(x, in_rule, fuel),
            GrammarExpr::Sequence(x, y) => match self.check_no_omitted_refs(x, in_rule, fuel) {
                Some(m) => Some(m),
                None => self.check_no_omitted_refs(y, in_rule, fuel),
            },
            GrammarExpr::Choice(x, y) => match self.check_no_omitted_refs(x, in_rule, fuel) {
                Some(m) => Some(m),
                None => self.check_no_omitted_refs(y, in_rule, fuel),
            },
            GrammarExpr::Opt(x) => self.check_no_omitted_refs(x, in_rule, fuel),
            GrammarExpr::Rep(x) => self.check_no_omitted_refs(x, in_rule, fuel),
            GrammarExpr::RepOnce(x) => self.check_no_omitted_refs(x, in_rule, fuel),
            GrammarExpr::RepExact(x, _) => self.check_no_omitted_refs(x, in_rule, fuel),
            GrammarExpr::RepMin(x, _) => self.check_no_omitted_refs(x, in_rule, fuel),
            GrammarExpr::RepMax(x, _) => self.check_no_omitted_refs(x, in_rule, fuel),
            GrammarExpr::RepMinMax(x, _, _) => self.check_no_omitted_refs(x, in_rule, fuel),
            GrammarExpr::Push(x, _) => self.check_no_omitted_refs(x, in_rule, fuel),
            _ => None,
        }
    }

    /// The lines of a production: one for each alternative.
    pub fn render_top(&self, e: &GrammarExpr) -> (r: Result<Vec<String>, String>)
        ensures
            texts_result(r) == alternatives(self@, e@, Place::Top, self.entries@.len()),
    {
        self.collect_choice_alts(e, Place::Top, self.entries.len())
    }
}

} // verus!
