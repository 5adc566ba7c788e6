//! How the parts of a grammar are written.
use vstd::prelude::*;
use crate::grammar_doc::{alternatives, body_of, both, mode_of, omitted_ref, quoted_text, rendered};
use crate::grammar_doc::{seq_parts, GrammarExprV, GrammarV, Mode, Place};
use crate::text::{decimal, join_spec};

verus! {

/// Repetitions, options and predicates are written by their sign at the operand, which stands as an
/// operand; and where the operand cannot be written, neither can they.
pub proof fn law_operators_are_written_by_their_signs(
    g: GrammarV,
    x: GrammarExprV,
    place: Place,
    fuel: nat,
    n: u32,
    m: u32,
    s: Seq<char>,
)
    requires
        rendered(g, x, Place::Atom, fuel) == Ok::<Seq<char>, Seq<char>>(s),
    ensures
        ({
            let bx = Box::new(x);
            let is = |e: GrammarExprV, t: Seq<char>|
                rendered(g, e, place, fuel) == Ok::<Seq<char>, Seq<char>>(t);
            &&& is(GrammarExprV::Opt(bx), s + "?"@)
            &&& is(GrammarExprV::Rep(bx), s + "*"@)
            &&& is(GrammarExprV::RepOnce(bx), s + "+"@)
            &&& is(GrammarExprV::RepExact(bx, n), s + ("{"@ + decimal(n as nat) + "}"@))
            &&& is(GrammarExprV::RepMin(bx, n), s + ("{"@ + decimal(n as nat) + ",}"@))
            &&& is(GrammarExprV::RepMax(bx, n), s + ("{,"@ + decimal(n as nat) + "}"@))
            &&& is(
                GrammarExprV::RepMinMax(bx, n, m),
                s + ("{"@ + decimal(n as nat) + ","@ + decimal(m as nat) + "}"@),
            )
            &&& is(GrammarExprV::PosPred(bx), "&"@ + s)
            &&& is(GrammarExprV::NegPred(bx), "!"@ + s)
        }),
{
    reveal_strlit("");
    let none = ""@;
    assert(none.len() == 0);
    assert forall|a: Seq<char>| #[trigger] (none + a) == a by {
        assert(none + a =~= a);
    }
    assert forall|a: Seq<char>| #[trigger] (a + none) == a by {
        assert(a + none =~= a);
    }
}

/// Strings are written in quotes, ranges with both ends, and a rule by the name it is shown under.
pub proof fn law_atoms_are_written_as_they_are(
    g: GrammarV,
    a: Seq<char>,
    b: Seq<char>,
    id: Seq<char>,
    name: String,
    place: Place,
    fuel: nat,
)
    requires
        mode_of(g.entries, id) == Some(Mode::Terminal { name }),
        id != "EOI"@,
    ensures
        rendered(g, GrammarExprV::Str(a), place, fuel) == Ok::<Seq<char>, Seq<char>>(
            quoted_text(a),
        ),
        rendered(g, GrammarExprV::Insens(a), place, fuel) == Ok::<Seq<char>, Seq<char>>(
            "^"@ + quoted_text(a),
        ),
        rendered(g, GrammarExprV::Range(a, b), place, fuel) == Ok::<Seq<char>, Seq<char>>(
            quoted_text(a) + ".."@ + quoted_text(b),
        ),
        rendered(g, GrammarExprV::Ident(id), place, fuel) == Ok::<Seq<char>, Seq<char>>(name@),
{
}

/// A sequence of two strings is written with a blank between them and in their order, and in
/// brackets where it is an operand; a choice with a bar, in brackets unless it stands by itself.
pub proof fn law_sequences_and_choices_keep_their_order(
    g: GrammarV,
    a: Seq<char>,
    b: Seq<char>,
    fuel: nat,
)
    ensures
        ({
            let x = Box::new(GrammarExprV::Str(a));
            let y = Box::new(GrammarExprV::Str(b));
            let one = quoted_text(a);
            let two = quoted_text(b);
            &&& rendered(g, GrammarExprV::Sequence(x, y), Place::Inner, fuel) == Ok::<
                Seq<char>,
                Seq<char>,
            >(join_spec(seq![one, two], " "@))
            &&& rendered(g, GrammarExprV::Sequence(x, y), Place::Atom, fuel) == Ok::<
                Seq<char>,
                Seq<char>,
            >("( "@ + join_spec(seq![one, two], " "@) + " )"@)
            &&& rendered(g, GrammarExprV::Choice(x, y), Place::Top, fuel) == Ok::<
                Seq<char>,
                Seq<char>,
            >(join_spec(seq![one, two], " | "@))
            &&& rendered(g, GrammarExprV::Choice(x, y), Place::Atom, fuel) == Ok::<
                Seq<char>,
                Seq<char>,
            >("( "@ + join_spec(seq![one, two], " | "@) + " )"@)
        }),
{
    let x = GrammarExprV::Str(a);
    let y = GrammarExprV::Str(b);
    let one = quoted_text(a);
    let two = quoted_text(b);
    assert(rendered(g, x, Place::Inner, fuel) == Ok::<Seq<char>, Seq<char>>(one));
    assert(rendered(g, y, Place::Inner, fuel) == Ok::<Seq<char>, Seq<char>>(two));
    assert(seq_parts(g, x, fuel) == Ok::<Seq<Seq<char>>, Seq<char>>(seq![one]));
    assert(seq_parts(g, y, fuel) == Ok::<Seq<Seq<char>>, Seq<char>>(seq![two]));
    assert(alternatives(g, x, Place::Inner, fuel) == Ok::<Seq<Seq<char>>, Seq<char>>(seq![one]));
    assert(alternatives(g, y, Place::Inner, fuel) == Ok::<Seq<Seq<char>>, Seq<char>>(seq![two]));
    assert(seq![one] + seq![two] =~= seq![one, two]);
}

/// A rule that is shown inline is written as its body, and one that is left out may not be referred
/// to.
pub proof fn law_inline_rules_are_written_as_their_body(
    g: GrammarV,
    id: Seq<char>,
    body: GrammarExprV,
    place: Place,
    fuel: nat,
    in_rule: Seq<char>,
)
    requires
        fuel > 0,
    ensures
        mode_of(g.entries, id) == Some(Mode::Inline) && body_of(g.rules, id) == Some(body)
            ==> rendered(g, GrammarExprV::Ident(id), place, fuel) == rendered(
            g,
            body,
            place,
            (fuel - 1) as nat,
        ),
        mode_of(g.entries, id) == Some(Mode::Omit) ==> omitted_ref(
            g,
            GrammarExprV::Ident(id),
            in_rule,
            fuel,
        ) is Some,
{
}

} // verus!
