//! What holds of the moved state, whatever the program.
use vstd::prelude::*;
use crate::place::{prefix, PlaceV};
use crate::span::SpanV;
use super::flow::{bind, forget_all, has_move, has_whole_move, merged, move_above};
use super::flow::{move_touching, moves_of, outside, pop_scope, push_scope, record_move};
use super::flow::{reinitialized, union, with_move, FlowV, MoveCause, MoveRecordV};

verus! {

/// Every move is recorded under the binding that its place starts from.
pub open spec fn rooted(f: FlowV) -> bool {
    forall|root: Seq<char>, i: int|
        #![trigger f.moved[root][i]]
        f.moved.dom().contains(root) && 0 <= i < f.moved[root].len() ==> f.moved[root][i].place.root
            == root
}

/// A use of a place can no longer be made: its value, or that of something it is part of or that
/// is part of it, has moved.
pub open spec fn unusable(f: FlowV, place: PlaceV) -> bool {
    move_touching(moves_of(f, place.root), place) is Some
}

/// A list of moves that holds one at, above or below a place has a first such move.
pub proof fn lemma_touching(s: Seq<MoveRecordV>, place: PlaceV, i: int)
    requires
        0 <= i < s.len(),
        prefix(s[i].place, place) || prefix(place, s[i].place),
    ensures
        move_touching(s, place) is Some,
    decreases s.len(),
{
    if !(prefix(s[0].place, place) || prefix(place, s[0].place)) {
        assert(s.skip(1)[i - 1] == s[i]);
        lemma_touching(s.skip(1), place, i - 1);
    }
}

/// The first move at, above or below a place is one of the list.
pub proof fn lemma_touching_is_listed(s: Seq<MoveRecordV>, place: PlaceV) -> (i: int)
    requires
        move_touching(s, place) is Some,
    ensures
        0 <= i < s.len(),
        s[i] == move_touching(s, place)->0,
        prefix(s[i].place, place) || prefix(place, s[i].place),
    decreases s.len(),
{
    if prefix(s[0].place, place) || prefix(place, s[0].place) {
        0
    } else {
        let k = lemma_touching_is_listed(s.skip(1), place);
        assert(s.skip(1)[k] == s[k + 1]);
        k + 1
    }
}

/// A list of moves that holds one at or above a place has a first such move.
pub proof fn lemma_above(s: Seq<MoveRecordV>, place: PlaceV, i: int)
    requires
        0 <= i < s.len(),
        prefix(s[i].place, place),
    ensures
        move_above(s, place) is Some,
    decreases s.len(),
{
    if !prefix(s[0].place, place) {
        assert(s.skip(1)[i - 1] == s[i]);
        lemma_above(s.skip(1), place, i - 1);
    }
}

/// What is left outside a place is not at or below it, and was there before.
pub proof fn lemma_outside(s: Seq<MoveRecordV>, place: PlaceV)
    ensures
        forall|i: int|
            0 <= i < outside(s, place).len() ==> !prefix(
                place,
                (#[trigger] outside(s, place)[i]).place,
            ) && s.contains(outside(s, place)[i]),
    decreases s.len(),
{
    if s.len() > 0 {
        lemma_outside(s.drop_last(), place);
        let rest = outside(s.drop_last(), place);
        assert forall|i: int| 0 <= i < outside(s, place).len() implies !prefix(
            place,
            (#[trigger] outside(s, place)[i]).place,
        ) && s.contains(outside(s, place)[i]) by {
            if i < rest.len() {
                assert(outside(s, place)[i] == rest[i]);
                let k = choose|k: int| 0 <= k < s.drop_last().len() && s.drop_last()[k] == rest[i];
                assert(s[k] == rest[i]);
            } else {
                assert(outside(s, place)[i] == s[s.len() - 1]);
            }
        }
    }
}

/// After a move out of a place every use of that place, of anything it is part of, and of
/// anything below it is a use of a moved value.
pub proof fn law_a_move_is_seen(
    f: FlowV,
    place: PlaceV,
    span: SpanV,
    cause: MoveCause,
    moved_type: Seq<char>,
    used: PlaceV,
)
    requires
        prefix(place, used) || prefix(used, place),
    ensures
        unusable(record_move(f, place, span, cause, moved_type), used),
        prefix(place, used) ==> move_above(
            moves_of(record_move(f, place, span, cause, moved_type), used.root),
            used,
        ) is Some,
{
    let g = record_move(f, place, span, cause, moved_type);
    let s = moves_of(g, place.root);
    let last = s.len() - 1;
    assert(used.root == place.root);
    assert(s[last].place == place);
    lemma_touching(s, used, last);
    if prefix(place, used) {
        lemma_above(s, used, last);
    }
}

/// After a move out of a whole binding that move is all that is recorded of the binding.
pub proof fn law_a_whole_move_subsumes_partial_moves(
    f: FlowV,
    place: PlaceV,
    span: SpanV,
    cause: MoveCause,
    moved_type: Seq<char>,
)
    requires
        place.projections.len() == 0,
    ensures
        moves_of(record_move(f, place, span, cause, moved_type), place.root).len() == 1,
        moves_of(record_move(f, place, span, cause, moved_type), place.root)[0].place == place,
        moves_of(record_move(f, place, span, cause, moved_type), place.root)[0].moved_span == span,
{
}

/// A move out of one binding says nothing of another.
pub proof fn law_a_move_is_local(
    f: FlowV,
    place: PlaceV,
    span: SpanV,
    cause: MoveCause,
    moved_type: Seq<char>,
    other: Seq<char>,
)
    requires
        other != place.root,
    ensures
        moves_of(record_move(f, place, span, cause, moved_type), other) == moves_of(f, other),
{
}

/// A write makes a place valid again, along with everything below it: no move at or below it is
/// left.
pub proof fn law_a_write_revives(f: FlowV, place: PlaceV, i: int)
    requires
        0 <= i < moves_of(reinitialized(f, place), place.root).len(),
    ensures
        !prefix(place, moves_of(reinitialized(f, place), place.root)[i].place),
{
    if f.moved.dom().contains(place.root) {
        lemma_outside(f.moved[place.root], place);
    }
}

/// A write to a whole binding makes every use of it valid again.
pub proof fn law_a_write_to_a_binding_revives_it(f: FlowV, place: PlaceV, used: PlaceV)
    requires
        rooted(f),
        place.projections.len() == 0,
        used.root == place.root,
    ensures
        !unusable(reinitialized(f, place), used),
{
    let s = moves_of(reinitialized(f, place), place.root);
    if unusable(reinitialized(f, place), used) {
        let i = lemma_touching_is_listed(s, used);
        law_a_write_revives(f, place, i);
        lemma_outside(f.moved[place.root], place);
        let kept = outside(f.moved[place.root], place);
        assert(kept[i] == s[i]);
        let k = choose|k: int|
            0 <= k < f.moved[place.root].len() && f.moved[place.root][k] == kept[i];
        assert(f.moved[place.root][k].place.root == place.root);
        assert(prefix(place, s[i].place));
    }
}

/// A name that was bound afresh has not moved.
pub proof fn law_a_fresh_binding_is_usable(f: FlowV, place: PlaceV)
    ensures
        !unusable(bind(f, place.root), place),
{
}

/// Opening and closing a scope in which nothing was bound changes nothing.
pub proof fn law_an_empty_scope_changes_nothing(f: FlowV)
    ensures
        pop_scope(push_scope(f)) == f,
{
    assert(push_scope(f).scopes.drop_last() =~= f.scopes);
}

/// A name that is not forgotten keeps its moves.
proof fn lemma_forget_all_keeps(f: FlowV, names: Seq<Seq<char>>, name: Seq<char>)
    requires
        !names.contains(name),
    ensures
        moves_of(forget_all(f, names), name) == moves_of(f, name),
    decreases names.len(),
{
    if names.len() > 0 {
        assert(!names.drop_last().contains(name)) by {
            if names.drop_last().contains(name) {
                let i = choose|i: int|
                    0 <= i < names.drop_last().len() && names.drop_last()[i] == name;
                assert(names[i] == name);
            }
        }
        assert(names.last() != name) by {
            assert(names[names.len() - 1] == names.last());
        }
        lemma_forget_all_keeps(f, names.drop_last(), name);
    }
}

/// Closing a scope keeps the moves of every name that the scope did not bind.
pub proof fn law_closing_a_scope_keeps_outer_moves(f: FlowV, name: Seq<char>)
    requires
        f.scopes.len() > 0,
        !f.scopes.last().contains(name),
    ensures
        moves_of(pop_scope(f), name) == moves_of(f, name),
{
    let g = FlowV { scopes: f.scopes.drop_last(), ..f };
    lemma_forget_all_keeps(g, f.scopes.last(), name);
}

/// One more move keeps every place out of use that was.
proof fn lemma_with_move_keeps(s: Seq<MoveRecordV>, r: MoveRecordV, place: PlaceV)
    requires
        forall|i: int| 0 <= i < s.len() ==> (#[trigger] s[i]).place.root == place.root,
        r.place.root == place.root,
    ensures
        move_touching(s, place) is Some ==> move_touching(with_move(s, r), place) is Some,
        prefix(r.place, place) || prefix(place, r.place) ==> move_touching(
            with_move(s, r),
            place,
        ) is Some,
        forall|i: int|
            0 <= i < with_move(s, r).len() ==> (#[trigger] with_move(s, r)[i]).place.root
                == place.root,
{
    let t = with_move(s, r);
    if move_touching(s, place) is Some {
        let k = lemma_touching_is_listed(s, place);
        if has_move(s, r) {
        } else if r.place.projections.len() == 0 {
            assert(prefix(r.place, place));
            lemma_touching(t, place, 0);
        } else if !has_whole_move(s) {
            assert(t[k] == s[k]);
            lemma_touching(t, place, k);
        }
    }
    if prefix(r.place, place) || prefix(place, r.place) {
        if has_move(s, r) {
            let k = choose|k: int|
                0 <= k < s.len() && (#[trigger] s[k]).place == r.place && s[k].moved_span
                    == r.moved_span;
            lemma_touching(t, place, k);
        } else if r.place.projections.len() == 0 {
            lemma_touching(t, place, 0);
        } else if has_whole_move(s) {
            let k = choose|k: int| 0 <= k < s.len() && (#[trigger] s[k]).place.projections.len() == 0;
            assert(prefix(s[k].place, place));
            lemma_touching(t, place, k);
        } else {
            assert(t[s.len() as int] == r);
            lemma_touching(t, place, s.len() as int);
        }
    }
}

/// Merging moves keeps every place out of use that either list made so.
proof fn lemma_merged_keeps(s: Seq<MoveRecordV>, incoming: Seq<MoveRecordV>, place: PlaceV)
    requires
        forall|i: int| 0 <= i < s.len() ==> (#[trigger] s[i]).place.root == place.root,
        forall|i: int|
            0 <= i < incoming.len() ==> (#[trigger] incoming[i]).place.root == place.root,
    ensures
        move_touching(s, place) is Some ==> move_touching(merged(s, incoming), place) is Some,
        move_touching(incoming, place) is Some ==> move_touching(
            merged(s, incoming),
            place,
        ) is Some,
        forall|i: int|
            0 <= i < merged(s, incoming).len() ==> (#[trigger] merged(s, incoming)[i]).place.root
                == place.root,
    decreases incoming.len(),
{
    if incoming.len() > 0 {
        let front = incoming.drop_last();
        assert forall|i: int| 0 <= i < front.len() implies (#[trigger] front[i]).place.root
            == place.root by {
            assert(front[i] == incoming[i]);
        }
        assert(incoming.last() == incoming[incoming.len() - 1]);
        lemma_merged_keeps(s, front, place);
        lemma_with_move_keeps(merged(s, front), incoming.last(), place);
        if move_touching(incoming, place) is Some {
            let k = lemma_touching_is_listed(incoming, place);
            if k < front.len() {
                assert(front[k] == incoming[k]);
                lemma_touching(front, place, k);
            }
        }
    }
}

/// Where two paths meet, whatever moved on either of them has moved.
pub proof fn law_a_join_keeps_moves(a: FlowV, b: FlowV, place: PlaceV)
    requires
        rooted(a),
        rooted(b),
        unusable(a, place) || unusable(b, place),
    ensures
        unusable(union(a, b), place),
{
    let s = moves_of(a, place.root);
    let t = moves_of(b, place.root);
    assert forall|i: int| 0 <= i < s.len() implies (#[trigger] s[i]).place.root == place.root by {
        assert(a.moved[place.root][i] == s[i]);
    }
    assert forall|i: int| 0 <= i < t.len() implies (#[trigger] t[i]).place.root == place.root by {
        assert(b.moved[place.root][i] == t[i]);
    }
    lemma_merged_keeps(s, t, place);
}

/// Merging moves brings in no move that neither list holds.
pub proof fn lemma_merged_is_listed(s: Seq<MoveRecordV>, incoming: Seq<MoveRecordV>)
    ensures
        forall|i: int|
            0 <= i < merged(s, incoming).len() ==> s.contains(#[trigger] merged(s, incoming)[i])
                || incoming.contains(merged(s, incoming)[i]),
    decreases incoming.len(),
{
    if incoming.len() == 0 {
        assert forall|i: int| 0 <= i < s.len() implies s.contains(#[trigger] s[i]) by {}
    } else {
        let front = incoming.drop_last();
        let r = incoming.last();
        let t = merged(s, front);
        lemma_merged_is_listed(s, front);
        assert(incoming[incoming.len() - 1] == r);
        assert forall|i: int| 0 <= i < with_move(t, r).len() implies s.contains(
            #[trigger] with_move(t, r)[i],
        ) || incoming.contains(with_move(t, r)[i]) by {
            let x = with_move(t, r)[i];
            if x != r {
                assert(t.contains(x)) by {
                    assert(t[i] == x);
                }
                let k = choose|k: int| 0 <= k < t.len() && t[k] == x;
                assert(s.contains(t[k]) || front.contains(t[k]));
                if front.contains(x) {
                    let j = choose|j: int| 0 <= j < front.len() && front[j] == x;
                    assert(incoming[j] == x);
                }
            }
        }
    }
}

/// Where two paths meet, nothing has moved that moved on neither of them.
pub proof fn law_a_join_adds_no_move(a: FlowV, b: FlowV, place: PlaceV)
    requires
        unusable(union(a, b), place),
    ensures
        unusable(a, place) || unusable(b, place),
{
    let s = moves_of(a, place.root);
    let t = moves_of(b, place.root);
    let m = merged(s, t);
    assert(moves_of(union(a, b), place.root) == m);
    let i = lemma_touching_is_listed(m, place);
    lemma_merged_is_listed(s, t);
    if s.contains(m[i]) {
        let k = choose|k: int| 0 <= k < s.len() && s[k] == m[i];
        lemma_touching(s, place, k);
    } else {
        let k = choose|k: int| 0 <= k < t.len() && t[k] == m[i];
        lemma_touching(t, place, k);
    }
}

/// A place cannot be the base of a longer one: its value, or that of something it is part of, has
/// moved.
pub open spec fn unreachable_below(f: FlowV, place: PlaceV) -> bool {
    move_above(moves_of(f, place.root), place) is Some
}

/// The first move at or above a place is one of the list.
proof fn lemma_above_is_listed(s: Seq<MoveRecordV>, place: PlaceV) -> (i: int)
    requires
        move_above(s, place) is Some,
    ensures
        0 <= i < s.len(),
        prefix(s[i].place, place),
    decreases s.len(),
{
    if prefix(s[0].place, place) {
        0
    } else {
        let k = lemma_above_is_listed(s.skip(1), place);
        assert(s.skip(1)[k] == s[k + 1]);
        k + 1
    }
}

/// One more move keeps every place out of reach that was.
proof fn lemma_with_move_keeps_above(s: Seq<MoveRecordV>, r: MoveRecordV, place: PlaceV)
    requires
        forall|i: int| 0 <= i < s.len() ==> (#[trigger] s[i]).place.root == place.root,
        r.place.root == place.root,
    ensures
        move_above(s, place) is Some ==> move_above(with_move(s, r), place) is Some,
        prefix(r.place, place) ==> move_above(with_move(s, r), place) is Some,
{
    let t = with_move(s, r);
    if move_above(s, place) is Some {
        let k = lemma_above_is_listed(s, place);
        if has_move(s, r) {
        } else if r.place.projections.len() == 0 {
            assert(prefix(r.place, place));
            lemma_above(t, place, 0);
        } else if !has_whole_move(s) {
            assert(t[k] == s[k]);
            lemma_above(t, place, k);
        }
    }
    if prefix(r.place, place) {
        if has_move(s, r) {
            let k = choose|k: int|
                0 <= k < s.len() && (#[trigger] s[k]).place == r.place && s[k].moved_span
                    == r.moved_span;
            lemma_above(t, place, k);
        } else if r.place.projections.len() == 0 {
            lemma_above(t, place, 0);
        } else if has_whole_move(s) {
            let k = choose|k: int| 0 <= k < s.len() && (#[trigger] s[k]).place.projections.len() == 0;
            assert(prefix(s[k].place, place));
            lemma_above(t, place, k);
        } else {
            assert(t[s.len() as int] == r);
            lemma_above(t, place, s.len() as int);
        }
    }
}

/// Merging moves keeps every place out of reach that either list made so.
proof fn lemma_merged_keeps_above(s: Seq<MoveRecordV>, incoming: Seq<MoveRecordV>, place: PlaceV)
    requires
        forall|i: int| 0 <= i < s.len() ==> (#[trigger] s[i]).place.root == place.root,
        forall|i: int|
            0 <= i < incoming.len() ==> (#[trigger] incoming[i]).place.root == place.root,
    ensures
        move_above(s, place) is Some ==> move_above(merged(s, incoming), place) is Some,
        move_above(incoming, place) is Some ==> move_above(merged(s, incoming), place) is Some,
    decreases incoming.len(),
{
    if incoming.len() > 0 {
        let front = incoming.drop_last();
        assert forall|i: int| 0 <= i < front.len() implies (#[trigger] front[i]).place.root
            == place.root by {
            assert(front[i] == incoming[i]);
        }
        assert(incoming.last() == incoming[incoming.len() - 1]);
        lemma_merged_keeps_above(s, front, place);
        lemma_merged_keeps(s, front, place);
        lemma_with_move_keeps_above(merged(s, front), incoming.last(), place);
        if move_above(incoming, place) is Some {
            let k = lemma_above_is_listed(incoming, place);
            if k < front.len() {
                assert(front[k] == incoming[k]);
                lemma_above(front, place, k);
            }
        }
    }
}

/// Where two paths meet, a place can be used just if it could at the end of both of them, as a
/// whole and as the base of a longer one. What is bound, which scopes are open and whether control
/// goes on is as on the first.
pub proof fn law_a_join_is_what_either_path_holds(a: FlowV, b: FlowV, place: PlaceV)
    requires
        rooted(a),
        rooted(b),
    ensures
        unusable(union(a, b), place) <==> unusable(a, place) || unusable(b, place),
        unreachable_below(union(a, b), place) <==> unreachable_below(a, place) || unreachable_below(
            b,
            place,
        ),
        union(a, b).binding_types == a.binding_types,
        union(a, b).borrowed == a.borrowed,
        union(a, b).in_sight == a.in_sight,
        union(a, b).scopes == a.scopes,
        union(a, b).diverged == a.diverged,
{
    let s = moves_of(a, place.root);
    let t = moves_of(b, place.root);
    let m = merged(s, t);
    assert(moves_of(union(a, b), place.root) == m);
    assert forall|i: int| 0 <= i < s.len() implies (#[trigger] s[i]).place.root == place.root by {
        assert(a.moved[place.root][i] == s[i]);
    }
    assert forall|i: int| 0 <= i < t.len() implies (#[trigger] t[i]).place.root == place.root by {
        assert(b.moved[place.root][i] == t[i]);
    }
    if unusable(a, place) || unusable(b, place) {
        law_a_join_keeps_moves(a, b, place);
    }
    if unusable(union(a, b), place) {
        law_a_join_adds_no_move(a, b, place);
    }
    lemma_merged_keeps_above(s, t, place);
    if unreachable_below(union(a, b), place) {
        let i = lemma_above_is_listed(m, place);
        lemma_merged_is_listed(s, t);
        if s.contains(m[i]) {
            let k = choose|k: int| 0 <= k < s.len() && s[k] == m[i];
            lemma_above(s, place, k);
        } else {
            let k = choose|k: int| 0 <= k < t.len() && t[k] == m[i];
            lemma_above(t, place, k);
        }
    }
}

/// A move of a whole binding stays recorded as one, and so does one that is added.
proof fn lemma_merged_whole(s: Seq<MoveRecordV>, t: Seq<MoveRecordV>)
    ensures
        has_whole_move(s) || has_whole_move(t) ==> has_whole_move(merged(s, t)),
        forall|i: int|
            0 <= i < t.len() ==> has_move(merged(s, t), #[trigger] t[i]) || has_whole_move(
                merged(s, t),
            ),
    decreases t.len(),
{
    if t.len() > 0 {
        let front = t.drop_last();
        let r = t.last();
        let before = merged(s, front);
        let after = merged(s, t);
        lemma_merged_whole(s, front);
        assert(after == with_move(before, r));
        if has_whole_move(before) {
            let k = choose|k: int|
                0 <= k < before.len() && (#[trigger] before[k]).place.projections.len() == 0;
            assert(after[if after == before { k } else { 0 }].place.projections.len() == 0);
        }
        if r.place.projections.len() == 0 {
            if has_move(before, r) {
                let k = choose|k: int|
                    0 <= k < before.len() && (#[trigger] before[k]).place == r.place
                        && before[k].moved_span == r.moved_span;
                assert(after[k].place.projections.len() == 0);
            } else {
                assert(after[0].place.projections.len() == 0);
            }
        }
        if has_whole_move(t) && !has_whole_move(front) {
            let k = choose|k: int| 0 <= k < t.len() && (#[trigger] t[k]).place.projections.len() == 0;
            if k < front.len() {
                assert(front[k].place.projections.len() == 0);
            }
        }
        assert forall|i: int| 0 <= i < t.len() implies has_move(after, #[trigger] t[i])
            || has_whole_move(after) by {
            if i < front.len() {
                assert(front[i] == t[i]);
                if has_move(before, t[i]) && !has_whole_move(after) {
                    let k = choose|k: int|
                        0 <= k < before.len() && (#[trigger] before[k]).place == t[i].place
                            && before[k].moved_span == t[i].moved_span;
                    assert(after[k] == before[k]);
                }
            } else if !has_move(before, r) && r.place.projections.len() != 0 && !has_whole_move(
                before,
            ) {
                assert(after[before.len() as int] == r);
            }
        }
    }
}

/// The last move of a whole binding in a list is known once the list was merged.
proof fn lemma_last_whole_is_known(t: Seq<MoveRecordV>) -> (w: MoveRecordV)
    requires
        has_whole_move(t),
    ensures
        w.place.projections.len() == 0,
        t.contains(w),
        forall|x: Seq<MoveRecordV>| #[trigger] has_move(merged(x, t), w),
    decreases t.len(),
{
    let front = t.drop_last();
    let r = t.last();
    assert(t[t.len() - 1] == r);
    if r.place.projections.len() == 0 {
        assert forall|x: Seq<MoveRecordV>| #[trigger] has_move(merged(x, t), r) by {
            let before = merged(x, front);
            assert(merged(x, t) == with_move(before, r));
            if !has_move(before, r) {
                assert(merged(x, t)[0] == r);
            }
        }
        r
    } else {
        let k = choose|k: int| 0 <= k < t.len() && (#[trigger] t[k]).place.projections.len() == 0;
        assert(front[k].place.projections.len() == 0);
        let w = lemma_last_whole_is_known(front);
        let j = choose|j: int| 0 <= j < front.len() && front[j] == w;
        assert(t[j] == w);
        assert forall|x: Seq<MoveRecordV>| #[trigger] has_move(merged(x, t), w) by {
            lemma_merged_whole(x, front);
            assert(has_move(merged(x, front), w));
            assert(merged(x, t) == merged(x, front));
        }
        w
    }
}

/// Merging into a single move of a whole binding leaves a single one.
proof fn lemma_merged_into_whole(r: MoveRecordV, t: Seq<MoveRecordV>)
    requires
        r.place.projections.len() == 0,
    ensures
        merged(seq![r], t).len() == 1,
        merged(seq![r], t)[0].place.projections.len() == 0,
        !has_whole_move(t) ==> merged(seq![r], t) == seq![r],
    decreases t.len(),
{
    if t.len() > 0 {
        let front = t.drop_last();
        lemma_merged_into_whole(r, front);
        let before = merged(seq![r], front);
        assert(has_whole_move(before)) by {
            assert(before[0].place.projections.len() == 0);
        }
        if !has_whole_move(t) {
            assert(!has_whole_move(front)) by {
                if has_whole_move(front) {
                    let k = choose|k: int|
                        0 <= k < front.len() && (#[trigger] front[k]).place.projections.len() == 0;
                    assert(t[k].place.projections.len() == 0);
                }
            }
            assert(t[t.len() - 1].place.projections.len() != 0);
        }
    }
}

/// Merging a list a second time changes nothing.
proof fn lemma_merged_again(s: Seq<MoveRecordV>, t: Seq<MoveRecordV>, root: Seq<char>)
    requires
        forall|i: int| 0 <= i < s.len() ==> (#[trigger] s[i]).place.root == root,
        forall|i: int| 0 <= i < t.len() ==> (#[trigger] t[i]).place.root == root,
    ensures
        merged(merged(s, t), t) == merged(s, t),
    decreases t.len(),
{
    if t.len() > 0 {
        let front = t.drop_last();
        let r = t.last();
        assert(t[t.len() - 1] == r);
        assert forall|i: int| 0 <= i < front.len() implies (#[trigger] front[i]).place.root
            == root by {
            assert(front[i] == t[i]);
        }
        lemma_merged_again(s, front, root);
        let before = merged(s, front);
        let after = merged(s, t);
        assert(after == with_move(before, r));
        if has_move(before, r) {
        } else if r.place.projections.len() == 0 {
            assert(after == seq![r]);
            lemma_merged_into_whole(r, front);
            let again = merged(seq![r], front);
            if has_whole_move(front) {
                let w = lemma_last_whole_is_known(front);
                assert(has_move(again, w));
                assert(has_move(before, w));
                assert(again[0].place == w.place && again[0].moved_span == w.moved_span);
                let j = choose|j: int| 0 <= j < front.len() && front[j] == w;
                assert(front[j].place.root == root);
                assert(w.place.projections =~= r.place.projections);
                assert(w.place == r.place);
                let k = choose|k: int|
                    0 <= k < before.len() && (#[trigger] before[k]).place == w.place
                        && before[k].moved_span == w.moved_span;
                assert(w.moved_span != r.moved_span) by {
                    if w.moved_span == r.moved_span {
                        assert(before[k].place == r.place && before[k].moved_span == r.moved_span);
                    }
                }
                assert(!has_move(again, r));
            } else {
                assert(seq![r][0].place == r.place && seq![r][0].moved_span == r.moved_span);
                assert(has_move(again, r));
            }
        } else if has_whole_move(before) {
        } else {
            lemma_merged_whole(s, front);
            assert forall|i: int| 0 <= i < front.len() implies has_move(
                after,
                #[trigger] front[i],
            ) by {
                let k = choose|k: int|
                    0 <= k < before.len() && (#[trigger] before[k]).place == front[i].place
                        && before[k].moved_span == front[i].moved_span;
                assert(after[k] == before[k]);
            }
            lemma_merged_known(after, front);
            assert(after[before.len() as int] == r);
            assert(has_move(after, r));
        }
    }
}

/// Joining a path a second time changes nothing.
pub proof fn law_joining_again_changes_nothing(a: FlowV, b: FlowV)
    requires
        rooted(a),
        rooted(b),
    ensures
        union(union(a, b), b) == union(a, b),
{
    let f = union(a, b);
    let g = union(f, b);
    assert forall|k: Seq<char>| f.moved.dom().contains(k) implies #[trigger] g.moved[k]
        == f.moved[k] by {
        let s = moves_of(a, k);
        let t = moves_of(b, k);
        assert forall|i: int| 0 <= i < s.len() implies (#[trigger] s[i]).place.root == k by {
            assert(a.moved[k][i] == s[i]);
        }
        assert forall|i: int| 0 <= i < t.len() implies (#[trigger] t[i]).place.root == k by {
            assert(b.moved[k][i] == t[i]);
        }
        lemma_merged_again(s, t, k);
        assert(moves_of(f, k) == merged(s, t));
    }
    assert(g.moved =~= f.moved);
}

/// Merging moves that are all known changes nothing.
proof fn lemma_merged_known(s: Seq<MoveRecordV>, incoming: Seq<MoveRecordV>)
    requires
        forall|i: int| 0 <= i < incoming.len() ==> has_move(s, #[trigger] incoming[i]),
    ensures
        merged(s, incoming) == s,
    decreases incoming.len(),
{
    if incoming.len() > 0 {
        let front = incoming.drop_last();
        assert forall|i: int| 0 <= i < front.len() implies has_move(s, #[trigger] front[i]) by {
            assert(front[i] == incoming[i]);
        }
        assert(has_move(s, incoming[incoming.len() - 1]));
        lemma_merged_known(s, front);
    }
}

/// Joining a path with itself changes nothing.
pub proof fn law_a_join_with_itself_changes_nothing(f: FlowV)
    ensures
        union(f, f) == f,
{
    assert forall|k: Seq<char>| f.moved.dom().contains(k) implies merged(
        moves_of(f, k),
        moves_of(f, k),
    ) == f.moved[k] by {
        let s = moves_of(f, k);
        assert forall|i: int| 0 <= i < s.len() implies has_move(s, #[trigger] s[i]) by {
            assert(s[i].place == s[i].place && s[i].moved_span == s[i].moved_span);
        }
        lemma_merged_known(s, s);
    }
    assert(union(f, f).moved =~= f.moved);
}

} // verus!
