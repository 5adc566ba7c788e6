//! What moves on a branch is gone behind it.
use vstd::prelude::*;
use crate::place::PlaceV;
use crate::typed_ast::{TypedBlock, TypedExpr, TypedMatchArm};
use super::flow::{along, unseen, FlowV};
use super::flow_laws::{law_a_join_keeps_moves, rooted, unusable};
use super::rule_laws::{law_a_branch_counts, law_either_branch_counts, lemma_unseen};
use super::walk::{after_match, join_branches, join_single_branch, joined_with, observe};
use super::walk::{observe_within, on_flow, unmoved, walk_arm, walk_arms, walk_block, ArmsV, Cx};
use super::walk::WorldV;
use super::walk_laws::{advances, law_a_block_advances, law_observing_advances, lemma_along_rooted};
use super::walk_laws::{lemma_arm, lemma_arms, lemma_joined_rooted, sound};

verus! {

/// Whether a block that is entered with a flow always comes to its end, with a place gone.
pub open spec fn block_loses(cx: Cx, b: TypedBlock, f: FlowV, place: PlaceV) -> bool {
    forall|v: WorldV|
        sound(v) && v.flow == f ==> !(#[trigger] walk_block(cx, b, v)).flow.diverged && unusable(
            walk_block(cx, b, v).flow,
            place,
        )
}

/// Whether an arm that is entered with a flow always comes to its end, with a place gone.
pub open spec fn arm_loses(
    cx: Cx,
    scrutinee: TypedExpr,
    arm: TypedMatchArm,
    f: FlowV,
    place: PlaceV,
) -> bool {
    forall|v: WorldV|
        sound(v) && v.flow == f ==> !(#[trigger] walk_arm(cx, scrutinee, arm, v)).flow.diverged
            && unusable(walk_arm(cx, scrutinee, arm, v).flow, place)
}

proof fn lemma_sound(a: WorldV, b: WorldV)
    requires
        advances(a, b),
        sound(a),
    ensures
        sound(b),
{
    reveal(advances);
}

/// What is gone at the end of either branch of a conditional is gone behind it.
pub proof fn law_what_a_branch_loses_is_gone(
    cx: Cx,
    e: TypedExpr,
    condition: TypedExpr,
    b: TypedBlock,
    w: WorldV,
    place: PlaceV,
)
    requires
        sound(w),
        e matches TypedExpr::If { condition: c, then_branch, else_branch, .. } && *c == condition && (
        then_branch == b || else_branch == Some(b)),
        block_loses(cx, b, observe(cx, condition, w).flow, place),
    ensures
        unusable(observe(cx, e, w).flow, place),
{
    if let TypedExpr::If { then_branch, else_branch, .. } = e {
        let w1 = observe(cx, condition, w);
        law_observing_advances(cx, condition, w);
        lemma_sound(w, w1);
        let w2 = walk_block(cx, then_branch, w1);
        law_a_block_advances(cx, then_branch, w1);
        lemma_sound(w1, w2);
        lemma_along_rooted(w1.flow, w2.flow);
        assert(observe(cx, e, w) == observe_within(cx, e, w));
        match else_branch {
            Some(o) => {
                let v = on_flow(w2, w1.flow);
                assert(sound(v));
                let w3 = walk_block(cx, o, v);
                law_a_block_advances(cx, o, v);
                lemma_sound(v, w3);
                lemma_along_rooted(w1.flow, w3.flow);
                assert(rooted(unmoved(w1.flow)));
                lemma_joined_rooted(unmoved(w1.flow), w1.flow, w2.flow);
                law_either_branch_counts(w1.flow, w2, w3, place);
                assert(observe_within(cx, e, w) == join_branches(w1.flow, w2, w3));
            },
            None => {
                law_a_branch_counts(w1.flow, w2, place);
                assert(observe_within(cx, e, w) == join_single_branch(w1.flow, w2));
            },
        }
    }
}

proof fn lemma_lost(
    cx: Cx,
    scrutinee: TypedExpr,
    s: Seq<TypedMatchArm>,
    start: ArmsV,
    k: int,
    place: PlaceV,
)
    requires
        0 <= k < s.len(),
        sound(start.world),
        rooted(start.joined),
        arm_loses(cx, scrutinee, s[k], start.world.flow, place),
    ensures
        walk_arms(cx, scrutinee, s, start).falls,
        unusable(walk_arms(cx, scrutinee, s, start).joined, place),
    decreases s.len(),
{
    let n = s.len() - 1;
    let front = s.subrange(0, n);
    let before = walk_arms(cx, scrutinee, front, start);
    lemma_arms(cx, scrutinee, front, start);
    let w = before.world;
    lemma_sound(start.world, w);
    let w1 = walk_arm(cx, scrutinee, s[n], w);
    lemma_arm(cx, scrutinee, s[n], w);
    lemma_sound(w, w1);
    lemma_along_rooted(w.flow, w1.flow);
    assert(walk_arms(cx, scrutinee, s, start).joined == joined_with(before.joined, w.flow, w1.flow));
    if k < n {
        assert(front[k] == s[k]);
        lemma_lost(cx, scrutinee, front, start, k, place);
        if !w1.flow.diverged {
            law_a_join_keeps_moves(before.joined, along(w.flow, w1.flow), place);
        }
    } else {
        lemma_unseen(w.flow, w1.flow);
        law_a_join_keeps_moves(unseen(w.flow, w1.flow), w1.flow, place);
        law_a_join_keeps_moves(before.joined, along(w.flow, w1.flow), place);
    }
}

/// What is gone at the end of an arm of a match is gone behind the match.
pub proof fn law_what_an_arm_loses_is_gone(
    cx: Cx,
    e: TypedExpr,
    scrutinee: TypedExpr,
    arms: Seq<TypedMatchArm>,
    k: int,
    w: WorldV,
    place: PlaceV,
)
    requires
        sound(w),
        e matches TypedExpr::Match(m) && *m.scrutinee == scrutinee && m.arms@ == arms,
        0 <= k < arms.len(),
        arm_loses(cx, scrutinee, arms[k], observe(cx, scrutinee, w).flow, place),
    ensures
        unusable(observe(cx, e, w).flow, place),
{
    let w1 = observe(cx, scrutinee, w);
    law_observing_advances(cx, scrutinee, w);
    lemma_sound(w, w1);
    let start = ArmsV { world: w1, joined: unmoved(w1.flow), falls: false };
    assert(rooted(unmoved(w1.flow)));
    lemma_lost(cx, scrutinee, arms, start, k, place);
    assert(observe(cx, e, w) == observe_within(cx, e, w));
    assert(observe_within(cx, e, w) == after_match(
        w1.flow,
        walk_arms(cx, scrutinee, arms, start),
        arms.len() == 0,
    ));
}

} // verus!
