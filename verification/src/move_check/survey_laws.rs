//! What a survey counts, and what it lists.
use vstd::prelude::*;
use super::in_user_code;
use super::report::{in_embedded_std, MoveCheckReportV, MoveViolationV};
use super::survey::{detail, fault, first_fault, greatest_first, greatest_second, surveyed, tallied};
use super::survey::{ProgramV, SurveyV};

verus! {

/// How many of the first `k` violations are in user code, or in the standard library.
pub open spec fn how_many(s: Seq<MoveViolationV>, user: bool, k: int) -> nat
    decreases k,
{
    if k <= 0 || k > s.len() {
        0
    } else if in_embedded_std(s[k - 1].use_span) != user {
        how_many(s, user, k - 1) + 1
    } else {
        how_many(s, user, k - 1)
    }
}

/// How many of the first `k` violations are in user code and come from a receiver taken by value.
pub open spec fn how_many_received(s: Seq<MoveViolationV>, k: int) -> nat
    decreases k,
{
    if k <= 0 || k > s.len() {
        0
    } else if !in_embedded_std(s[k - 1].use_span) && s[k - 1].moved_by_value_receiver {
        how_many_received(s, k - 1) + 1
    } else {
        how_many_received(s, k - 1)
    }
}

/// A count as it is kept: the greatest number there is, where it is greater.
pub open spec fn kept(n: int) -> int {
    if n > usize::MAX {
        usize::MAX as int
    } else {
        n
    }
}

proof fn lemma_tallied(start: ProgramV, s: Seq<MoveViolationV>, k: int)
    requires
        0 <= k <= s.len(),
    ensures
        tallied(start, s, k).user == kept(start.user + how_many(s, true, k)),
        tallied(start, s, k).embedded == kept(start.embedded + how_many(s, false, k)),
        tallied(start, s, k).by_value == kept(start.by_value + how_many_received(s, k)),
        tallied(start, s, k).details.len() == start.details.len() + how_many(s, true, k),
        start.details.is_prefix_of(tallied(start, s, k).details),
        forall|i: int|
            0 <= i < k && !in_embedded_std((#[trigger] s[i]).use_span) ==> tallied(
                start,
                s,
                k,
            ).details[start.details.len() as int + how_many(s, true, i) as int] == detail(s[i]) && how_many(
                s,
                true,
                i,
            ) < how_many(s, true, k),
    decreases k,
{
    if k > 0 {
        lemma_tallied(start, s, k - 1);
        let before = tallied(start, s, k - 1);
        let after = tallied(start, s, k);
        assert(in_user_code(s[k - 1]) == !in_embedded_std(s[k - 1].use_span));
        assert forall|i: int| 0 <= i < k && !in_embedded_std((#[trigger] s[i]).use_span) implies
            after.details[start.details.len() as int + how_many(s, true, i) as int] == detail(s[i]) && how_many(
            s,
            true,
            i,
        ) < how_many(s, true, k) by {
            if i < k - 1 {
                let at = start.details.len() as int + how_many(s, true, i) as int;
                assert(at < before.details.len());
                assert(after.details[at] == before.details[at]);
            }
        }
    }
}

/// A survey counts every violation once: in user code or in the standard library, and those in user
/// code that come from a receiver taken by value besides.
pub proof fn law_every_violation_is_counted_once(
    s: SurveyV,
    name: Seq<char>,
    r: MoveCheckReportV,
)
    ensures
        surveyed(s, name, r).user_violations == kept(
            s.user_violations + how_many(r.violations, true, r.violations.len() as int),
        ),
        surveyed(s, name, r).embedded_violations == kept(
            s.embedded_violations + how_many(r.violations, false, r.violations.len() as int),
        ),
        surveyed(s, name, r).by_value_receiver_moves == kept(
            s.by_value_receiver_moves + how_many_received(
                r.violations,
                r.violations.len() as int,
            ),
        ),
        surveyed(s, name, r).skipped_user == kept(s.skipped_user + r.skipped_generic_bodies_user),
        surveyed(s, name, r).skipped_embedded == kept(
            s.skipped_embedded + r.skipped_generic_bodies_embedded_std,
        ),
{
    lemma_tallied(fresh(s), r.violations, r.violations.len() as int);
}

/// The counts of a survey, with nothing listed yet.
pub open spec fn fresh(s: SurveyV) -> ProgramV {
    ProgramV {
        user: s.user_violations,
        by_value: s.by_value_receiver_moves,
        embedded: s.embedded_violations,
        details: Seq::empty(),
    }
}

/// A program is listed just if it has a violation in user code, behind those listed before, and its
/// violations in user code stand there in their order.
pub proof fn law_failing_programs_are_listed(
    s: SurveyV,
    name: Seq<char>,
    r: MoveCheckReportV,
    i: int,
)
    requires
        0 <= i < r.violations.len(),
        !in_embedded_std(r.violations[i].use_span),
    ensures
        surveyed(s, name, r).failing.len() == s.failing.len() + 1,
        s.failing.is_prefix_of(surveyed(s, name, r).failing),
        surveyed(s, name, r).failing.last().0 == name,
        surveyed(s, name, r).failing.last().1.len() == how_many(
            r.violations,
            true,
            r.violations.len() as int,
        ),
        surveyed(s, name, r).failing.last().1[how_many(r.violations, true, i) as int] == detail(
            r.violations[i],
        ),
{
    lemma_tallied(fresh(s), r.violations, r.violations.len() as int);
    assert(!in_embedded_std(r.violations[i].use_span));
}

/// A program without a violation in user code is not listed.
pub proof fn law_sound_programs_are_not_listed(s: SurveyV, name: Seq<char>, r: MoveCheckReportV)
    requires
        forall|i: int|
            0 <= i < r.violations.len() ==> in_embedded_std((#[trigger] r.violations[i]).use_span),
    ensures
        surveyed(s, name, r).failing == s.failing,
        surveyed(s, name, r).user_violations == s.user_violations,
{
    let n = r.violations.len() as int;
    lemma_tallied(fresh(s), r.violations, n);
    lemma_none(r.violations, n);
}

proof fn lemma_none(s: Seq<MoveViolationV>, k: int)
    requires
        0 <= k <= s.len(),
        forall|i: int| 0 <= i < s.len() ==> in_embedded_std((#[trigger] s[i]).use_span),
    ensures
        how_many(s, true, k) == 0,
    decreases k,
{
    if k > 0 {
        lemma_none(s, k - 1);
        assert(in_embedded_std(s[k - 1].use_span));
    }
}

/// The greatest numbers are at least every number, and are among them.
pub proof fn law_the_greatest_are_greatest(s: Seq<(usize, usize)>, k: int)
    requires
        0 <= k <= s.len(),
    ensures
        forall|i: int| 0 <= i < k ==> (#[trigger] s[i]).0 <= greatest_first(s, k) && s[i].1
            <= greatest_second(s, k),
        k > 0 ==> exists|i: int| 0 <= i < k && (#[trigger] s[i]).0 == greatest_first(s, k),
        k > 0 ==> exists|i: int| 0 <= i < k && (#[trigger] s[i]).1 == greatest_second(s, k),
        k == 0 ==> greatest_first(s, k) == 0 && greatest_second(s, k) == 0,
    decreases k,
{
    if k > 0 {
        law_the_greatest_are_greatest(s, k - 1);
        let last = s[k - 1];
        if k - 1 > 0 {
            let i = choose|i: int| 0 <= i < k - 1 && (#[trigger] s[i]).0 == greatest_first(s, k - 1);
            let j = choose|j: int|
                0 <= j < k - 1 && (#[trigger] s[j]).1 == greatest_second(s, k - 1);
            assert(s[i].0 == greatest_first(s, k - 1));
            assert(s[j].1 == greatest_second(s, k - 1));
        }
    }
}

/// A fault is found just if a violation in user code from the position on has one, and it is that
/// of the first such.
pub proof fn law_the_first_fault_is_told(s: Seq<MoveViolationV>, i: int)
    requires
        0 <= i <= s.len(),
    ensures
        match first_fault(s, i) {
            Some(text) => exists|k: int|
                i <= k < s.len() && !in_embedded_std((#[trigger] s[k]).use_span) && fault(s[k])
                    == Some(text) && forall|j: int|
                    i <= j < k ==> in_embedded_std((#[trigger] s[j]).use_span) || fault(s[j]) is None,
            None => forall|j: int|
                i <= j < s.len() ==> in_embedded_std((#[trigger] s[j]).use_span) || fault(s[j]) is None,
        },
    decreases s.len() - i,
{
    if i < s.len() {
        assert(in_user_code(s[i]) == !in_embedded_std(s[i].use_span));
        if !(in_user_code(s[i]) && fault(s[i]) is Some) {
            law_the_first_fault_is_told(s, i + 1);
            if let Some(text) = first_fault(s, i + 1) {
                let k = choose|k: int|
                    i + 1 <= k < s.len() && !in_embedded_std((#[trigger] s[k]).use_span) && fault(
                        s[k],
                    ) == Some(text) && forall|j: int|
                        i + 1 <= j < k ==> in_embedded_std((#[trigger] s[j]).use_span) || fault(s[j]) is None;
                assert(!in_embedded_std(s[k].use_span));
            }
        }
    }
}

/// A violation is a fault of the walk just if a move is its own use, other than on an earlier round
/// of a loop, or if a whole is blamed for the move of its part at that move.
pub proof fn law_a_move_is_not_its_own_use(v: MoveViolationV)
    ensures
        fault(v) is Some <==> v.use_span == v.moved_span && (!v.moved_in_previous_iteration || (
        v.moved_place.root == v.use_place.root && v.moved_place.projections.len()
            == v.use_place.projections.len() + 1 && v.use_place.projections.is_prefix_of(
            v.moved_place.projections,
        ))),
{
    let m = v.moved_place.projections;
    let u = v.use_place.projections;
    if m.len() == u.len() + 1 && u.is_prefix_of(m) {
        assert(m.drop_last() =~= u);
    }
    if m.len() > 0 && m.drop_last() == u {
        assert(u.is_prefix_of(m));
    }
}

} // verus!
