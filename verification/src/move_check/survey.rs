//! How many violations the move checker finds over many programs.
use vstd::prelude::*;
use crate::place::Place;
use crate::text::{decimal, decimal_text, join_spec, join_texts, joined, joined3, joined5, same_text};
use crate::text::texts;
use super::in_user_code;
use super::report::{counted, is_embedded_std_span, span_text, text_of_place};
use super::report::{format_span, MoveCheckReport, MoveCheckReportV, MoveViolation, MoveViolationV};

verus! {

/// Whether a violation blames the whole for the move of one of its parts, at the move itself.
pub open spec fn blames_base(v: MoveViolationV) -> bool {
    &&& v.moved_place.root == v.use_place.root
    &&& v.moved_place.projections.len() > 0
    &&& v.use_span == v.moved_span
    &&& v.moved_place.projections.drop_last() == v.use_place.projections
}

/// Whether a violation blames the whole for the move of one of its parts, at the move itself.
pub fn is_projection_base_only_violation(violation: &MoveViolation) -> (r: bool)
    ensures
        r == blames_base(violation@),
{
    let moved: &Place = &violation.moved_place;
    let used: &Place = &violation.use_place;
    let ghost m = moved@.projections;
    let ghost u = used@.projections;
    assert(m.len() == moved.projections@.len());
    assert(u.len() == used.projections@.len());
    if !same_text(moved.root.as_str(), used.root.as_str()) {
        return false;
    }
    let n: usize = moved.projections.len();
    if n == 0 {
        return false;
    }
    if !violation.use_span.same(&violation.moved_span) {
        return false;
    }
    if used.projections.len() != n - 1 {
        assert(m.drop_last().len() != u.len());
        return false;
    }
    let mut i: usize = 0;
    while i < used.projections.len()
        invariant
            i <= used.projections@.len(),
            used.projections@.len() == n - 1,
            n == moved.projections@.len(),
            m == moved@.projections,
            u == used@.projections,
            m.len() == moved.projections@.len(),
            u.len() == used.projections@.len(),
            *moved == violation.moved_place,
            *used == violation.use_place,
            forall|k: int| 0 <= k < i ==> u[k] == m[k],
        decreases used.projections@.len() - i,
    {
        assert(m[i as int] == moved.projections@[i as int]@);
        assert(u[i as int] == used.projections@[i as int]@);
        if !used.projections[i].same(&moved.projections[i]) {
            assert(m.drop_last()[i as int] != u[i as int]);
            return false;
        }
        i += 1;
    }
    assert(m.drop_last() =~= u);
    true
}

/// What is wrong with a violation that the checker must not report. A move on an earlier iteration
/// of a loop may well be its own use.
pub open spec fn fault(v: MoveViolationV) -> Option<Seq<char>> {
    if v.use_span == v.moved_span && !v.moved_in_previous_iteration {
        Some(
            "checker bug: move site reported as its own use for `"@ + v.binding + "` at "@
                + v.use_span.filename + ":"@ + decimal(v.use_span.line as nat),
        )
    } else if blames_base(v) {
        Some(
            "checker bug: projection base falsely reported for `"@ + v.binding + "`: use="@
                + text_of_place(v.use_place) + " moved="@ + text_of_place(v.moved_place),
        )
    } else {
        None
    }
}

fn find_fault(v: &MoveViolation) -> (r: Option<String>)
    ensures
        match r {
            Some(m) => fault(v@) == Some(m@),
            None => fault(v@) is None,
        },
{
    if v.use_span.same(&v.moved_span) && !v.moved_in_previous_iteration {
        let head: String = joined5(
            "checker bug: move site reported as its own use for `",
            v.binding.as_str(),
            "` at ",
            v.use_span.filename.as_str(),
            ":",
        );
        Some(joined(head.as_str(), decimal_text(v.use_span.line as u64).as_str()))
    } else if is_projection_base_only_violation(v) {
        let used: String = v.use_place.describe();
        let moved: String = v.moved_place.describe();
        let head: String = joined5(
            "checker bug: projection base falsely reported for `",
            v.binding.as_str(),
            "`: use=",
            used.as_str(),
            " moved=",
        );
        Some(joined(head.as_str(), moved.as_str()))
    } else {
        None
    }
}

/// A violation on one line: where it is, what is used, and what moved where.
pub open spec fn detail(v: MoveViolationV) -> Seq<char> {
    span_text(v.use_span) + ":"@ + text_of_place(v.use_place) + ":"@ + v.binding + "->"@
        + text_of_place(v.moved_place) + ":"@ + decimal(v.moved_span.line as nat) + ":"@ + decimal(
        v.moved_span.col as nat,
    )
}

/// A violation on one line: where it is, what is used, and what moved where.
pub fn describe_violation(v: &MoveViolation) -> (r: String)
    ensures
        r@ == detail(v@),
{
    let site: String = format_span(&v.use_span);
    let used: String = v.use_place.describe();
    let moved: String = v.moved_place.describe();
    let mut out: String = joined5(site.as_str(), ":", used.as_str(), ":", v.binding.as_str());
    out.append("->");
    out.append(moved.as_str());
    out.append(":");
    out.append(decimal_text(v.moved_span.line as u64).as_str());
    out.append(":");
    out.append(decimal_text(v.moved_span.col as u64).as_str());
    out
}

/// The sum of two numbers, or the greatest there is where it is not representable.
pub open spec fn total(a: usize, b: usize) -> usize {
    if a + b > usize::MAX {
        usize::MAX
    } else {
        (a + b) as usize
    }
}

/// What the violations of a program come to.
pub ghost struct ProgramV {
    pub user: usize,
    pub by_value: usize,
    pub embedded: usize,
    pub details: Seq<Seq<char>>,
}

/// The first `k` violations of a program added to counts; those in embedded modules only count.
pub open spec fn tallied(start: ProgramV, s: Seq<MoveViolationV>, k: int) -> ProgramV
    decreases k,
{
    if k <= 0 || k > s.len() {
        start
    } else {
        let before = tallied(start, s, k - 1);
        let v = s[k - 1];
        if in_user_code(v) {
            ProgramV {
                user: counted(before.user),
                by_value: if v.moved_by_value_receiver {
                    counted(before.by_value)
                } else {
                    before.by_value
                },
                details: before.details.push(detail(v)),
                ..before
            }
        } else {
            ProgramV { embedded: counted(before.embedded), ..before }
        }
    }
}

/// The first fault among violations in user code, from a position on.
pub open spec fn first_fault(s: Seq<MoveViolationV>, i: int) -> Option<Seq<char>>
    decreases s.len() - i,
{
    if i < 0 || i >= s.len() {
        None
    } else if in_user_code(s[i]) && fault(s[i]) is Some {
        fault(s[i])
    } else {
        first_fault(s, i + 1)
    }
}

/// A program with violations.
pub struct Failing {
    pub name: String,
    pub details: Vec<String>,
}

/// What the checker found over the programs so far.
pub struct Survey {
    pub user_violations: usize,
    pub by_value_receiver_moves: usize,
    pub embedded_violations: usize,
    pub skipped_user: usize,
    pub skipped_embedded: usize,
    /// The generic bodies passed over per program, in user code and in embedded modules, sorted.
    pub skips: Vec<(usize, usize)>,
    pub failing: Vec<Failing>,
}

/// The value of a [`Survey`] as a mathematical object.
pub ghost struct SurveyV {
    pub user_violations: usize,
    pub by_value_receiver_moves: usize,
    pub embedded_violations: usize,
    pub skipped_user: usize,
    pub skipped_embedded: usize,
    pub skips: Seq<(usize, usize)>,
    pub failing: Seq<(Seq<char>, Seq<Seq<char>>)>,
}

/// Programs with violations as mathematical objects.
pub open spec fn failing_view(s: Seq<Failing>) -> Seq<(Seq<char>, Seq<Seq<char>>)> {
    Seq::new(s.len(), |i: int| (s[i].name@, texts(s[i].details@)))
}

impl View for Survey {
    type V = SurveyV;

    open spec fn view(&self) -> SurveyV {
        SurveyV {
            user_violations: self.user_violations,
            by_value_receiver_moves: self.by_value_receiver_moves,
            embedded_violations: self.embedded_violations,
            skipped_user: self.skipped_user,
            skipped_embedded: self.skipped_embedded,
            skips: self.skips@,
            failing: failing_view(self.failing@),
        }
    }
}

/// Whether a pair comes before another: by the first number, then by the second.
pub open spec fn pair_before(a: (usize, usize), b: (usize, usize)) -> bool {
    a.0 < b.0 || (a.0 == b.0 && a.1 < b.1)
}

/// A sorted sequence of pairs with one more in its place.
pub open spec fn pair_placed(s: Seq<(usize, usize)>, x: (usize, usize)) -> Seq<(usize, usize)>
    decreases s.len(),
{
    if s.len() == 0 {
        seq![x]
    } else if pair_before(x, s[0]) {
        seq![x] + s
    } else {
        seq![s[0]] + pair_placed(s.skip(1), x)
    }
}

/// A survey with the report on one more program.
pub open spec fn surveyed(s: SurveyV, name: Seq<char>, r: MoveCheckReportV) -> SurveyV {
    let p = tallied(
        ProgramV {
            user: s.user_violations,
            by_value: s.by_value_receiver_moves,
            embedded: s.embedded_violations,
            details: Seq::empty(),
        },
        r.violations,
        r.violations.len() as int,
    );
    SurveyV {
        user_violations: p.user,
        by_value_receiver_moves: p.by_value,
        embedded_violations: p.embedded,
        skipped_user: total(s.skipped_user, r.skipped_generic_bodies_user),
        skipped_embedded: total(s.skipped_embedded, r.skipped_generic_bodies_embedded_std),
        skips: pair_placed(
            s.skips,
            (r.skipped_generic_bodies_user, r.skipped_generic_bodies_embedded_std),
        ),
        failing: if p.details.len() == 0 {
            s.failing
        } else {
            s.failing.push((name, p.details))
        },
    }
}

proof fn lemma_pair_placed_later(s: Seq<(usize, usize)>, x: (usize, usize), i: int)
    requires
        0 <= i <= s.len(),
        forall|k: int| 0 <= k < i ==> !pair_before(x, #[trigger] s[k]),
    ensures
        pair_placed(s, x) == s.take(i) + pair_placed(s.skip(i), x),
    decreases i,
{
    if i == 0 {
        assert(s.skip(0) =~= s);
        assert(s.take(0) + pair_placed(s, x) =~= pair_placed(s, x));
    } else {
        let rest = s.skip(1);
        assert forall|k: int| 0 <= k < i - 1 implies !pair_before(x, #[trigger] rest[k]) by {
            assert(rest[k] == s[k + 1]);
        }
        lemma_pair_placed_later(rest, x, i - 1);
        assert(rest.skip(i - 1) =~= s.skip(i));
        assert(seq![s[0]] + (rest.take(i - 1) + pair_placed(s.skip(i), x)) =~= s.take(i)
            + pair_placed(s.skip(i), x));
    }
}

fn place_pair(out: &mut Vec<(usize, usize)>, x: (usize, usize))
    ensures
        final(out)@ == pair_placed(old(out)@, x),
{
    let ghost start = out@;
    let mut i: usize = 0;
    while i < out.len() && !(x.0 < out[i].0 || (x.0 == out[i].0 && x.1 < out[i].1))
        invariant
            i <= out@.len(),
            start == out@,
            forall|k: int| 0 <= k < i ==> !pair_before(x, #[trigger] start[k]),
        decreases out@.len() - i,
    {
        i += 1;
    }
    proof {
        lemma_pair_placed_later(start, x, i as int);
    }
    let ghost rest = start.skip(i as int);
    if i < out.len() {
        assert(rest[0] == start[i as int]);
    }
    out.insert(i, x);
    assert(out@ =~= start.take(i as int) + (seq![x] + rest));
    assert(rest.len() == 0 ==> seq![x] + rest =~= seq![x]);
}

fn one_more(n: usize) -> (r: usize)
    ensures
        r == counted(n),
{
    if n < usize::MAX {
        n + 1
    } else {
        n
    }
}

impl Survey {
    /// A survey of no program.
    pub fn new() -> (r: Self)
        ensures
            r@ == (SurveyV {
                user_violations: 0,
                by_value_receiver_moves: 0,
                embedded_violations: 0,
                skipped_user: 0,
                skipped_embedded: 0,
                skips: Seq::empty(),
                failing: Seq::empty(),
            }),
    {
        let r = Survey {
            user_violations: 0,
            by_value_receiver_moves: 0,
            embedded_violations: 0,
            skipped_user: 0,
            skipped_embedded: 0,
            skips: Vec::new(),
            failing: Vec::new(),
        };
        assert(r@.failing =~= Seq::empty());
        r
    }

    /// Add the report on one more program. A violation that the checker must not report stops the
    /// survey, which stays as it was.
    pub fn record(&mut self, name: &str, report: &MoveCheckReport) -> (r: Result<(), String>)
        ensures
            match first_fault(report@.violations, 0) {
                Some(m) => (r matches Err(e) && e@ == m) && final(self)@ == old(self)@,
                None => r is Ok && final(self)@ == surveyed(old(self)@, name@, report@),
            },
    {
        let ghost views = report@.violations;
        assert(views.len() == report.violations@.len());
        let mut i: usize = 0;
        while i < report.violations.len()
            invariant
                i <= report.violations@.len(),
                views == report@.violations,
                views.len() == report.violations@.len(),
                self@ == old(self)@,
                first_fault(views, 0) == first_fault(views, i as int),
            decreases report.violations@.len() - i,
        {
            let v: &MoveViolation = &report.violations[i];
            assert(views[i as int] == v@);
            if !is_embedded_std_span(&v.use_span) {
                if let Some(m) = find_fault(v) {
                    return Err(m);
                }
            }
            i += 1;
        }
        let ghost start = ProgramV {
            user: self.user_violations,
            by_value: self.by_value_receiver_moves,
            embedded: self.embedded_violations,
            details: Seq::empty(),
        };
        let mut user: usize = self.user_violations;
        let mut by_value: usize = self.by_value_receiver_moves;
        let mut embedded: usize = self.embedded_violations;
        let mut details: Vec<String> = Vec::new();
        assert(texts(details@) =~= Seq::empty());
        let mut j: usize = 0;
        while j < report.violations.len()
            invariant
                j <= report.violations@.len(),
                views == report@.violations,
                views.len() == report.violations@.len(),
                tallied(start, views, j as int) == (ProgramV {
                    user,
                    by_value,
                    embedded,
                    details: texts(details@),
                }),
            decreases report.violations@.len() - j,
        {
            let v: &MoveViolation = &report.violations[j];
            assert(views[j as int] == v@);
            if is_embedded_std_span(&v.use_span) {
                embedded = one_more(embedded);
            } else {
                if v.moved_by_value_receiver {
                    by_value = one_more(by_value);
                }
                user = one_more(user);
                let ghost before = details@;
                details.push(describe_violation(v));
                assert(texts(details@) =~= texts(before).push(detail(v@)));
            }
            j += 1;
        }
        self.user_violations = user;
        self.by_value_receiver_moves = by_value;
        self.embedded_violations = embedded;
        self.skipped_user = self.skipped_user.saturating_add(report.skipped_generic_bodies_user);
        self.skipped_embedded = self.skipped_embedded.saturating_add(
            report.skipped_generic_bodies_embedded_std,
        );
        place_pair(
            &mut self.skips,
            (report.skipped_generic_bodies_user, report.skipped_generic_bodies_embedded_std),
        );
        assert(texts(details@).len() == details@.len());
        if details.len() != 0 {
            let ghost before = self.failing@;
            let ghost d = texts(details@);
            self.failing.push(Failing { name: name.to_owned(), details });
            assert(failing_view(self.failing@) =~= failing_view(before).push((name@, d)));
        }
        Ok(())
    }
}

/// The greatest first number among the first `k` pairs.
pub open spec fn greatest_first(s: Seq<(usize, usize)>, k: int) -> usize
    decreases k,
{
    if k <= 0 || k > s.len() {
        0
    } else {
        let before = greatest_first(s, k - 1);
        if s[k - 1].0 > before {
            s[k - 1].0
        } else {
            before
        }
    }
}

/// The greatest second number among the first `k` pairs.
pub open spec fn greatest_second(s: Seq<(usize, usize)>, k: int) -> usize
    decreases k,
{
    if k <= 0 || k > s.len() {
        0
    } else {
        let before = greatest_second(s, k - 1);
        if s[k - 1].1 > before {
            s[k - 1].1
        } else {
            before
        }
    }
}

/// A labelled pair of counts.
pub open spec fn pair_line(label: Seq<char>, x: (usize, usize)) -> Seq<char> {
    label + "=user:"@ + decimal(x.0 as nat) + ";embedded_std:"@ + decimal(x.1 as nat)
}

/// A labelled count.
pub open spec fn count_line(label: Seq<char>, n: nat) -> Seq<char> {
    label + "="@ + decimal(n)
}

/// What is said of how many generic bodies were passed over per program.
pub open spec fn skip_lines(s: Seq<(usize, usize)>) -> Seq<Seq<char>> {
    if s.len() == 0 {
        Seq::empty()
    } else {
        seq![
            pair_line("typical_skipped_generic_bodies_per_program"@, s[(s.len() / 2) as int]),
            pair_line(
                "max_skipped_generic_bodies_per_program"@,
                (greatest_first(s, s.len() as int), greatest_second(s, s.len() as int)),
            ),
        ]
    }
}

/// What is said of a program with violations.
pub open spec fn failing_line(f: (Seq<char>, Seq<Seq<char>>)) -> Seq<char> {
    f.0 + ":"@ + decimal(f.1.len()) + ":"@ + join_spec(f.1, "|"@)
}

/// The survey in words, line by line.
pub open spec fn survey_lines(s: SurveyV) -> Seq<Seq<char>> {
    skip_lines(s.skips) + seq![
        count_line("fixtures_with_move_violations"@, s.failing.len()),
        count_line("user_move_violations"@, s.user_violations as nat),
        count_line(
            "user_move_violations_with_by_value_receiver_move_side"@,
            s.by_value_receiver_moves as nat,
        ),
        count_line("embedded_std_move_violations"@, s.embedded_violations as nat),
        count_line("skipped_generic_bodies_user_total"@, s.skipped_user as nat),
        count_line("skipped_generic_bodies_embedded_std_total"@, s.skipped_embedded as nat),
    ] + Seq::new(s.failing.len(), |i: int| failing_line(s.failing[i]))
}

fn render_pair(label: &str, x: (usize, usize)) -> (r: String)
    ensures
        r@ == pair_line(label@, x),
{
    joined5(
        label,
        "=user:",
        decimal_text(x.0 as u64).as_str(),
        ";embedded_std:",
        decimal_text(x.1 as u64).as_str(),
    )
}

fn render_count(label: &str, n: usize) -> (r: String)
    ensures
        r@ == count_line(label@, n as nat),
{
    joined3(label, "=", decimal_text(n as u64).as_str())
}

impl Survey {
    fn greatest(&self) -> (r: (usize, usize))
        ensures
            r.0 == greatest_first(self.skips@, self.skips@.len() as int),
            r.1 == greatest_second(self.skips@, self.skips@.len() as int),
    {
        let mut a: usize = 0;
        let mut b: usize = 0;
        let mut i: usize = 0;
        while i < self.skips.len()
            invariant
                i <= self.skips@.len(),
                a == greatest_first(self.skips@, i as int),
                b == greatest_second(self.skips@, i as int),
            decreases self.skips@.len() - i,
        {
            let x: (usize, usize) = self.skips[i];
            if x.0 > a {
                a = x.0;
            }
            if x.1 > b {
                b = x.1;
            }
            i += 1;
        }
        (a, b)
    }

    /// The survey in words, line by line.
    pub fn lines(&self) -> (r: Vec<String>)
        ensures
            texts(r@) == survey_lines(self@),
    {
        let ghost v = self@;
        assert(v.failing.len() == self.failing@.len());
        let mut out: Vec<String> = Vec::new();
        let n: usize = self.skips.len();
        if n != 0 {
            out.push(
                render_pair("typical_skipped_generic_bodies_per_program", self.skips[n / 2]),
            );
            out.push(render_pair("max_skipped_generic_bodies_per_program", self.greatest()));
        }
        assert(texts(out@) =~= skip_lines(v.skips));
        let ghost head = texts(out@);
        out.push(render_count("fixtures_with_move_violations", self.failing.len()));
        out.push(render_count("user_move_violations", self.user_violations));
        out.push(
            render_count(
                "user_move_violations_with_by_value_receiver_move_side",
                self.by_value_receiver_moves,
            ),
        );
        out.push(render_count("embedded_std_move_violations", self.embedded_violations));
        out.push(render_count("skipped_generic_bodies_user_total", self.skipped_user));
        out.push(render_count("skipped_generic_bodies_embedded_std_total", self.skipped_embedded));
        let ghost before = texts(out@);
        assert(before =~= head + survey_lines(v).subrange(head.len() as int, (head.len() + 6) as int));
        let mut i: usize = 0;
        while i < self.failing.len()
            invariant
                i <= self.failing@.len(),
                v == self@,
                v.failing.len() == self.failing@.len(),
                texts(out@).len() == before.len() + i,
                forall|k: int| 0 <= k < before.len() ==> texts(out@)[k] == before[k],
                forall|k: int|
                    0 <= k < i ==> texts(out@)[before.len() + k] == failing_line(
                        #[trigger] v.failing[k],
                    ),
            decreases self.failing@.len() - i,
        {
            let f: &Failing = &self.failing[i];
            assert(v.failing[i as int] == (f.name@, texts(f.details@)));
            assert(texts(f.details@).len() == f.details@.len());
            let list: String = join_texts(&f.details, "|");
            let line: String = joined5(
                f.name.as_str(),
                ":",
                decimal_text(f.details.len() as u64).as_str(),
                ":",
                list.as_str(),
            );
            let ghost old_texts = texts(out@);
            out.push(line);
            assert(texts(out@) =~= old_texts.push(failing_line(v.failing[i as int])));
            i += 1;
        }
        let ghost whole = survey_lines(v);
        assert(whole.len() == before.len() + v.failing.len());
        assert forall|k: int| 0 <= k < whole.len() implies texts(out@)[k] == #[trigger] whole[k] by {
            if k < before.len() {
                assert(whole[k] == before[k]);
            } else {
                assert(whole[k] == failing_line(v.failing[k - before.len()]));
            }
        }
        assert(texts(out@) =~= whole);
        out
    }
}

/// Whether pairs stand in order.
pub open spec fn pairs_sorted(s: Seq<(usize, usize)>) -> bool {
    forall|i: int, j: int| 0 <= i < j < s.len() ==> !pair_before(#[trigger] s[j], #[trigger] s[i])
}

/// Recording a program keeps the skips of a survey in order and adds exactly those of the
/// program, so the one in the middle is typical.
pub proof fn law_skips_stay_sorted(s: SurveyV, name: Seq<char>, r: MoveCheckReportV)
    requires
        pairs_sorted(s.skips),
    ensures
        pairs_sorted(surveyed(s, name, r).skips),
        surveyed(s, name, r).skips.to_multiset() == s.skips.to_multiset().insert(
            (r.skipped_generic_bodies_user, r.skipped_generic_bodies_embedded_std),
        ),
{
    lemma_pair_placed(
        s.skips,
        (r.skipped_generic_bodies_user, r.skipped_generic_bodies_embedded_std),
    );
}

proof fn lemma_pair_placed(s: Seq<(usize, usize)>, x: (usize, usize))
    requires
        pairs_sorted(s),
    ensures
        pairs_sorted(pair_placed(s, x)),
        pair_placed(s, x).to_multiset() == s.to_multiset().insert(x),
        forall|i: int|
            0 <= i < pair_placed(s, x).len() ==> #[trigger] pair_placed(s, x)[i] == x || s.contains(
                pair_placed(s, x)[i],
            ),
    decreases s.len(),
{
    broadcast use vstd::seq_lib::group_to_multiset_ensures;

    let out = pair_placed(s, x);
    if s.len() == 0 {
        assert(out =~= s.push(x));
    } else if pair_before(x, s[0]) {
        assert(out =~= s.insert(0, x));
        vstd::seq_lib::to_multiset_insert(s, 0, x);
        assert forall|i: int, j: int| 0 <= i < j < out.len() implies !pair_before(
            #[trigger] out[j],
            #[trigger] out[i],
        ) by {
            assert(out[j] == s[j - 1]);
            if i == 0 {
                if j > 1 {
                    assert(!pair_before(s[j - 1], s[0]));
                }
            } else {
                assert(out[i] == s[i - 1]);
            }
        }
        assert forall|i: int| 0 <= i < out.len() implies #[trigger] out[i] == x || s.contains(
            out[i],
        ) by {
            if i > 0 {
                assert(out[i] == s[i - 1]);
            }
        }
    } else {
        let rest = s.skip(1);
        assert forall|i: int, j: int| 0 <= i < j < rest.len() implies !pair_before(
            #[trigger] rest[j],
            #[trigger] rest[i],
        ) by {
            assert(rest[j] == s[j + 1] && rest[i] == s[i + 1]);
        }
        lemma_pair_placed(rest, x);
        let tail = pair_placed(rest, x);
        assert(s =~= rest.insert(0, s[0]));
        assert(out =~= tail.insert(0, s[0]));
        vstd::seq_lib::to_multiset_insert(rest, 0, s[0]);
        vstd::seq_lib::to_multiset_insert(tail, 0, s[0]);
        assert(out.to_multiset() =~= s.to_multiset().insert(x));
        assert forall|i: int, j: int| 0 <= i < j < out.len() implies !pair_before(
            #[trigger] out[j],
            #[trigger] out[i],
        ) by {
            assert(out[j] == tail[j - 1]);
            if i == 0 {
                if tail[j - 1] != x {
                    assert(rest.contains(tail[j - 1]));
                    let k = choose|k: int| 0 <= k < rest.len() && rest[k] == tail[j - 1];
                    assert(s[k + 1] == tail[j - 1]);
                    assert(!pair_before(s[k + 1], s[0]));
                }
            } else {
                assert(out[i] == tail[i - 1]);
            }
        }
        assert forall|i: int| 0 <= i < out.len() implies #[trigger] out[i] == x || s.contains(
            out[i],
        ) by {
            if i == 0 {
                assert(out[0] == s[0]);
            } else {
                assert(out[i] == tail[i - 1]);
                if tail[i - 1] != x {
                    let k = choose|k: int| 0 <= k < rest.len() && rest[k] == tail[i - 1];
                    assert(s[k + 1] == tail[i - 1]);
                }
            }
        }
    }
}

} // verus!
