//! What the move checker reports, and how it is worded.
use vstd::prelude::*;
use vstd::string::StringExecFns;
use crate::place::{place_text, place_view, Place, PlaceV};
use crate::span::{span_view, Span, SpanV};
use crate::text::{decimal, decimal_text, joined, joined3, joined5, last_segment, path_tail, starts_with};
use crate::types::{type_text, Type, TypeV};

verus! {

/// Why a use is rejected.
#[derive(Debug, Clone, Copy, PartialEq, Eq, Structural)]
pub enum MoveViolationKind {
    UseAfterMove,
    PartialMoveUsedAsWhole,
    PartialMoveOfDropType,
    ArrayElementMove,
    BorrowedArrayElementMove,
    MoveOutOfReference,
    MovedMutReferenceWithoutReborrow,
}

/// A use that the move checker rejects.
#[derive(Debug, PartialEq, Eq)]
pub struct MoveViolation {
    pub binding: String,
    pub use_place: Place,
    pub moved_place: Place,
    pub kind: MoveViolationKind,
    pub moved_by_value_receiver: bool,
    /// Coarse shape of the value that moved, for triage: which of these violations would disappear
    /// if a given type became `Copy`. Notably `T[]`.
    pub moved_type: String,
    /// Whether the move happened on an earlier iteration of an enclosing loop. When it did,
    /// `use_span` and `moved_span` are often the same site, and the message has to say so or it
    /// reads as pointing at itself.
    pub moved_in_previous_iteration: bool,
    pub use_span: Span,
    pub moved_span: Span,
}

/// The value of a [`MoveViolation`] as a mathematical object.
pub ghost struct MoveViolationV {
    pub binding: Seq<char>,
    pub use_place: PlaceV,
    pub moved_place: PlaceV,
    pub kind: MoveViolationKind,
    pub moved_by_value_receiver: bool,
    pub moved_type: Seq<char>,
    pub moved_in_previous_iteration: bool,
    pub use_span: SpanV,
    pub moved_span: SpanV,
}

/// A generic body that could not be checked, and why.
#[derive(Debug, PartialEq, Eq)]
pub struct UncheckedGenericBody {
    pub span: Span,
    pub reason: String,
}

/// The value of a [`UncheckedGenericBody`] as a mathematical object.
pub ghost struct UncheckedGenericBodyV {
    pub span: SpanV,
    pub reason: Seq<char>,
}

/// What the move checker found.
#[derive(Debug, PartialEq, Eq)]
pub struct MoveCheckReport {
    pub violations: Vec<MoveViolation>,
    pub skipped_generic_bodies_user: usize,
    pub skipped_generic_bodies_embedded_std: usize,
    pub unchecked_generic_bodies: Vec<UncheckedGenericBody>,
}

/// The value of a [`MoveCheckReport`] as a mathematical object.
pub ghost struct MoveCheckReportV {
    pub violations: Seq<MoveViolationV>,
    pub skipped_generic_bodies_user: usize,
    pub skipped_generic_bodies_embedded_std: usize,
    pub unchecked_generic_bodies: Seq<UncheckedGenericBodyV>,
}

/// The view of a [`MoveViolation`].
pub open spec fn move_violation_view(t: MoveViolation) -> MoveViolationV
    decreases t,
{
    MoveViolationV {
        binding: t.binding@,
        use_place: place_view(t.use_place),
        moved_place: place_view(t.moved_place),
        kind: t.kind,
        moved_by_value_receiver: t.moved_by_value_receiver,
        moved_type: t.moved_type@,
        moved_in_previous_iteration: t.moved_in_previous_iteration,
        use_span: span_view(t.use_span),
        moved_span: span_view(t.moved_span),
    }
}

/// The view of a [`UncheckedGenericBody`].
pub open spec fn unchecked_generic_body_view(t: UncheckedGenericBody) -> UncheckedGenericBodyV
    decreases t,
{
    UncheckedGenericBodyV {
        span: span_view(t.span),
        reason: t.reason@,
    }
}

/// The view of a [`MoveCheckReport`].
pub open spec fn move_check_report_view(t: MoveCheckReport) -> MoveCheckReportV
    decreases t,
{
    MoveCheckReportV {
        violations: move_violations_view(t.violations@),
        skipped_generic_bodies_user: t.skipped_generic_bodies_user,
        skipped_generic_bodies_embedded_std: t.skipped_generic_bodies_embedded_std,
        unchecked_generic_bodies: unchecked_generic_bodies_view(t.unchecked_generic_bodies@),
    }
}

/// The views of a sequence of [`MoveViolation`] values.
pub open spec fn move_violations_view(s: Seq<MoveViolation>) -> Seq<MoveViolationV>
    decreases s,
{
    Seq::new(s.len(), |i: int| if 0 <= i < s.len() { move_violation_view(s[i]) } else { arbitrary() })
}

/// The views of a sequence of [`UncheckedGenericBody`] values.
pub open spec fn unchecked_generic_bodies_view(s: Seq<UncheckedGenericBody>) -> Seq<UncheckedGenericBodyV>
    decreases s,
{
    Seq::new(s.len(), |i: int| if 0 <= i < s.len() { unchecked_generic_body_view(s[i]) } else { arbitrary() })
}

impl View for MoveViolation {
    type V = MoveViolationV;

    open spec fn view(&self) -> MoveViolationV {
        move_violation_view(*self)
    }
}

impl Clone for MoveViolation {
    fn clone(&self) -> (r: Self)
        ensures
            r@ == self@,
    {
        self.copy()
    }
}

impl MoveViolation {
    /// A copy with the same view.
    pub fn copy(&self) -> (r: Self)
        ensures
            r@ == self@,
        decreases *self,
    {
        MoveViolation {
            binding: self.binding.clone(),
            use_place: self.use_place.copy(),
            moved_place: self.moved_place.copy(),
            kind: self.kind,
            moved_by_value_receiver: self.moved_by_value_receiver,
            moved_type: self.moved_type.clone(),
            moved_in_previous_iteration: self.moved_in_previous_iteration,
            use_span: self.use_span.copy(),
            moved_span: self.moved_span.copy(),
        }
    }
}

impl View for UncheckedGenericBody {
    type V = UncheckedGenericBodyV;

    open spec fn view(&self) -> UncheckedGenericBodyV {
        unchecked_generic_body_view(*self)
    }
}

impl Clone for UncheckedGenericBody {
    fn clone(&self) -> (r: Self)
        ensures
            r@ == self@,
    {
        self.copy()
    }
}

impl UncheckedGenericBody {
    /// A copy with the same view.
    pub fn copy(&self) -> (r: Self)
        ensures
            r@ == self@,
        decreases *self,
    {
        UncheckedGenericBody {
            span: self.span.copy(),
            reason: self.reason.clone(),
        }
    }
}

impl View for MoveCheckReport {
    type V = MoveCheckReportV;

    open spec fn view(&self) -> MoveCheckReportV {
        move_check_report_view(*self)
    }
}

impl Clone for MoveCheckReport {
    fn clone(&self) -> (r: Self)
        ensures
            r@ == self@,
    {
        self.copy()
    }
}

impl MoveCheckReport {
    /// A copy with the same view.
    pub fn copy(&self) -> (r: Self)
        ensures
            r@ == self@,
        decreases *self,
    {
        MoveCheckReport {
            violations: copy_move_violations(&self.violations),
            skipped_generic_bodies_user: self.skipped_generic_bodies_user,
            skipped_generic_bodies_embedded_std: self.skipped_generic_bodies_embedded_std,
            unchecked_generic_bodies: copy_unchecked_generic_bodies(&self.unchecked_generic_bodies),
        }
    }
}

/// A copy of a list of [`MoveViolation`] values.
pub fn copy_move_violations(v: &Vec<MoveViolation>) -> (r: Vec<MoveViolation>)
    ensures
        move_violations_view(r@) == move_violations_view(v@),
    decreases v@,
{
    let mut out: Vec<MoveViolation> = Vec::new();
    let mut i: usize = 0;
    while i < v.len()
        invariant
            i <= v.len(),
            out@.len() == i,
            forall|k: int| 0 <= k < i ==> move_violation_view(#[trigger] out@[k]) == move_violation_view(v@[k]),
        decreases v.len() - i,
    {
        out.push(v[i].copy());
        i += 1;
    }
    assert(move_violations_view(out@) =~= move_violations_view(v@));
    out
}

/// A copy of a list of [`UncheckedGenericBody`] values.
pub fn copy_unchecked_generic_bodies(v: &Vec<UncheckedGenericBody>) -> (r: Vec<UncheckedGenericBody>)
    ensures
        unchecked_generic_bodies_view(r@) == unchecked_generic_bodies_view(v@),
    decreases v@,
{
    let mut out: Vec<UncheckedGenericBody> = Vec::new();
    let mut i: usize = 0;
    while i < v.len()
        invariant
            i <= v.len(),
            out@.len() == i,
            forall|k: int| 0 <= k < i ==> unchecked_generic_body_view(#[trigger] out@[k]) == unchecked_generic_body_view(v@[k]),
        decreases v.len() - i,
    {
        out.push(v[i].copy());
        i += 1;
    }
    assert(unchecked_generic_bodies_view(out@) =~= unchecked_generic_bodies_view(v@));
    out
}
/// A coarse bucket for a type, enough to separate the sequence types from
/// everything else without one label per user struct.
pub open spec fn bucket(t: TypeV) -> Seq<char> {
    match t {
        TypeV::Array(_) => "T[]"@,
        TypeV::SizedArray(_, _) => "[T; N]"@,
        TypeV::Tuple(_) => "tuple"@,
        TypeV::Record(_) => "record"@,
        TypeV::Str => "String"@,
        TypeV::Reference(_) => "&T"@,
        TypeV::MutReference(_) => "&var T"@,
        TypeV::Fun(_, _) => "fun"@,
        TypeV::Named(name, _) => "named:"@ + last_segment(name),
        _ => "other:"@ + type_text(t),
    }
}

/// A coarse bucket for `ty`, enough to separate the sequence types from
/// everything else without one label per user struct.
#[must_use]
pub fn type_bucket(ty: &Type) -> (r: String)
    ensures
        r@ == bucket(ty@),
{
    match ty {
        Type::Array(_) => "T[]".to_owned(),
        Type::SizedArray(_, _) => "[T; N]".to_owned(),
        Type::Tuple(_) => "tuple".to_owned(),
        Type::Record(_) => "record".to_owned(),
        Type::Str => "String".to_owned(),
        Type::Reference(_) => "&T".to_owned(),
        Type::MutReference(_) => "&var T".to_owned(),
        Type::Fun(_, _) => "fun".to_owned(),
        Type::Named(name, _) => {
            let tail: String = path_tail(name.as_str());
            joined("named:", tail.as_str())
        },
        _ => {
            let text: String = ty.describe();
            joined("other:", text.as_str())
        },
    }
}

/// Everything a report accumulates, captured so a speculative pass can be undone.
#[derive(Debug, Clone, Copy)]
pub struct ReportMark {
    pub violations: usize,
    pub skipped_user: usize,
    pub skipped_embedded_std: usize,
    pub unchecked: usize,
}

/// The mark of a report.
pub open spec fn mark_of(r: MoveCheckReportV) -> (nat, usize, usize, nat) {
    (
        r.violations.len(),
        r.skipped_generic_bodies_user,
        r.skipped_generic_bodies_embedded_std,
        r.unchecked_generic_bodies.len(),
    )
}

/// The first `n` elements, or all of them where there are fewer.
pub open spec fn cut<T>(s: Seq<T>, n: nat) -> Seq<T> {
    if n <= s.len() {
        s.take(n as int)
    } else {
        s
    }
}

/// The report without what was recorded since a mark.
pub open spec fn rewound(r: MoveCheckReportV, m: (nat, usize, usize, nat)) -> MoveCheckReportV {
    MoveCheckReportV {
        violations: cut(r.violations, m.0),
        skipped_generic_bodies_user: m.1,
        skipped_generic_bodies_embedded_std: m.2,
        unchecked_generic_bodies: cut(r.unchecked_generic_bodies, m.3),
    }
}

/// The report with nothing in it.
pub open spec fn empty_report() -> MoveCheckReportV {
    MoveCheckReportV {
        violations: Seq::empty(),
        skipped_generic_bodies_user: 0,
        skipped_generic_bodies_embedded_std: 0,
        unchecked_generic_bodies: Seq::empty(),
    }
}

/// Whether one report begins as another does: everything the other holds it holds too, in the
/// same order.
pub open spec fn extends(longer: MoveCheckReportV, shorter: MoveCheckReportV) -> bool {
    shorter.violations.is_prefix_of(longer.violations)
        && shorter.unchecked_generic_bodies.is_prefix_of(longer.unchecked_generic_bodies)
}

/// Rewinding to a mark gives back the report that was marked, whatever was recorded since.
pub proof fn law_rewinding_undoes_recording(before: MoveCheckReportV, after: MoveCheckReportV)
    requires
        extends(after, before),
    ensures
        rewound(after, mark_of(before)) == before,
{
    assert(cut(after.violations, before.violations.len()) =~= before.violations);
    assert(cut(after.unchecked_generic_bodies, before.unchecked_generic_bodies.len())
        =~= before.unchecked_generic_bodies);
}

/// One more than `n`, or `n` where that is not representable.
pub open spec fn counted(n: usize) -> usize {
    if n < usize::MAX {
        (n + 1) as usize
    } else {
        n
    }
}

/// Whether a location lies in an embedded standard-library module.
pub open spec fn in_embedded_std(span: SpanV) -> bool {
    "<embedded std::"@.is_prefix_of(span.filename)
}

/// Whether a location lies in an embedded standard-library module.
pub fn is_embedded_std_span(span: &Span) -> (r: bool)
    ensures
        r == in_embedded_std(span@),
{
    starts_with(span.filename.as_str(), "<embedded std::")
}

/// The report after a generic body was passed over.
pub open spec fn with_skipped(r: MoveCheckReportV, span: SpanV, reason: Seq<char>) -> MoveCheckReportV {
    if in_embedded_std(span) {
        MoveCheckReportV {
            skipped_generic_bodies_embedded_std: counted(r.skipped_generic_bodies_embedded_std),
            ..r
        }
    } else {
        MoveCheckReportV {
            skipped_generic_bodies_user: counted(r.skipped_generic_bodies_user),
            unchecked_generic_bodies: r.unchecked_generic_bodies.push(
                UncheckedGenericBodyV { span, reason },
            ),
            ..r
        }
    }
}

/// The report with one more violation.
pub open spec fn with_violation(r: MoveCheckReportV, v: MoveViolationV) -> MoveCheckReportV {
    MoveCheckReportV { violations: r.violations.push(v), ..r }
}

/// Whether the report counts as many bodies of the user's own code that were passed over as it
/// lists, as far as they can be counted.
pub open spec fn tallied(r: MoveCheckReportV) -> bool {
    r.skipped_generic_bodies_user as nat == if r.unchecked_generic_bodies.len() <= usize::MAX {
        r.unchecked_generic_bodies.len()
    } else {
        usize::MAX as nat
    }
}

/// The sum of two counts, or the largest count where that is not representable.
pub open spec fn counted_together(a: usize, b: usize) -> usize {
    if a + b <= usize::MAX {
        (a + b) as usize
    } else {
        usize::MAX
    }
}

/// Two reports in one: what the second holds follows what the first holds.
pub open spec fn joined_reports(a: MoveCheckReportV, b: MoveCheckReportV) -> MoveCheckReportV {
    MoveCheckReportV {
        violations: a.violations + b.violations,
        skipped_generic_bodies_user: counted_together(
            a.skipped_generic_bodies_user,
            b.skipped_generic_bodies_user,
        ),
        skipped_generic_bodies_embedded_std: counted_together(
            a.skipped_generic_bodies_embedded_std,
            b.skipped_generic_bodies_embedded_std,
        ),
        unchecked_generic_bodies: a.unchecked_generic_bodies + b.unchecked_generic_bodies,
    }
}

fn count_together(a: usize, b: usize) -> (r: usize)
    ensures
        r == counted_together(a, b),
{
    if usize::MAX - a < b {
        usize::MAX
    } else {
        a + b
    }
}

impl MoveCheckReport {
    /// Add what another report holds.
    pub fn absorb(&mut self, other: MoveCheckReport)
        ensures
            final(self)@ == joined_reports(old(self)@, other@),
    {
        self.skipped_generic_bodies_user = count_together(
            self.skipped_generic_bodies_user,
            other.skipped_generic_bodies_user,
        );
        self.skipped_generic_bodies_embedded_std = count_together(
            self.skipped_generic_bodies_embedded_std,
            other.skipped_generic_bodies_embedded_std,
        );
        let mut violations: Vec<MoveViolation> = other.violations;
        let mut unchecked: Vec<UncheckedGenericBody> = other.unchecked_generic_bodies;
        self.violations.append(&mut violations);
        self.unchecked_generic_bodies.append(&mut unchecked);
        assert(self@.violations =~= old(self)@.violations + other@.violations);
        assert(self@.unchecked_generic_bodies =~= old(self)@.unchecked_generic_bodies
            + other@.unchecked_generic_bodies);
    }

    /// The report with nothing in it.
    pub fn empty() -> (r: Self)
        ensures
            r@ == empty_report(),
    {
        let r = MoveCheckReport {
            violations: Vec::new(),
            skipped_generic_bodies_user: 0,
            skipped_generic_bodies_embedded_std: 0,
            unchecked_generic_bodies: Vec::new(),
        };
        assert(r@.violations =~= Seq::empty());
        assert(r@.unchecked_generic_bodies =~= Seq::empty());
        r
    }

    /// How many violations were found.
    #[must_use]
    pub fn violation_count(&self) -> (r: usize)
        ensures
            r == self@.violations.len(),
    {
        assert(self@.violations.len() == self.violations@.len());
        self.violations.len()
    }

    /// The mark of the report as it stands.
    pub fn mark(&self) -> (r: ReportMark)
        ensures
            (r.violations as nat, r.skipped_user, r.skipped_embedded_std, r.unchecked as nat)
                == mark_of(self@),
    {
        assert(self@.violations.len() == self.violations@.len());
        assert(self@.unchecked_generic_bodies.len() == self.unchecked_generic_bodies@.len());
        ReportMark {
            violations: self.violations.len(),
            skipped_user: self.skipped_generic_bodies_user,
            skipped_embedded_std: self.skipped_generic_bodies_embedded_std,
            unchecked: self.unchecked_generic_bodies.len(),
        }
    }

    /// Drop everything recorded since `mark`. Used for the probe passes a loop
    /// makes while widening its entry state: those walk the same code the final
    /// pass will walk, and must not report it twice.
    pub fn rewind_to(&mut self, mark: ReportMark)
        ensures
            final(self)@ == rewound(
                old(self)@,
                (
                    mark.violations as nat,
                    mark.skipped_user,
                    mark.skipped_embedded_std,
                    mark.unchecked as nat,
                ),
            ),
    {
        self.violations.truncate(mark.violations);
        self.skipped_generic_bodies_user = mark.skipped_user;
        self.skipped_generic_bodies_embedded_std = mark.skipped_embedded_std;
        self.unchecked_generic_bodies.truncate(mark.unchecked);
        assert(self@.violations =~= cut(old(self)@.violations, mark.violations as nat));
        assert(self@.unchecked_generic_bodies =~= cut(
            old(self)@.unchecked_generic_bodies,
            mark.unchecked as nat,
        ));
    }

    /// How many generic bodies were passed over, in user code and in the embedded library.
    #[must_use]
    pub fn skipped_generic_bodies_total(&self) -> (r: usize)
        requires
            self.skipped_generic_bodies_user + self.skipped_generic_bodies_embedded_std
                <= usize::MAX,
        ensures
            r == self@.skipped_generic_bodies_user + self@.skipped_generic_bodies_embedded_std,
    {
        self.skipped_generic_bodies_user + self.skipped_generic_bodies_embedded_std
    }

    /// Record that a generic body could not be checked.
    pub fn record_skipped(&mut self, span: &Span, reason: &str)
        ensures
            final(self)@ == with_skipped(old(self)@, span@, reason@),
    {
        if is_embedded_std_span(span) {
            if self.skipped_generic_bodies_embedded_std < usize::MAX {
                self.skipped_generic_bodies_embedded_std =
                self.skipped_generic_bodies_embedded_std + 1;
            }
        } else {
            if self.skipped_generic_bodies_user < usize::MAX {
                self.skipped_generic_bodies_user = self.skipped_generic_bodies_user + 1;
            }
            self.unchecked_generic_bodies.push(
                UncheckedGenericBody { span: span.copy(), reason: reason.to_owned() },
            );
            assert(self@.unchecked_generic_bodies =~= old(self)@.unchecked_generic_bodies.push(
                UncheckedGenericBodyV { span: span@, reason: reason@ },
            ));
        }
    }

    /// Record a violation.
    pub fn push_violation(&mut self, violation: MoveViolation)
        ensures
            final(self)@ == with_violation(old(self)@, violation@),
    {
        self.violations.push(violation);
        assert(self@.violations =~= old(self)@.violations.push(violation@));
    }
}

/// A location as messages cite it.
pub open spec fn span_text(s: SpanV) -> Seq<char> {
    s.filename + ":"@ + decimal(s.line as nat) + ":"@ + decimal(s.col as nat)
}

/// A location as messages cite it.
pub fn format_span(span: &Span) -> (r: String)
    ensures
        r@ == span_text(span@),
{
    let line: String = decimal_text(span.line as u64);
    let col: String = decimal_text(span.col as u64);
    joined5(span.filename.as_str(), ":", line.as_str(), ":", col.as_str())
}

/// Where the move happened, phrased from where the reader is standing.
pub open spec fn moved_at_text(v: MoveViolationV) -> Seq<char> {
    if v.moved_in_previous_iteration && v.use_span == v.moved_span {
        "moved here on an earlier iteration"@
    } else if v.moved_in_previous_iteration {
        "moved at "@ + span_text(v.moved_span) + " on an earlier iteration"@
    } else {
        "moved at "@ + span_text(v.moved_span)
    }
}

/// Where the move happened, phrased from where the reader is standing.
///
/// A loop-carried move is usually its own use, the same expression one
/// iteration earlier, so naming the location without naming the iteration
/// would point the reader back at the line they are already looking at.
pub fn moved_at_clause(violation: &MoveViolation) -> (r: String)
    ensures
        r@ == moved_at_text(violation@),
{
    let site: String = format_span(&violation.moved_span);
    if violation.moved_in_previous_iteration {
        if violation.use_span.same(&violation.moved_span) {
            "moved here on an earlier iteration".to_owned()
        } else {
            joined3("moved at ", site.as_str(), " on an earlier iteration")
        }
    } else {
        joined("moved at ", site.as_str())
    }
}

/// The text of a place.
pub open spec fn text_of_place(p: PlaceV) -> Seq<char> {
    place_text(p.root, p.projections)
}

/// The message of a violation.
pub open spec fn message_of(v: MoveViolationV) -> Seq<char> {
    match v.kind {
        MoveViolationKind::UseAfterMove => "use of moved value `"@ + v.binding + "`: `"@
            + text_of_place(v.moved_place) + "` was "@ + moved_at_text(v),
        MoveViolationKind::PartialMoveUsedAsWhole => "use of partially moved value `"@ + v.binding
            + "`: field or element `"@ + text_of_place(v.moved_place) + "` was "@ + moved_at_text(
            v,
        ),
        MoveViolationKind::PartialMoveOfDropType => "cannot partially move value `"@ + v.binding
            + "`: `"@ + text_of_place(v.use_place) + "` belongs to a `Drop` type"@,
        MoveViolationKind::ArrayElementMove => "cannot move from `"@ + text_of_place(v.use_place)
            + "`: array element moves are not allowed"@,
        MoveViolationKind::MoveOutOfReference => "cannot move out of `"@ + text_of_place(v.use_place)
            + "`: it is behind a reference"@,
        MoveViolationKind::BorrowedArrayElementMove => "cannot move `"@ + text_of_place(v.use_place)
            + "`: it is borrowed from a `T[]` view"@,
        MoveViolationKind::MovedMutReferenceWithoutReborrow => "use of moved `&var` binding `"@
            + v.binding + "`: `"@ + v.binding + "` was moved by a non-reborrow use at "@
            + span_text(v.moved_span),
    }
}

/// The message of a violation.
///
/// The rules that ban a move outright cite no location: the offending
/// expression is the diagnostic's own span.
pub fn violation_message(violation: &MoveViolation) -> (r: String)
    ensures
        r@ == message_of(violation@),
{
    let binding: &str = violation.binding.as_str();
    let moved: String = violation.moved_place.describe();
    let used: String = violation.use_place.describe();
    match violation.kind {
        MoveViolationKind::UseAfterMove => {
            let clause: String = moved_at_clause(violation);
            let mut out: String = joined5("use of moved value `", binding, "`: `", moved.as_str(), "` was ");
            out.append(clause.as_str());
            out
        },
        MoveViolationKind::PartialMoveUsedAsWhole => {
            let clause: String = moved_at_clause(violation);
            let mut out: String = joined5(
                "use of partially moved value `",
                binding,
                "`: field or element `",
                moved.as_str(),
                "` was ",
            );
            out.append(clause.as_str());
            out
        },
        MoveViolationKind::PartialMoveOfDropType => joined5(
            "cannot partially move value `",
            binding,
            "`: `",
            used.as_str(),
            "` belongs to a `Drop` type",
        ),
        MoveViolationKind::ArrayElementMove => joined3(
            "cannot move from `",
            used.as_str(),
            "`: array element moves are not allowed",
        ),
        MoveViolationKind::MoveOutOfReference => joined3(
            "cannot move out of `",
            used.as_str(),
            "`: it is behind a reference",
        ),
        MoveViolationKind::BorrowedArrayElementMove => joined3(
            "cannot move `",
            used.as_str(),
            "`: it is borrowed from a `T[]` view",
        ),
        MoveViolationKind::MovedMutReferenceWithoutReborrow => {
            let site: String = format_span(&violation.moved_span);
            let mut out: String = joined5(
                "use of moved `&var` binding `",
                binding,
                "`: `",
                binding,
                "` was moved by a non-reborrow use at ",
            );
            out.append(site.as_str());
            out
        },
    }
}


} // verus!
