//! Use of moved values.
//!
//! A value that is not `Copy` moves out of the place it is read from. The checker walks the
//! typechecked bodies of a program, keeps track of what moved where, and reports each use of a
//! place whose value is gone. A generic body is typed for symbolic type arguments first.
use vstd::prelude::*;
use crate::error::{MetelError, MetelErrorV, TypeErrorCode};
use crate::registry::{first_where, lemma_first_where_skip, TypeDefinitionRegistry};
use crate::text::{decimal, decimal_text, texts};
use crate::typed_ast::{TypedModule, TypedModuleGraph};
use self::checker::Checker;
use self::filling::{fill_graph, graph_filled, module_filled};
use self::flow::{empty_flow, push_scope, FlowState};
use self::plain::plain_decls;
use self::report::{empty_report, in_embedded_std, is_embedded_std_span, joined_reports, message_of};
use self::report::{tallied, violation_message};
use self::report::{MoveCheckReportV, MoveViolationV, UncheckedGenericBodyV};
use self::walk::{on_flow, walk_decls, Cx, WorldV};
use self::walk_laws::{advances, law_declarations_advance, sound};

pub mod assumptions;
pub mod branch_laws;
pub mod capture_laws;
pub mod checker;
pub mod filling;
pub mod filling_laws;
pub mod flow;
pub mod flow_laws;
pub mod free_roots;
pub mod generic_bodies;
pub mod generics;
pub mod looking_laws;
pub mod nesting_laws;
pub mod plain;
pub mod program_laws;
pub mod report;
pub mod rule_laws;
pub mod samples;
pub mod survey;
pub mod survey_laws;
pub mod symbolic;
pub mod taking_laws;
pub mod walk;
pub mod walk_laws;

pub use self::report::{MoveCheckReport, MoveViolation, MoveViolationKind, UncheckedGenericBody};

verus! {

/// The walk before anything was walked.
pub open spec fn start_world() -> WorldV {
    WorldV {
        report: empty_report(),
        envs: Seq::empty(),
        back_edges: Seq::empty(),
        exits: Seq::empty(),
        flow: empty_flow(),
    }
}

/// What the checker reports on a module, whose declarations start from a flow of their own.
pub open spec fn module_report(reg: TypeDefinitionRegistry, m: TypedModule) -> MoveCheckReportV {
    walk_decls(
        Cx { reg, module: texts(m.path@) },
        m.decls@,
        on_flow(start_world(), push_scope(empty_flow())),
    ).report
}

/// What the checker reports on modules, one after the other.
pub open spec fn modules_report(reg: TypeDefinitionRegistry, s: Seq<TypedModule>) -> MoveCheckReportV
    decreases s.len(),
{
    if s.len() == 0 {
        empty_report()
    } else {
        joined_reports(modules_report(reg, s.drop_last()), module_report(reg, s.last()))
    }
}

/// What the checker reports on a program.
pub open spec fn graph_report(graph: TypedModuleGraph) -> MoveCheckReportV {
    modules_report(*graph.type_registry, graph.modules@)
}

/// The report on two lists of modules in one is the report on the first followed by that on the
/// second.
pub proof fn law_reports_add_up(
    reg: TypeDefinitionRegistry,
    s: Seq<TypedModule>,
    t: Seq<TypedModule>,
)
    ensures
        modules_report(reg, s + t) == joined_reports(
            modules_report(reg, s),
            modules_report(reg, t),
        ),
    decreases t.len(),
{
    let a = modules_report(reg, s);
    if t.len() == 0 {
        assert(s + t =~= s);
        assert(a.violations + Seq::empty() =~= a.violations);
        assert(a.unchecked_generic_bodies + Seq::empty() =~= a.unchecked_generic_bodies);
    } else {
        law_reports_add_up(reg, s, t.drop_last());
        let b = modules_report(reg, t.drop_last());
        let c = module_report(reg, t.last());
        assert((s + t).drop_last() =~= s + t.drop_last());
        assert((s + t).last() == t.last());
        assert((a.violations + b.violations) + c.violations =~= a.violations + (b.violations
            + c.violations));
        assert((a.unchecked_generic_bodies + b.unchecked_generic_bodies) + c.unchecked_generic_bodies
            =~= a.unchecked_generic_bodies + (b.unchecked_generic_bodies
            + c.unchecked_generic_bodies));
    }
}

/// A module without generic bodies is reported on as it stands: giving generic bodies their
/// symbolic forms changes nothing in it.
pub proof fn law_plain_modules_are_reported_on_as_they_stand(
    reg: TypeDefinitionRegistry,
    before: TypedModule,
    after: TypedModule,
)
    requires
        module_filled(reg, before, after),
        plain_decls(before.decls@),
    ensures
        module_report(reg, after) == module_report(reg, before),
{
    assert(after.decls@ =~= before.decls@);
}

/// A program without generic bodies is reported on as it stands.
pub proof fn law_plain_programs_are_reported_on_as_they_stand(
    before: TypedModuleGraph,
    after: TypedModuleGraph,
)
    requires
        graph_filled(before, after),
        forall|i: int|
            0 <= i < before.modules@.len() ==> plain_decls((#[trigger] before.modules@[i]).decls@),
    ensures
        graph_report(after) == graph_report(before),
{
    let reg = *before.type_registry;
    assert forall|i: int| 0 <= i < after.modules@.len() implies module_report(
        reg,
        #[trigger] after.modules@[i],
    ) == module_report(reg, before.modules@[i]) by {
        law_plain_modules_are_reported_on_as_they_stand(
            reg,
            before.modules@[i],
            after.modules@[i],
        );
    }
    lemma_same_reports(reg, after.modules@, before.modules@);
}

proof fn lemma_same_reports(
    reg: TypeDefinitionRegistry,
    s: Seq<TypedModule>,
    t: Seq<TypedModule>,
)
    requires
        s.len() == t.len(),
        forall|i: int|
            0 <= i < s.len() ==> module_report(reg, #[trigger] s[i]) == module_report(reg, t[i]),
    ensures
        modules_report(reg, s) == modules_report(reg, t),
    decreases s.len(),
{
    if s.len() > 0 {
        let n = s.len() - 1;
        assert(module_report(reg, s[n]) == module_report(reg, t[n]));
        assert forall|i: int| 0 <= i < s.drop_last().len() implies module_report(
            reg,
            #[trigger] s.drop_last()[i],
        ) == module_report(reg, t.drop_last()[i]) by {
            assert(module_report(reg, s[i]) == module_report(reg, t[i]));
        }
        lemma_same_reports(reg, s.drop_last(), t.drop_last());
    }
}

/// A report counts as many bodies of the user's own code that were passed over as it lists, as far
/// as they can be counted.
pub proof fn law_passed_over_bodies_are_listed(reg: TypeDefinitionRegistry, s: Seq<TypedModule>)
    ensures
        tallied(modules_report(reg, s)),
    decreases s.len(),
{
    if s.len() > 0 {
        let m = s.last();
        let start = on_flow(start_world(), push_scope(empty_flow()));
        law_passed_over_bodies_are_listed(reg, s.drop_last());
        law_declarations_advance(Cx { reg, module: texts(m.path@) }, m.decls@, start);
        reveal(advances);
        assert(sound(start));
    }
}

/// Every use of a moved value in a program, and the generic bodies that could not be checked. A
/// generic body is checked in its form for symbolic type arguments, which it gets here.
#[must_use]
pub fn collect_graph_violations(graph: &mut TypedModuleGraph) -> (r: MoveCheckReport)
    ensures
        graph_filled(*old(graph), *final(graph)),
        r@ == graph_report(*final(graph)),
        r.skipped_generic_bodies_user == r.unchecked_generic_bodies@.len(),
{
    fill_graph(graph);
    filled_graph_violations(graph)
}

fn filled_graph_violations(graph: &TypedModuleGraph) -> (r: MoveCheckReport)
    ensures
        r@ == graph_report(*graph),
        r.skipped_generic_bodies_user == r.unchecked_generic_bodies@.len(),
{
    let mut report: MoveCheckReport = MoveCheckReport::empty();
    let mut i: usize = 0;
    while i < graph.modules.len()
        invariant
            i <= graph.modules@.len(),
            report@ == modules_report(*graph.type_registry, graph.modules@.take(i as int)),
        decreases graph.modules@.len() - i,
    {
        let module: &TypedModule = &graph.modules[i];
        assert(graph.modules@.take(i + 1).drop_last() =~= graph.modules@.take(i as int));
        let mut checker: Checker = Checker::new(graph.type_registry);
        let mut state: FlowState = FlowState::new();
        state.push_scope();
        assert(checker.world(state@) == on_flow(start_world(), push_scope(empty_flow())));
        checker.check_decls(&module.decls, &module.path, &mut state);
        report.absorb(checker.report);
        i += 1;
    }
    proof {
        assert(graph.modules@.take(i as int) =~= graph.modules@);
        law_passed_over_bodies_are_listed(*graph.type_registry, graph.modules@);
        assert(report@.unchecked_generic_bodies.len() == report.unchecked_generic_bodies@.len());
        assert(report.unchecked_generic_bodies@.len() <= usize::MAX) by {
            assert(report.unchecked_generic_bodies.len() <= usize::MAX);
        }
    }
    report
}

/// A violation that the user's own code is to blame for.
pub open spec fn in_user_code(v: MoveViolationV) -> bool {
    !in_embedded_std(v.use_span)
}

/// The first violation in user code.
pub open spec fn first_violation(r: MoveCheckReportV) -> Option<MoveViolationV> {
    first_where(r.violations, |v: MoveViolationV| in_user_code(v))
}

/// What is said of a generic body that could not be checked.
pub open spec fn unchecked_text(u: UncheckedGenericBodyV) -> Seq<char> {
    "move checking could not analyze generic body at "@ + u.span.filename + ":"@ + decimal(
        u.span.line as nat,
    ) + ":"@ + decimal(u.span.col as nat) + ": "@ + u.reason
}

/// What is said of every generic body that could not be checked.
pub open spec fn unchecked_texts(r: MoveCheckReportV) -> Seq<Seq<char>> {
    Seq::new(
        r.unchecked_generic_bodies.len(),
        |i: int| unchecked_text(r.unchecked_generic_bodies[i]),
    )
}

fn first_user_violation(report: &MoveCheckReport) -> (r: Option<&MoveViolation>)
    ensures
        match r {
            Some(v) => first_violation(report@) == Some(v@),
            None => first_violation(report@) is None,
        },
{
    let ghost views = report@.violations;
    let ghost p = |v: MoveViolationV| in_user_code(v);
    assert(views.len() == report.violations@.len());
    assert(views.skip(0) =~= views);
    let mut i: usize = 0;
    while i < report.violations.len()
        invariant
            i <= report.violations@.len(),
            views == report@.violations,
            views.len() == report.violations@.len(),
            p == (|v: MoveViolationV| in_user_code(v)),
            first_where(views, p) == first_where(views.skip(i as int), p),
        decreases report.violations@.len() - i,
    {
        proof {
            lemma_first_where_skip(views, p, i as int);
            assert(views[i as int] == report.violations@[i as int]@);
        }
        if !is_embedded_std_span(&report.violations[i].use_span) {
            return Some(&report.violations[i]);
        }
        i += 1;
    }
    None
}

fn describe_unchecked(body: &UncheckedGenericBody) -> (r: String)
    ensures
        r@ == unchecked_text(body@),
{
    let mut out: String = "move checking could not analyze generic body at ".to_owned();
    out.append(body.span.filename.as_str());
    out.append(":");
    out.append(decimal_text(body.span.line as u64).as_str());
    out.append(":");
    out.append(decimal_text(body.span.col as u64).as_str());
    out.append(": ");
    out.append(body.reason.as_str());
    out
}

/// Run the move checker, convert the first violation in user code into a type error, and return
/// what there is to say of bodies that could not be checked.
pub fn check_graph(graph: &mut TypedModuleGraph) -> (r: Result<Vec<String>, MetelError>)
    ensures
        graph_filled(*old(graph), *final(graph)),
        match first_violation(graph_report(*final(graph))) {
            Some(v) => r matches Err(e) && e@ == (MetelErrorV::TypeError {
                code: TypeErrorCode::T0019,
                message: message_of(v),
                span: v.use_span,
            }),
            None => r matches Ok(warnings) && texts(warnings@) == unchecked_texts(
                graph_report(*final(graph)),
            ),
        },
{
    let report: MoveCheckReport = collect_graph_violations(graph);
    if let Some(violation) = first_user_violation(&report) {
        let message: String = violation_message(violation);
        return Err(MetelError::type_error(TypeErrorCode::T0019, message, &violation.use_span));
    }
    let ghost views = report@.unchecked_generic_bodies;
    assert(views.len() == report.unchecked_generic_bodies@.len());
    let mut out: Vec<String> = Vec::new();
    let mut i: usize = 0;
    while i < report.unchecked_generic_bodies.len()
        invariant
            i <= report.unchecked_generic_bodies@.len(),
            out@.len() == i,
            views == report@.unchecked_generic_bodies,
            views.len() == report.unchecked_generic_bodies@.len(),
            forall|k: int| 0 <= k < i ==> (#[trigger] out@[k])@ == unchecked_text(views[k]),
        decreases report.unchecked_generic_bodies@.len() - i,
    {
        assert(views[i as int] == report.unchecked_generic_bodies@[i as int]@);
        out.push(describe_unchecked(&report.unchecked_generic_bodies[i]));
        i += 1;
    }
    assert(texts(out@) =~= unchecked_texts(report@));
    Ok(out)
}

} // verus!
