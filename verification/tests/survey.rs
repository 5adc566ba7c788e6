use metel::move_check::survey::{is_projection_base_only_violation, Survey};
use metel::move_check::{MoveCheckReport, MoveViolation, MoveViolationKind};
use metel::pipeline::{capped_ns, Phase, PhaseTimings, RunOptions};
use metel::place::{Place, Projection};
use metel::span::Span;

fn span(file: &str, line: u32) -> Span {
    Span { start: 0, end: 0, filename: file.to_string(), line, col: 5 }
}

fn violation(file: &str, use_line: u32, moved_line: u32) -> MoveViolation {
    MoveViolation {
        binding: "p".to_string(),
        use_place: Place::new("p".to_string()),
        moved_place: Place::new("p".to_string())
            .with_projection(Projection::Field("left".to_string())),
        kind: MoveViolationKind::UseAfterMove,
        moved_by_value_receiver: true,
        moved_type: "String".to_string(),
        moved_in_previous_iteration: false,
        use_span: span(file, use_line),
        moved_span: span(file, moved_line),
    }
}

fn report(violations: Vec<MoveViolation>, user: usize, std: usize) -> MoveCheckReport {
    MoveCheckReport {
        violations,
        skipped_generic_bodies_user: user,
        skipped_generic_bodies_embedded_std: std,
        unchecked_generic_bodies: vec![],
    }
}

#[test]
fn a_survey_adds_up_what_was_reported() {
    let mut s = Survey::new();
    s.record("a.mtl", &report(vec![violation("a.mtl", 3, 2)], 4, 1)).unwrap();
    s.record("b.mtl", &report(vec![violation("<embedded std::core>", 3, 2)], 0, 7)).unwrap();
    s.record("c.mtl", &report(vec![], 2, 2)).unwrap();
    assert_eq!(
        s.lines(),
        vec![
            "typical_skipped_generic_bodies_per_program=user:2;embedded_std:2",
            "max_skipped_generic_bodies_per_program=user:4;embedded_std:7",
            "fixtures_with_move_violations=1",
            "user_move_violations=1",
            "user_move_violations_with_by_value_receiver_move_side=1",
            "embedded_std_move_violations=1",
            "skipped_generic_bodies_user_total=6",
            "skipped_generic_bodies_embedded_std_total=10",
            "a.mtl:1:a.mtl:3:5:p:p->p.left:2:5",
        ]
    );
}

#[test]
fn a_survey_of_nothing_has_no_typical_program() {
    assert_eq!(Survey::new().lines()[0], "fixtures_with_move_violations=0");
}

#[test]
fn a_move_that_is_its_own_use_stops_the_survey() {
    let mut s = Survey::new();
    let v = violation("a.mtl", 2, 2);
    assert!(is_projection_base_only_violation(&v));
    let e = s.record("a.mtl", &report(vec![v], 0, 0)).unwrap_err();
    assert_eq!(e, "checker bug: move site reported as its own use for `p` at a.mtl:2");
    assert_eq!(s.lines(), Survey::new().lines());
}

#[test]
fn a_time_that_is_too_long_is_capped() {
    assert_eq!(capped_ns(5), 5);
    assert_eq!(capped_ns(u64::MAX as u128 + 1), u64::MAX);
    let mut t = PhaseTimings::default();
    t.record(Phase::Resolve, 9);
    assert_eq!(t, PhaseTimings { resolve_ns: 9, ..PhaseTimings::default() });
    assert!(!RunOptions::default().collect_evaluator_profile);
}

#[test]
fn a_report_counts_what_it_holds() {
    let r = report(vec![violation("a.mtl", 3, 2), violation("a.mtl", 4, 2)], 4, 1);
    assert_eq!(r.violation_count(), 2);
    assert_eq!(r.skipped_generic_bodies_total(), 5);
}

#[test]
fn a_move_on_an_earlier_iteration_may_be_its_own_use() {
    let mut carried = violation("a.mtl", 3, 3);
    carried.moved_in_previous_iteration = true;
    carried.moved_place = Place::new("p".to_string());
    let mut s = Survey::new();
    assert_eq!(s.record("a.mtl", &report(vec![carried], 0, 0)), Ok(()));
    let own = violation("a.mtl", 3, 3);
    assert!(s.record("a.mtl", &report(vec![own], 0, 0)).is_err());
}
