use rspec::header::{ContextHeader, ContextLabel, ExampleHeader, ExampleLabel, SuiteHeader, SuiteLabel};
use rspec::report::{BlockReport, ContextReport, ExampleReport, SuiteReport};

fn leaf(report: ExampleReport) -> BlockReport {
    BlockReport::Example(ExampleHeader::default(), report)
}

fn group(reports: Vec<BlockReport>) -> BlockReport {
    BlockReport::Context(
        Some(ContextHeader::new(ContextLabel::Context, "group")),
        ContextReport::new(reports),
    )
}

fn suite(reports: Vec<BlockReport>) -> SuiteReport {
    SuiteReport::new(SuiteHeader::new(SuiteLabel::Suite, "suite"), ContextReport::new(reports))
}

#[test]
fn only_a_failure_fails_among_example_reports() {
    assert!(!ExampleReport::Success.is_failure());
    assert!(!ExampleReport::Ignored.is_failure());
    assert!(ExampleReport::Failure(None).is_failure());
    assert!(ExampleReport::Failure(Some("reason".to_string())).is_failure());
    assert!(ExampleReport::Success.is_success());
    assert!(ExampleReport::Ignored.is_success());
    assert!(!ExampleReport::Failure(None).is_success());
}

#[test]
fn a_suite_with_success_failure_success_fails() {
    let report = suite(vec![
        leaf(ExampleReport::Success),
        leaf(ExampleReport::Failure(None)),
        leaf(ExampleReport::Success),
    ]);
    assert!(report.is_failure());
    assert!(!report.is_success());
}

#[test]
fn a_suite_with_success_ignored_success_does_not_fail() {
    let report = suite(vec![
        leaf(ExampleReport::Success),
        leaf(ExampleReport::Ignored),
        leaf(ExampleReport::Success),
    ]);
    assert!(!report.is_failure());
    assert!(report.is_success());
}

#[test]
fn an_empty_report_does_not_fail() {
    assert!(!ContextReport::new(vec![]).is_failure());
    assert!(ContextReport::new(vec![]).is_success());
    assert!(!suite(vec![]).is_failure());
    assert!(!group(vec![]).is_failure());
    assert!(!group(vec![group(vec![]), group(vec![group(vec![])])]).is_failure());
}

#[test]
fn a_failure_fails_the_reports_above_it_at_any_depth() {
    let deep = group(vec![
        leaf(ExampleReport::Success),
        group(vec![
            leaf(ExampleReport::Ignored),
            group(vec![leaf(ExampleReport::Success), leaf(ExampleReport::Failure(None))]),
        ]),
    ]);
    assert!(deep.is_failure());
    assert!(!deep.is_success());
    let report = suite(vec![leaf(ExampleReport::Success), deep, leaf(ExampleReport::Ignored)]);
    assert!(report.is_failure());
    assert!(report.context.is_failure());
    assert!(!report.context.sub_reports[0].is_failure());
    assert!(report.context.sub_reports[1].is_failure());
    assert!(!report.context.sub_reports[2].is_failure());
}

#[test]
fn a_failure_behind_the_last_block_is_found() {
    let report = suite(vec![
        leaf(ExampleReport::Success),
        leaf(ExampleReport::Success),
        leaf(ExampleReport::Success),
        leaf(ExampleReport::Failure(None)),
    ]);
    assert!(report.is_failure());
    let report = suite(vec![
        leaf(ExampleReport::Failure(None)),
        leaf(ExampleReport::Success),
    ]);
    assert!(report.is_failure());
}

#[test]
fn the_outcome_of_a_passing_report_is_ok_and_of_a_failing_one_the_report() {
    let passing = suite(vec![leaf(ExampleReport::Success), leaf(ExampleReport::Ignored)]);
    assert_eq!(Ok(()), passing.into_outcome());
    let failing = suite(vec![leaf(ExampleReport::Success), leaf(ExampleReport::Failure(None))]);
    let kept = suite(vec![leaf(ExampleReport::Success), leaf(ExampleReport::Failure(None))]);
    assert_eq!(Err(kept), failing.into_outcome());
}

#[test]
fn what_an_example_returns_becomes_its_report() {
    assert_eq!(ExampleReport::Success, ExampleReport::from(()));
    assert_eq!(ExampleReport::Success, ExampleReport::from(true));
    assert_eq!(ExampleReport::Failure(None), ExampleReport::from(false));
    assert_eq!(ExampleReport::Success, ExampleReport::from(Ok(()) as Result<(), ()>));
    assert_eq!(ExampleReport::Success, ExampleReport::from(Ok(3) as Result<i32, ()>));
    assert_eq!(ExampleReport::Failure(None), ExampleReport::from(Err(()) as Result<(), ()>));
    assert_eq!(ExampleReport::Failure(None), ExampleReport::from(Err("why") as Result<u8, &str>));
}

#[test]
fn headers_hold_what_they_were_made_of() {
    let suite = SuiteHeader::new(SuiteLabel::Given, "a suite");
    assert_eq!(SuiteLabel::Given, suite.label);
    assert_eq!("a suite", suite.name);
    let context = ContextHeader::new(ContextLabel::When, "a context");
    assert_eq!(ContextLabel::When, context.label);
    assert_eq!("a context", context.name);
    let example = ExampleHeader::new(ExampleLabel::Then, "an example");
    assert_eq!(ExampleLabel::Then, example.label);
    assert_eq!("an example", example.name);
    let default = ExampleHeader::default();
    assert_eq!(ExampleLabel::It, default.label);
    assert_eq!("example", default.name);
}

#[test]
fn reports_hold_what_they_were_made_of() {
    let header = SuiteHeader::new(SuiteLabel::Describe, "kept");
    let report = SuiteReport::new(header, ContextReport::new(vec![leaf(ExampleReport::Ignored)]));
    assert_eq!(header, report.header);
    assert_eq!(vec![leaf(ExampleReport::Ignored)], report.context.sub_reports);
}

#[test]
fn a_copy_of_a_report_equals_the_report() {
    let report = suite(vec![
        leaf(ExampleReport::Success),
        group(vec![
            leaf(ExampleReport::Ignored),
            leaf(ExampleReport::Failure(Some("why".to_string()))),
            group(vec![]),
        ]),
        leaf(ExampleReport::Failure(None)),
    ]);
    let copy = report.clone();
    assert_eq!(report, copy);
    assert_eq!(report.context, copy.context.clone());
    assert_eq!(report.context.sub_reports[1], copy.context.sub_reports[1].clone());
    assert_eq!(report.is_failure(), copy.is_failure());
    assert_eq!(
        ExampleReport::Failure(Some("why".to_string())),
        ExampleReport::Failure(Some("why".to_string())).clone()
    );
    assert_eq!(ExampleReport::Ignored, ExampleReport::Ignored.clone());
    assert_eq!(ExampleReport::Success, ExampleReport::Success.clone());
}
