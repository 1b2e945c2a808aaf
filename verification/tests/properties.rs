use rspec::block::example::Example;
use rspec::block::suite::Suite;
use rspec::block::Block;
use rspec::context::{describe, Context};
use rspec::header::{ContextHeader, ExampleHeader, SuiteHeader, SuiteLabel};
use rspec::report::{BlockReport, ContextReport, ExampleReport, SuiteReport};
use rspec::runner::configuration::Configuration;
use rspec::runner::observer::RunnerObserver;
use rspec::runner::Runner;
use rspec::visitor::TestSuiteVisitor;
use std::sync::atomic::{AtomicUsize, Ordering};
use std::sync::{Arc, Mutex};

fn runner(parallel: bool) -> Runner {
    Runner::new(Configuration { parallel, exit_on_failure: false }, vec![])
}

fn outline_of_context<T>(context: &Context<T>) -> String {
    let inner: Vec<String> = context.blocks.iter().map(outline_of_block).collect();
    format!("[{}]", inner.join(","))
}

fn outline_of_block<T>(block: &Block<T>) -> String {
    match block {
        Block::Example(example) => format!("{:?}:{}", example.header.label, example.header.name),
        Block::Context(context) => format!(
            "{}{}",
            context.header.map(|h| format!("{:?}:{}", h.label, h.name)).unwrap_or(String::new()),
            outline_of_context(context)
        ),
    }
}

fn outline_of_report(report: &ContextReport) -> String {
    let inner: Vec<String> = report
        .sub_reports
        .iter()
        .map(|block| match block {
            BlockReport::Example(header, _) => format!("{:?}:{}", header.label, header.name),
            BlockReport::Context(header, report) => format!(
                "{}{}",
                header.map(|h| format!("{:?}:{}", h.label, h.name)).unwrap_or(String::new()),
                outline_of_report(report)
            ),
        })
        .collect();
    format!("[{}]", inner.join(","))
}

fn a_tree() -> Suite<()> {
    describe("tree", (), |ctx| {
        ctx.it("a", |_| true);
        ctx.describe("b", |ctx| {
            ctx.it("b1", |_| true);
            ctx.when("b2", |ctx| {
                ctx.then("b21", |_| false);
                ctx.then("b22", |_| true);
            });
            ctx.example("b3", |_| true);
        });
        ctx.specify("c", |_| {});
        ctx.it("d", |_| true);
        ctx.given("e", |ctx| {
            ctx.it("e1", |_| true);
        });
    })
}

fn the_report_mirrors_the_tree(parallel: bool) {
    let suite = a_tree();
    let expected = outline_of_context(&suite.context);
    assert_eq!(
        "[It:a,Describe:b[It:b1,When:b2[Then:b21,Then:b22],Example:b3],Specify:c[],It:d,Given:e[It:e1]]",
        expected
    );
    let header = suite.header;
    let mut environment = ();
    let report = runner(parallel).visit(&suite, &mut environment);
    assert_eq!(header, report.header);
    assert_eq!(expected, outline_of_report(&report.context));
}

#[test]
fn the_report_mirrors_the_tree_when_serial() {
    the_report_mirrors_the_tree(false);
}

#[test]
fn the_report_mirrors_the_tree_when_parallel() {
    for _ in 0..20 {
        the_report_mirrors_the_tree(true);
    }
}

#[test]
fn the_report_of_a_failing_run_mirrors_the_tree() {
    let suite = a_tree();
    let expected = outline_of_context(&suite.context);
    let report = runner(true).run(suite).unwrap_err();
    assert_eq!(SuiteHeader::new(SuiteLabel::Describe, "tree"), report.header);
    assert_eq!(expected, outline_of_report(&report.context));
}

#[test]
fn many_blocks_keep_their_order_under_parallel_evaluation() {
    let names: Vec<&'static str> = vec![
        "00", "01", "02", "03", "04", "05", "06", "07", "08", "09", "10", "11", "12", "13", "14",
        "15", "16", "17", "18", "19", "20", "21", "22", "23", "24", "25", "26", "27", "28", "29",
        "30", "31",
    ];
    let mut root: Context<usize> = Context::new(None);
    for (i, name) in names.iter().enumerate() {
        root.it(name, move |_| {
            let mut spun: u64 = 0;
            for step in 0..(((37 * i) % 11) as u64 * 20_000) {
                spun = spun.wrapping_mul(31).wrapping_add(step);
            }
            spun != 1 && i % 3 != 0
        });
    }
    let suite = Suite::new(SuiteHeader::new(SuiteLabel::Suite, "many"), 0, root);
    let report = runner(true).run(suite).unwrap_err();
    assert_eq!(names.len(), report.context.sub_reports.len());
    for (i, block) in report.context.sub_reports.iter().enumerate() {
        match block {
            BlockReport::Example(header, outcome) => {
                assert_eq!(names[i], header.name);
                assert_eq!(i % 3 == 0, outcome.is_failure());
            }
            BlockReport::Context(_, _) => panic!("an example was reported as a context"),
        }
    }
}

fn counting(counter: &Arc<AtomicUsize>) -> impl Fn(&mut ()) + Send + Sync + 'static {
    let counter = counter.clone();
    move |_| {
        counter.fetch_add(1, Ordering::SeqCst);
    }
}

fn each_hooks_fire_once_per_direct_child(parallel: bool) {
    let before = Arc::new(AtomicUsize::new(0));
    let after = Arc::new(AtomicUsize::new(0));
    let inner_before = Arc::new(AtomicUsize::new(0));
    let inner_after = Arc::new(AtomicUsize::new(0));
    let (b, a, ib, ia) = (before.clone(), after.clone(), inner_before.clone(), inner_after.clone());
    let suite = describe("root", (), move |ctx| {
        ctx.before_each(counting(&b));
        ctx.after_each(counting(&a));
        ctx.it("one", |_| true);
        ctx.describe("nested", move |ctx| {
            ctx.before_each(counting(&ib));
            ctx.after_each(counting(&ia));
            ctx.it("n1", |_| true);
            ctx.it("n2", |_| true);
            ctx.it("n3", |_| true);
            ctx.it("n4", |_| true);
            ctx.describe("deeper", |ctx| {
                ctx.it("d1", |_| true);
                ctx.it("d2", |_| true);
            });
        });
        ctx.it("two", |_| true);
    });
    assert!(runner(parallel).run(suite).is_ok());
    assert_eq!(3, before.load(Ordering::SeqCst));
    assert_eq!(3, after.load(Ordering::SeqCst));
    assert_eq!(5, inner_before.load(Ordering::SeqCst));
    assert_eq!(5, inner_after.load(Ordering::SeqCst));
}

#[test]
fn each_hooks_fire_once_per_direct_child_when_serial() {
    each_hooks_fire_once_per_direct_child(false);
}

#[test]
fn each_hooks_fire_once_per_direct_child_when_parallel() {
    each_hooks_fire_once_per_direct_child(true);
}

fn all_hooks_fire_once_per_visit_of_their_context(parallel: bool) {
    let before = Arc::new(AtomicUsize::new(0));
    let after = Arc::new(AtomicUsize::new(0));
    let inner_before = Arc::new(AtomicUsize::new(0));
    let inner_after = Arc::new(AtomicUsize::new(0));
    let empty_before = Arc::new(AtomicUsize::new(0));
    let (b, a, ib, ia, eb) = (
        before.clone(),
        after.clone(),
        inner_before.clone(),
        inner_after.clone(),
        empty_before.clone(),
    );
    let suite = describe("root", (), move |ctx| {
        ctx.before_all(counting(&b));
        ctx.after_all(counting(&a));
        ctx.it("one", |_| true);
        ctx.describe("nested", move |ctx| {
            ctx.before_all(counting(&ib));
            ctx.before_all(counting(&ib));
            ctx.after_all(counting(&ia));
            ctx.it("n1", |_| true);
            ctx.it("n2", |_| true);
            ctx.it("n3", |_| true);
        });
        ctx.describe("empty", move |ctx| {
            ctx.before_all(counting(&eb));
        });
        ctx.it("two", |_| true);
    });
    assert!(runner(parallel).run(suite).is_ok());
    assert_eq!(1, before.load(Ordering::SeqCst));
    assert_eq!(1, after.load(Ordering::SeqCst));
    assert_eq!(2, inner_before.load(Ordering::SeqCst));
    assert_eq!(1, inner_after.load(Ordering::SeqCst));
    assert_eq!(1, empty_before.load(Ordering::SeqCst));
}

#[test]
fn all_hooks_fire_once_per_visit_of_their_context_when_serial() {
    all_hooks_fire_once_per_visit_of_their_context(false);
}

#[test]
fn all_hooks_fire_once_per_visit_of_their_context_when_parallel() {
    all_hooks_fire_once_per_visit_of_their_context(true);
}

#[test]
fn a_counter_sees_one_increment_per_example_in_order_when_serial() {
    let counter = Arc::new(AtomicUsize::new(0));
    let seen: Arc<Mutex<Vec<usize>>> = Arc::new(Mutex::new(vec![]));
    let mut root: Context<()> = Context::new(None);
    root.before_each(counting(&counter));
    for name in ["a", "b", "c", "d", "e", "f", "g"] {
        let counter = counter.clone();
        let seen = seen.clone();
        root.it(name, move |_| {
            seen.lock().unwrap().push(counter.load(Ordering::SeqCst));
        });
    }
    let suite = Suite::new(SuiteHeader::new(SuiteLabel::Suite, "counted"), (), root);
    assert!(runner(false).run(suite).is_ok());
    assert_eq!(7, counter.load(Ordering::SeqCst));
    assert_eq!(vec![1, 2, 3, 4, 5, 6, 7], *seen.lock().unwrap());
}

#[test]
fn a_counter_sees_one_increment_per_example_in_all_when_parallel() {
    let counter = Arc::new(AtomicUsize::new(0));
    let seen: Arc<Mutex<Vec<usize>>> = Arc::new(Mutex::new(vec![]));
    let mut root: Context<()> = Context::new(None);
    root.before_each(counting(&counter));
    for name in ["a", "b", "c", "d", "e", "f", "g"] {
        let counter = counter.clone();
        let seen = seen.clone();
        root.it(name, move |_| {
            seen.lock().unwrap().push(counter.load(Ordering::SeqCst));
        });
    }
    let suite = Suite::new(SuiteHeader::new(SuiteLabel::Suite, "counted"), (), root);
    assert!(runner(true).run(suite).is_ok());
    assert_eq!(7, counter.load(Ordering::SeqCst));
    let seen = seen.lock().unwrap();
    assert_eq!(7, seen.len());
    assert!(seen.iter().all(|&count| 1 <= count && count <= 7));
}

#[test]
fn a_context_without_examples_sees_no_increment() {
    let counter = Arc::new(AtomicUsize::new(0));
    let mut root: Context<()> = Context::new(None);
    root.before_each(counting(&counter));
    root.after_each(counting(&counter));
    let suite = Suite::new(SuiteHeader::new(SuiteLabel::Suite, "empty"), (), root);
    assert!(runner(false).run(suite).is_ok());
    assert_eq!(0, counter.load(Ordering::SeqCst));
}

#[test]
fn a_failing_run_makes_a_runner_exit_with_101_where_it_was_told_to() {
    let mut runner = Runner::new(Configuration { parallel: false, exit_on_failure: true }, vec![]);
    assert_eq!(None, runner.exit_code());
    let suite = describe("failing", (), |ctx| {
        ctx.it("fails", |_| false);
    });
    assert!(runner.run(suite).is_err());
    assert!(runner.should_exit);
    assert_eq!(Some(101), runner.exit_code());
}

#[test]
fn a_failing_run_never_makes_a_runner_exit_where_it_was_not_told_to() {
    let mut runner = Runner::new(Configuration { parallel: false, exit_on_failure: false }, vec![]);
    let suite = describe("failing", (), |ctx| {
        ctx.it("fails", |_| false);
    });
    assert!(runner.run(suite).is_err());
    assert!(runner.should_exit);
    assert_eq!(None, runner.exit_code());
}

#[test]
fn a_passing_run_never_makes_a_runner_exit() {
    for exit_on_failure in [false, true] {
        let mut runner = Runner::new(Configuration { parallel: true, exit_on_failure }, vec![]);
        let suite = describe("passing", (), |ctx| {
            ctx.it("passes", |_| true);
            ctx.it("is ignored", |_| ExampleReport::Ignored);
        });
        assert!(runner.run(suite).is_ok());
        assert!(!runner.should_exit);
        assert_eq!(None, runner.exit_code());
    }
}

#[test]
fn a_runner_remembers_a_failure_over_a_later_passing_run() {
    let mut runner = Runner::new(Configuration { parallel: false, exit_on_failure: true }, vec![]);
    assert!(runner.run(describe("failing", (), |ctx| ctx.it("fails", |_| false))).is_err());
    assert!(runner.run(describe("passing", (), |ctx| ctx.it("passes", |_| true))).is_ok());
    assert_eq!(Some(101), runner.exit_code());
}

struct Recorder {
    events: Mutex<Vec<String>>,
}

impl Recorder {
    fn new() -> Arc<Recorder> {
        Arc::new(Recorder { events: Mutex::new(vec![]) })
    }

    fn record(&self, event: String) {
        self.events.lock().unwrap().push(event);
    }

    fn count(&self, event: &str) -> usize {
        self.events.lock().unwrap().iter().filter(|seen| seen.as_str() == event).count()
    }

    fn position(&self, event: &str) -> usize {
        self.events.lock().unwrap().iter().position(|seen| seen.as_str() == event).unwrap()
    }
}

impl RunnerObserver for Recorder {
    fn enter_suite(&self, header: &SuiteHeader) {
        self.record(format!("enter suite {}", header.name));
    }

    fn exit_suite(&self, header: &SuiteHeader, report: &SuiteReport) {
        self.record(format!("exit suite {} {}", header.name, report.is_failure()));
    }

    fn enter_context(&self, header: &ContextHeader) {
        self.record(format!("enter context {}", header.name));
    }

    fn exit_context(&self, header: &ContextHeader, report: &ContextReport) {
        self.record(format!("exit context {} {}", header.name, report.is_failure()));
    }

    fn enter_example(&self, header: &ExampleHeader) {
        self.record(format!("enter example {}", header.name));
    }

    fn exit_example(&self, header: &ExampleHeader, report: &ExampleReport) {
        self.record(format!("exit example {} {}", header.name, report.is_failure()));
    }
}

fn every_observer_gets_one_pair_per_node(parallel: bool) {
    let first = Recorder::new();
    let second = Recorder::new();
    let mut runner = Runner::new(
        Configuration { parallel, exit_on_failure: false },
        vec![first.clone(), second.clone()],
    );
    assert!(runner.run(a_tree()).is_err());
    let pairs = [
        ("enter suite tree", "exit suite tree true"),
        ("enter example a", "exit example a false"),
        ("enter context b", "exit context b true"),
        ("enter example b1", "exit example b1 false"),
        ("enter context b2", "exit context b2 true"),
        ("enter example b21", "exit example b21 true"),
        ("enter example b22", "exit example b22 false"),
        ("enter example b3", "exit example b3 false"),
        ("enter context c", "exit context c false"),
        ("enter example d", "exit example d false"),
        ("enter context e", "exit context e false"),
        ("enter example e1", "exit example e1 false"),
    ];
    for recorder in [&first, &second] {
        assert_eq!(2 * pairs.len(), recorder.events.lock().unwrap().len());
        for (enter, exit) in pairs.iter() {
            assert_eq!(1, recorder.count(enter));
            assert_eq!(1, recorder.count(exit));
            assert!(recorder.position(enter) < recorder.position(exit));
        }
        assert_eq!(0, recorder.position("enter suite tree"));
        assert_eq!(2 * pairs.len() - 1, recorder.position("exit suite tree true"));
        assert!(recorder.position("enter context b") < recorder.position("enter example b1"));
        assert!(recorder.position("exit example b3 false") < recorder.position("exit context b true"));
        assert!(recorder.position("enter context b2") < recorder.position("enter example b21"));
        assert!(recorder.position("exit example b22 false") < recorder.position("exit context b2 true"));
    }
}

#[test]
fn every_observer_gets_one_pair_per_node_when_serial() {
    every_observer_gets_one_pair_per_node(false);
}

#[test]
fn every_observer_gets_one_pair_per_node_when_parallel() {
    every_observer_gets_one_pair_per_node(true);
}

#[test]
fn the_root_context_has_no_header_and_tells_no_observer() {
    let recorder = Recorder::new();
    let mut runner =
        Runner::new(Configuration { parallel: false, exit_on_failure: false }, vec![recorder.clone()]);
    assert!(runner.run(describe("bare", (), |_| {})).is_ok());
    assert_eq!(
        vec!["enter suite bare".to_string(), "exit suite bare false".to_string()],
        *recorder.events.lock().unwrap()
    );
}

#[test]
fn serial_events_come_in_declaration_order() {
    let recorder = Recorder::new();
    let mut runner =
        Runner::new(Configuration { parallel: false, exit_on_failure: false }, vec![recorder.clone()]);
    let suite = describe("s", (), |ctx| {
        ctx.it("a", |_| true);
        ctx.describe("b", |ctx| {
            ctx.it("c", |_| false);
        });
    });
    assert!(runner.run(suite).is_err());
    let expected: Vec<String> = [
        "enter suite s",
        "enter example a",
        "exit example a false",
        "enter context b",
        "enter example c",
        "exit example c true",
        "exit context b true",
        "exit suite s true",
    ]
    .iter()
    .map(|event| event.to_string())
    .collect();
    assert_eq!(expected, *recorder.events.lock().unwrap());
}

fn the_scenario(parallel: bool) {
    let suite = describe("scenario", (), |ctx| {
        ctx.it("A", |_| ExampleReport::Success);
        ctx.it("B", |_| ExampleReport::Failure(None));
        ctx.it("C", |_| ExampleReport::Success);
        ctx.context("D", |ctx| {
            ctx.it("E", |_| ExampleReport::Failure(Some("E failed".to_string())));
        });
    });
    let report = runner(parallel).run(suite).unwrap_err();
    assert!(report.is_failure());
    assert_eq!("[It:A,It:B,It:C,Context:D[It:E]]", outline_of_report(&report.context));
    let blocks = &report.context.sub_reports;
    assert!(matches!(&blocks[0], BlockReport::Example(_, ExampleReport::Success)));
    assert!(matches!(&blocks[1], BlockReport::Example(_, ExampleReport::Failure(None))));
    assert!(matches!(&blocks[2], BlockReport::Example(_, ExampleReport::Success)));
    match &blocks[3] {
        BlockReport::Context(_, nested) => {
            assert_eq!(1, nested.sub_reports.len());
            match &nested.sub_reports[0] {
                BlockReport::Example(_, ExampleReport::Failure(Some(reason))) => {
                    assert_eq!("E failed", reason)
                }
                _ => panic!("E was not reported as a failure with its reason"),
            }
        }
        BlockReport::Example(_, _) => panic!("D was reported as an example"),
    }
}

#[test]
fn the_scenario_when_serial() {
    the_scenario(false);
}

#[test]
fn the_scenario_when_parallel() {
    the_scenario(true);
}

fn every_block_works_on_its_own_copy_of_the_environment(parallel: bool) {
    let suite = describe("isolated", vec!["start"], |ctx| {
        ctx.before_all(|env: &mut Vec<&'static str>| env.push("all"));
        ctx.before_each(|env: &mut Vec<&'static str>| env.push("each"));
        ctx.before_each(|env: &mut Vec<&'static str>| env.push("each again"));
        ctx.it("first", |env: &Vec<&'static str>| {
            *env == vec!["start", "all", "each", "each again"]
        });
        ctx.it("second", |env: &Vec<&'static str>| {
            *env == vec!["start", "all", "each", "each again"]
        });
        ctx.describe("nested", |ctx| {
            ctx.before_all(|env: &mut Vec<&'static str>| env.push("nested all"));
            ctx.before_each(|env: &mut Vec<&'static str>| env.push("nested each"));
            ctx.after_each(|env: &mut Vec<&'static str>| env.push("nested after each"));
            ctx.after_all(|env: &mut Vec<&'static str>| env.push("nested after all"));
            ctx.it("third", |env: &Vec<&'static str>| {
                *env == vec!["start", "all", "each", "each again", "nested all", "nested each"]
            });
            ctx.it("fourth", |env: &Vec<&'static str>| {
                *env == vec!["start", "all", "each", "each again", "nested all", "nested each"]
            });
        });
        ctx.it("last", |env: &Vec<&'static str>| {
            *env == vec!["start", "all", "each", "each again"]
        });
    });
    assert_eq!(vec!["start"], suite.environment);
    assert!(runner(parallel).run(suite).is_ok());
}

#[test]
fn every_block_works_on_its_own_copy_of_the_environment_when_serial() {
    every_block_works_on_its_own_copy_of_the_environment(false);
}

#[test]
fn every_block_works_on_its_own_copy_of_the_environment_when_parallel() {
    every_block_works_on_its_own_copy_of_the_environment(true);
}

#[test]
fn a_visit_of_a_context_leaves_the_environment_as_its_all_hooks_made_it() {
    let mut context: Context<Vec<u8>> = Context::new(None);
    context.before_all(|env| env.push(1));
    context.before_all(|env| env.push(2));
    context.before_each(|env| env.push(10));
    context.after_each(|env| env.push(11));
    context.after_all(|env| env.push(3));
    context.after_all(|env| env.push(4));
    context.it("sees the before hooks", |env: &Vec<u8>| *env == vec![0, 1, 2, 10]);
    let mut environment = vec![0];
    let report = runner(false).visit(&context, &mut environment);
    assert!(!report.is_failure());
    assert_eq!(vec![0, 1, 2, 3, 4], environment);
}

#[test]
fn a_visit_of_a_block_or_an_example_leaves_the_environment_as_it_was() {
    let runner = runner(false);
    let example: Example<u32> = Example::new(ExampleHeader::default(), |env: &u32| {
        if *env == 5 {
            ExampleReport::Success
        } else {
            ExampleReport::Failure(None)
        }
    });
    let mut environment = 5;
    assert_eq!(ExampleReport::Success, runner.visit(&example, &mut environment));
    assert_eq!(5, environment);
    let mut nested: Context<u32> = Context::new(None);
    nested.before_all(|env| *env += 1);
    nested.it("sees six", |env: &u32| *env == 6);
    let block = Block::Context(nested);
    let report = runner.visit(&block, &mut environment);
    assert!(!report.is_failure());
    assert_eq!(5, environment);
    let block = Block::Example(example);
    assert_eq!(
        BlockReport::Example(ExampleHeader::default(), ExampleReport::Success),
        runner.visit(&block, &mut environment)
    );
    assert_eq!(5, environment);
}

#[test]
fn a_run_works_on_a_copy_of_the_environment_of_the_suite() {
    let mut root: Context<u32> = Context::new(None);
    root.before_all(|env| *env += 1);
    root.it("sees one more", |env: &u32| *env == 42);
    let suite = Suite::new(SuiteHeader::new(SuiteLabel::Suite, "copy"), 41, root);
    let mut runner = runner(false);
    assert!(runner.run(suite).is_ok());
}

#[test]
fn the_fixtures_report_what_they_are_named_after() {
    let runner = runner(false);
    let mut environment = ();
    let success: Example<()> = Example::fixture_success();
    let ignored: Example<()> = Example::fixture_ignored();
    let failed: Example<()> = Example::fixture_failed();
    assert_eq!(ExampleHeader::default(), success.header);
    assert_eq!(ExampleReport::Success, runner.visit(&success, &mut environment));
    assert_eq!(ExampleReport::Ignored, runner.visit(&ignored, &mut environment));
    assert_eq!(ExampleReport::Failure(None), runner.visit(&failed, &mut environment));
}

#[test]
fn an_ignored_example_does_not_fail_a_run() {
    let mut root: Context<()> = Context::new(None);
    root.blocks.push(Block::Example(Example::fixture_success()));
    root.blocks.push(Block::Example(Example::fixture_ignored()));
    root.blocks.push(Block::Example(Example::fixture_success()));
    let suite = Suite::new(SuiteHeader::new(SuiteLabel::Suite, "ignored"), (), root);
    assert_eq!(Ok(()), runner(false).run(suite));
    let mut root: Context<()> = Context::new(None);
    root.blocks.push(Block::Example(Example::fixture_success()));
    root.blocks.push(Block::Example(Example::fixture_failed()));
    root.blocks.push(Block::Example(Example::fixture_success()));
    let suite = Suite::new(SuiteHeader::new(SuiteLabel::Suite, "failed"), (), root);
    assert!(runner(false).run(suite).is_err());
}

#[test]
fn a_failing_example_does_not_keep_its_siblings_from_running() {
    let ran = Arc::new(AtomicUsize::new(0));
    let (first, second, third) = (ran.clone(), ran.clone(), ran.clone());
    let suite = describe("siblings", (), move |ctx| {
        ctx.it("fails first", move |_| {
            first.fetch_add(1, Ordering::SeqCst);
            false
        });
        ctx.it("still runs", move |_| {
            second.fetch_add(1, Ordering::SeqCst);
            true
        });
        ctx.describe("nested", move |ctx| {
            ctx.it("still runs too", move |_| {
                third.fetch_add(1, Ordering::SeqCst);
                true
            });
        });
    });
    let report = runner(false).run(suite).unwrap_err();
    assert_eq!(3, ran.load(Ordering::SeqCst));
    assert!(report.context.sub_reports[0].is_failure());
    assert!(!report.context.sub_reports[1].is_failure());
    assert!(!report.context.sub_reports[2].is_failure());
}
