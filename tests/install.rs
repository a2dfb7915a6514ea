use bootstrapper::execution_platform::{
    execution_result, prepare_operation_with_home, Step, UnixExecutionPlatform,
};
use bootstrapper::install::{check_event, ApplicationInstall, InstallEvent, InstallStep, Outcome, Tally};
use bootstrapper::schema::{
    Application, Argument, CommandConfig, ConcreteRecipe, Operation, PathStr,
    PlatformSpecificRecipe, Schema,
};

fn cmd(command: &str, args: &[&str]) -> CommandConfig {
    CommandConfig {
        command: Argument::String(command.to_string()),
        as_root: Some(false),
        args: Some(args.iter().map(|a| Argument::String(a.to_string())).collect()),
    }
}

fn recipe(skip_if: Option<CommandConfig>, n: usize) -> ConcreteRecipe {
    ConcreteRecipe {
        skip_if,
        operations: (0..n).map(|i| Operation::Command(cmd("step", &[&i.to_string()]))).collect(),
    }
}

#[test]
fn predicate_exit_zero_skips_without_operations() {
    let r = recipe(Some(cmd("which", &["git"])), 3);
    let mut run = ApplicationInstall::new(&r);
    assert_eq!(run.step(), InstallStep::CheckInstalled);
    let next = run.advance(check_event(Some(0)));
    assert_eq!(next, InstallStep::Finished(Outcome::Skip));
    assert_eq!(run.advance(InstallEvent::OperationSucceeded), InstallStep::Finished(Outcome::Skip));
    let mut tally = Tally::new();
    tally.record(Outcome::Skip);
    assert_eq!(tally, Tally { success: 0, skip: 1, failure: 0 });
}

#[test]
fn predicate_nonzero_runs_operations_in_order() {
    let r = recipe(Some(cmd("which", &["git"])), 2);
    let mut run = ApplicationInstall::new(&r);
    assert_eq!(run.advance(check_event(Some(1))), InstallStep::RunOperation(0));
    assert_eq!(run.advance(InstallEvent::OperationSucceeded), InstallStep::RunOperation(1));
    assert_eq!(run.advance(InstallEvent::OperationSucceeded), InstallStep::Finished(Outcome::Success));
}

#[test]
fn predicate_that_cannot_run_fails_the_application() {
    let r = recipe(Some(cmd("missing-tool", &[])), 2);
    let mut run = ApplicationInstall::new(&r);
    assert_eq!(run.advance(InstallEvent::CheckFailed), InstallStep::Finished(Outcome::Failure));
}

#[test]
fn first_failure_aborts_the_rest() {
    let r = recipe(None, 3);
    let mut run = ApplicationInstall::new(&r);
    assert_eq!(run.step(), InstallStep::RunOperation(0));
    assert_eq!(run.advance(InstallEvent::OperationSucceeded), InstallStep::RunOperation(1));
    assert_eq!(run.advance(InstallEvent::OperationFailed), InstallStep::Finished(Outcome::Failure));
    assert_eq!(run.advance(InstallEvent::OperationSucceeded), InstallStep::Finished(Outcome::Failure));
}

#[test]
fn empty_recipe_succeeds() {
    let r = recipe(None, 0);
    let run = ApplicationInstall::new(&r);
    assert_eq!(run.step(), InstallStep::Finished(Outcome::Success));
}

#[test]
fn unrelated_event_changes_nothing() {
    let r = recipe(Some(cmd("which", &["x"])), 1);
    let mut run = ApplicationInstall::new(&r);
    assert_eq!(run.advance(InstallEvent::OperationSucceeded), InstallStep::CheckInstalled);
}

#[test]
fn tally_counts_each_outcome() {
    let mut tally = Tally::new();
    tally.record(Outcome::Success);
    tally.record(Outcome::Failure);
    tally.record(Outcome::Success);
    tally.record(Outcome::Skip);
    assert_eq!(tally, Tally { success: 2, skip: 1, failure: 1 });
}

// Two applications on "linux": a link whose source is missing, and
// `curl --version`. The caller's side (probing the source, running the
// command) is played by the test.
#[test]
fn gitconfig_fails_and_curl_succeeds() {
    let gitconfig = Application::new(
        "gitconfig".to_string(),
        vec![(
            "linux".to_string(),
            PlatformSpecificRecipe::ConcreteRecipe(ConcreteRecipe {
                skip_if: None,
                operations: vec![Operation::Link {
                    original: PathStr("~/no-such-dotfiles-dir/gitconfig".to_string()),
                    link: PathStr("~/.gitconfig".to_string()),
                }],
            }),
        )],
    )
    .unwrap();
    let curl = Application::new(
        "curl".to_string(),
        vec![(
            "linux".to_string(),
            PlatformSpecificRecipe::ConcreteRecipe(ConcreteRecipe {
                skip_if: None,
                operations: vec![Operation::Command(cmd("curl", &["--version"]))],
            }),
        )],
    )
    .unwrap();
    let mut schema = Schema::new(vec![], vec![gitconfig, curl]).unwrap();
    assert_eq!(schema.expand(), Ok(()));
    let platform = "linux".to_string();
    assert_eq!(schema.check_recipes(&platform), Ok(()));
    let home = "/nonexistent-home-for-test".to_string();
    let unix = UnixExecutionPlatform;
    let mut tally = Tally::new();
    let mut outcomes = Vec::new();
    for app in schema.application() {
        let recipe = match app.resolve_recipe(&platform) {
            Ok(Some(r)) => r,
            _ => continue,
        };
        let mut run = ApplicationInstall::new(recipe);
        let outcome = loop {
            match run.step() {
                InstallStep::CheckInstalled => {
                    run.advance(check_event(Some(1)));
                }
                InstallStep::RunOperation(i) => {
                    let step =
                        prepare_operation_with_home(&unix, &recipe.operations[i], Some(&home)).unwrap();
                    let ok = match step {
                        Step::Link { original, .. } => std::path::Path::new(&original).exists(),
                        Step::Run(inv) => {
                            assert_eq!(inv.program, "curl");
                            assert_eq!(inv.args, vec!["--version".to_string()]);
                            execution_result(Some(0)).is_ok()
                        }
                    };
                    run.advance(if ok {
                        InstallEvent::OperationSucceeded
                    } else {
                        InstallEvent::OperationFailed
                    });
                }
                InstallStep::Finished(o) => break o,
            }
        };
        outcomes.push((app.name().clone(), outcome));
        tally.record(outcome);
    }
    assert_eq!(
        outcomes,
        vec![("gitconfig".to_string(), Outcome::Failure), ("curl".to_string(), Outcome::Success)]
    );
    assert_eq!(tally, Tally { success: 1, skip: 0, failure: 1 });
}
