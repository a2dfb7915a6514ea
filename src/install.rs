//! The decisions of an installation run.
//!
//! Installing one application is a small state machine: an optional
//! installed-check, then the operations strictly in order, stopping at the
//! first failure. The caller performs each step and reports what happened;
//! [`ApplicationInstall::advance`] decides what comes next. A [`Tally`]
//! counts the outcomes over all applications.
use vstd::prelude::*;

use crate::alias::{resolution, CycleDetected, Resolution};
use crate::execution_platform::already_installed;
use crate::schema::{recipe_graph, ApplicationView, ConcreteRecipe, Schema};

verus! {

/// How the installation of one application ended.
#[derive(Debug, Clone, Copy, PartialEq, Eq, Structural)]
pub enum Outcome {
    Success,
    Skip,
    Failure,
}

/// What the caller is asked to do next.
#[derive(Debug, Clone, Copy, PartialEq, Eq, Structural)]
pub enum InstallStep {
    /// Run the recipe's installed-check predicate.
    CheckInstalled,
    /// Run the operation at this position.
    RunOperation(usize),
    /// Nothing more to run.
    Finished(Outcome),
}

/// What happened when the caller performed a step.
#[derive(Debug, Clone, Copy, PartialEq, Eq, Structural)]
pub enum InstallEvent {
    /// The predicate exited with status 0.
    Installed,
    /// The predicate exited with another status.
    NotInstalled,
    /// The predicate could not be run.
    CheckFailed,
    OperationSucceeded,
    OperationFailed,
}

/// The first operation to run, or success when there is none left.
pub open spec fn run_from(i: int, operations: nat) -> InstallStep {
    if 0 <= i < operations {
        InstallStep::RunOperation(i as usize)
    } else {
        InstallStep::Finished(Outcome::Success)
    }
}

/// The first step for a recipe with or without an installed-check.
pub open spec fn first_step(has_check: bool, operations: nat) -> InstallStep {
    if has_check {
        InstallStep::CheckInstalled
    } else {
        run_from(0, operations)
    }
}

/// The step after `step` when `event` happened. An installed application is
/// skipped; a failed check or operation fails the application and nothing
/// after it runs; a succeeded operation moves to the next one. An event that
/// does not answer the current step changes nothing.
pub open spec fn next_step(step: InstallStep, operations: nat, event: InstallEvent) -> InstallStep {
    match step {
        InstallStep::CheckInstalled => match event {
            InstallEvent::Installed => InstallStep::Finished(Outcome::Skip),
            InstallEvent::NotInstalled => run_from(0, operations),
            InstallEvent::CheckFailed => InstallStep::Finished(Outcome::Failure),
            _ => step,
        },
        InstallStep::RunOperation(i) => match event {
            InstallEvent::OperationSucceeded => run_from(i + 1, operations),
            InstallEvent::OperationFailed => InstallStep::Finished(Outcome::Failure),
            _ => step,
        },
        InstallStep::Finished(_) => step,
    }
}

/// The event that an installed-check's exit code reports.
pub open spec fn check_event_of(exit_code: Option<i32>) -> InstallEvent {
    if exit_code == Some(0i32) {
        InstallEvent::Installed
    } else {
        InstallEvent::NotInstalled
    }
}

/// The installation of one application.
pub struct ApplicationInstall {
    operations: usize,
    step: InstallStep,
}

impl ApplicationInstall {
    #[verifier::type_invariant]
    spec fn step_in_range(self) -> bool {
        self.step matches InstallStep::RunOperation(i) ==> i < self.operations
    }

    pub closed spec fn operation_count(self) -> nat {
        self.operations as nat
    }

    pub closed spec fn current(self) -> InstallStep {
        self.step
    }

    /// Starts installing an application with `recipe`.
    pub fn new(recipe: &ConcreteRecipe) -> (r: ApplicationInstall)
        ensures
            r.operation_count() == recipe.operations.len(),
            r.current() == first_step(recipe.skip_if is Some, recipe.operations.len() as nat),
    {
        let operations = recipe.operations.len();
        let step = if recipe.skip_if.is_some() {
            InstallStep::CheckInstalled
        } else if operations > 0 {
            InstallStep::RunOperation(0)
        } else {
            InstallStep::Finished(Outcome::Success)
        };
        ApplicationInstall { operations, step }
    }

    /// What to do next.
    pub fn step(&self) -> (r: InstallStep)
        ensures
            r == self.current(),
    {
        self.step
    }

    /// Records what happened and returns the next step.
    pub fn advance(&mut self, event: InstallEvent) -> (r: InstallStep)
        ensures
            final(self).operation_count() == old(self).operation_count(),
            final(self).current() == next_step(
                old(self).current(),
                old(self).operation_count(),
                event,
            ),
            r == final(self).current(),
    {
        proof {
            use_type_invariant(&*self);
        }
        let next = match self.step {
            InstallStep::CheckInstalled => match event {
                InstallEvent::Installed => InstallStep::Finished(Outcome::Skip),
                InstallEvent::NotInstalled => if self.operations > 0 {
                    InstallStep::RunOperation(0)
                } else {
                    InstallStep::Finished(Outcome::Success)
                },
                InstallEvent::CheckFailed => InstallStep::Finished(Outcome::Failure),
                _ => self.step,
            },
            InstallStep::RunOperation(i) => match event {
                InstallEvent::OperationSucceeded => if i + 1 < self.operations {
                    InstallStep::RunOperation(i + 1)
                } else {
                    InstallStep::Finished(Outcome::Success)
                },
                InstallEvent::OperationFailed => InstallStep::Finished(Outcome::Failure),
                _ => self.step,
            },
            InstallStep::Finished(_) => self.step,
        };
        self.step = next;
        next
    }
}

/// The event that an installed-check's exit code reports: installed exactly
/// when it exited with status 0.
pub fn check_event(exit_code: Option<i32>) -> (r: InstallEvent)
    ensures
        r == check_event_of(exit_code),
{
    if already_installed(exit_code) {
        InstallEvent::Installed
    } else {
        InstallEvent::NotInstalled
    }
}

/// An installed-check that exits with status 0 ends the installation as
/// skipped, and no operation runs after that whatever is reported; any other
/// exit status leads on exactly as for the same recipe without a check.
pub proof fn lemma_installed_check(operations: nat, exit_code: Option<i32>)
    ensures
        exit_code == Some(0i32) ==> next_step(
            first_step(true, operations),
            operations,
            check_event_of(exit_code),
        ) == InstallStep::Finished(Outcome::Skip),
        forall|e: InstallEvent|
            #[trigger] next_step(InstallStep::Finished(Outcome::Skip), operations, e)
                == InstallStep::Finished(Outcome::Skip),
        exit_code != Some(0i32) ==> next_step(
            first_step(true, operations),
            operations,
            check_event_of(exit_code),
        ) == first_step(false, operations),
{
}

/// The number of applications per outcome.
#[derive(Debug, Clone, Copy, PartialEq, Eq, Structural)]
pub struct Tally {
    pub success: usize,
    pub skip: usize,
    pub failure: usize,
}

impl Tally {
    pub open spec fn total(self) -> int {
        self.success + self.skip + self.failure
    }

    pub fn new() -> (r: Tally)
        ensures
            r == (Tally { success: 0, skip: 0, failure: 0 }),
    {
        Tally { success: 0, skip: 0, failure: 0 }
    }

    /// Counts one more application with `outcome`.
    pub fn record(&mut self, outcome: Outcome)
        requires
            old(self).total() < usize::MAX,
        ensures
            *final(self) == match outcome {
                Outcome::Success => Tally { success: (old(self).success + 1) as usize, ..*old(self) },
                Outcome::Skip => Tally { skip: (old(self).skip + 1) as usize, ..*old(self) },
                Outcome::Failure => Tally { failure: (old(self).failure + 1) as usize, ..*old(self) },
            },
            final(self).total() == old(self).total() + 1,
    {
        match outcome {
            Outcome::Success => self.success = self.success + 1,
            Outcome::Skip => self.skip = self.skip + 1,
            Outcome::Failure => self.failure = self.failure + 1,
        }
    }
}

/// No application's recipe chain for `platform` is cyclic.
pub open spec fn recipes_resolve(apps: Seq<ApplicationView>, platform: Seq<char>) -> bool {
    forall|i: int|
        0 <= i < apps.len() ==> resolution(recipe_graph(#[trigger] apps[i].recipe), platform)
            != Resolution::Cyclic
}

impl Schema {
    /// Checks, before anything runs, that no application's recipe for
    /// `platform` sits on a cyclic alias chain.
    pub fn check_recipes(&self, platform: &String) -> (r: Result<(), CycleDetected>)
        ensures
            r is Ok <==> recipes_resolve(self@.application, platform@),
    {
        let apps = self.application();
        let mut i: usize = 0;
        while i < apps.len()
            invariant
                apps@.map_values(|a: crate::schema::Application| a@) == self@.application,
                i <= apps.len(),
                forall|j: int|
                    0 <= j < i ==> resolution(recipe_graph(#[trigger] self@.application[j].recipe), platform@)
                        != Resolution::Cyclic,
            decreases apps.len() - i,
        {
            assert(self@.application[i as int] == apps@[i as int]@);
            if apps[i].resolve_recipe(platform).is_err() {
                return Err(CycleDetected);
            }
            i += 1;
        }
        Ok(())
    }
}

} // verus!
