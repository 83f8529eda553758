//! The steps of installing an instance (`warren dig`), as a state machine:
//! the application performs each action and reports what happened; the
//! machine decides what to do next.

use vstd::prelude::*;

use super::offer_diff;
use crate::instance::metadata::SourceType;

verus! {

/// Where an installation stands.
#[derive(Debug, Clone, Copy, PartialEq, Eq, Structural)]
pub enum DigPhase {
    /// The alias is being checked.
    CheckingAlias,
    /// Looking whether the instance exists already.
    CheckingExisting,
    /// Asking whether to overwrite the existing instance.
    AwaitingOverwrite,
    /// Removing the existing instance and its launcher.
    Clearing,
    /// Creating the instance directories.
    Creating,
    /// Fetching the installer, or copying the package.
    Fetching,
    /// Rewriting and validating the installer.
    Rewriting,
    /// Asking whether to show the rewrite diff.
    AwaitingDiff,
    /// Showing the rewrite diff.
    ShowingDiff,
    /// Running the rewritten installer.
    Installing,
    /// Detecting the program, installing the launcher, saving metadata.
    Finishing,
    /// Installed.
    Done,
    /// Stopped at the user's request.
    Aborted,
    /// Stopped on an error.
    Failed,
}

/// The state of an installation.
#[derive(Debug, Clone, Copy, PartialEq, Eq, Structural)]
pub struct DigState {
    pub phase: DigPhase,
    /// The kind of installer source.
    pub kind: SourceType,
    /// Whether prompts are skipped (`--yes`).
    pub yes: bool,
    /// Whether the configuration asks to always offer the diff.
    pub show_diff: bool,
    /// Whether the rewritten installer passed validation.
    pub validated: bool,
    /// Whether the user agreed to overwrite an existing instance.
    pub overwrite_agreed: bool,
}

/// What happened after an action.
#[derive(Debug, Clone, Copy, PartialEq, Eq, Structural)]
pub enum DigEvent {
    /// The alias was checked: valid or not.
    AliasChecked { valid: bool },
    /// The instance exists already, or not.
    Existence { exists: bool },
    /// The user answered the overwrite question.
    OverwriteAnswer { overwrite: bool },
    /// The existing instance was removed.
    Cleared,
    /// The instance directories were created.
    Created,
    /// The installer was fetched, or the package copied.
    Fetched,
    /// The local installer does not exist.
    LocalMissing,
    /// The package is not on the `PATH`.
    PackageMissing,
    /// The installer was rewritten; whether it passed validation and
    /// whether the rewrite changed anything.
    Rewritten { valid: bool, has_changes: bool },
    /// The user answered the diff question.
    DiffAnswer { show: bool },
    /// The diff was shown.
    DiffShown,
    /// The installer finished successfully.
    Installed,
    /// The launcher and metadata are in place.
    Finished,
    /// An operation failed.
    IoError,
}

/// What the application is to do next.
#[derive(Debug, Clone, Copy, PartialEq, Eq, Structural)]
pub enum DigAction {
    /// Validate the alias.
    ValidateAlias,
    /// Look whether the instance exists.
    CheckExisting,
    /// Ask whether to overwrite the existing instance.
    AskOverwrite,
    /// Remove the existing launcher and instance.
    ClearExisting,
    /// Create the instance directories.
    CreateLayout,
    /// Fetch the installer, or copy the package.
    Fetch,
    /// Remove the new instance and report the error.
    DestroyAndFail,
    /// Rewrite the installer and validate the result.
    RewriteInstaller,
    /// Ask whether to show the diff.
    AskShowDiff,
    /// Show the diff.
    ShowDiff,
    /// Run the rewritten installer.
    RunInstaller,
    /// Detect the program, install the launcher, save the metadata.
    Finish,
    /// Report that the user aborted.
    ReportAborted,
    /// Report the error.
    Fail,
    /// Nothing more to do.
    Stop,
}

/// The state at the start of installing from a source of kind `kind`.
pub open spec fn spec_initial(kind: SourceType, yes: bool, show_diff: bool) -> DigState {
    DigState {
        phase: DigPhase::CheckingAlias,
        kind,
        yes,
        show_diff,
        validated: false,
        overwrite_agreed: false,
    }
}

/// Whether a phase ends the installation.
pub open spec fn is_terminal(p: DigPhase) -> bool {
    p == DigPhase::Done || p == DigPhase::Aborted || p == DigPhase::Failed
}

/// `s` moved to phase `p`.
pub open spec fn goto(s: DigState, p: DigPhase) -> DigState {
    DigState { phase: p, ..s }
}

/// One step: the next state and action, given the state and what happened.
/// An event that does not fit the phase, or a failed operation, stops the
/// installation with an error; a finished installation stays finished.
pub open spec fn spec_step(s: DigState, e: DigEvent) -> (DigState, DigAction) {
    let fail = (goto(s, DigPhase::Failed), DigAction::Fail);
    if is_terminal(s.phase) {
        (s, DigAction::Stop)
    } else if e == DigEvent::IoError {
        fail
    } else {
        match s.phase {
            DigPhase::CheckingAlias => match e {
                DigEvent::AliasChecked { valid } => if valid {
                    (goto(s, DigPhase::CheckingExisting), DigAction::CheckExisting)
                } else {
                    fail
                },
                _ => fail,
            },
            DigPhase::CheckingExisting => match e {
                DigEvent::Existence { exists } => if !exists {
                    (goto(s, DigPhase::Creating), DigAction::CreateLayout)
                } else if s.yes {
                    (goto(s, DigPhase::Clearing), DigAction::ClearExisting)
                } else {
                    (goto(s, DigPhase::AwaitingOverwrite), DigAction::AskOverwrite)
                },
                _ => fail,
            },
            DigPhase::AwaitingOverwrite => match e {
                DigEvent::OverwriteAnswer { overwrite } => if overwrite {
                    (
                        DigState { phase: DigPhase::Clearing, overwrite_agreed: true, ..s },
                        DigAction::ClearExisting,
                    )
                } else {
                    (goto(s, DigPhase::Aborted), DigAction::ReportAborted)
                },
                _ => fail,
            },
            DigPhase::Clearing => match e {
                DigEvent::Cleared => (goto(s, DigPhase::Creating), DigAction::CreateLayout),
                _ => fail,
            },
            DigPhase::Creating => match e {
                DigEvent::Created => (goto(s, DigPhase::Fetching), DigAction::Fetch),
                _ => fail,
            },
            DigPhase::Fetching => match e {
                DigEvent::Fetched => if s.kind == SourceType::Package {
                    (goto(s, DigPhase::Finishing), DigAction::Finish)
                } else {
                    (goto(s, DigPhase::Rewriting), DigAction::RewriteInstaller)
                },
                DigEvent::LocalMissing => if s.kind == SourceType::LocalScript {
                    (goto(s, DigPhase::Failed), DigAction::DestroyAndFail)
                } else {
                    fail
                },
                DigEvent::PackageMissing => if s.kind == SourceType::Package {
                    (goto(s, DigPhase::Failed), DigAction::DestroyAndFail)
                } else {
                    fail
                },
                _ => fail,
            },
            DigPhase::Rewriting => match e {
                DigEvent::Rewritten { valid, has_changes } => if !valid {
                    fail
                } else if !s.yes && (s.show_diff || has_changes) {
                    (
                        DigState { phase: DigPhase::AwaitingDiff, validated: true, ..s },
                        DigAction::AskShowDiff,
                    )
                } else {
                    (
                        DigState { phase: DigPhase::Installing, validated: true, ..s },
                        DigAction::RunInstaller,
                    )
                },
                _ => fail,
            },
            DigPhase::AwaitingDiff => match e {
                DigEvent::DiffAnswer { show } => if show {
                    (goto(s, DigPhase::ShowingDiff), DigAction::ShowDiff)
                } else {
                    (goto(s, DigPhase::Installing), DigAction::RunInstaller)
                },
                _ => fail,
            },
            DigPhase::ShowingDiff => match e {
                DigEvent::DiffShown => (goto(s, DigPhase::Installing), DigAction::RunInstaller),
                _ => fail,
            },
            DigPhase::Installing => match e {
                DigEvent::Installed => (goto(s, DigPhase::Finishing), DigAction::Finish),
                _ => fail,
            },
            DigPhase::Finishing => match e {
                DigEvent::Finished => (goto(s, DigPhase::Done), DigAction::Stop),
                _ => fail,
            },
            _ => (s, DigAction::Stop),
        }
    }
}

impl DigState {
    /// The state at the start of installing from a source of kind `kind`,
    /// with the first action: validating the alias.
    pub fn new(kind: SourceType, yes: bool, show_diff: bool) -> (r: (DigState, DigAction))
        ensures
            r.0 == spec_initial(kind, yes, show_diff),
            r.1 == DigAction::ValidateAlias,
    {
        (
            DigState {
                phase: DigPhase::CheckingAlias,
                kind,
                yes,
                show_diff,
                validated: false,
                overwrite_agreed: false,
            },
            DigAction::ValidateAlias,
        )
    }

    /// Whether the installation is over.
    pub fn is_finished(&self) -> (b: bool)
        ensures
            b == is_terminal(self.phase),
    {
        match self.phase {
            DigPhase::Done | DigPhase::Aborted | DigPhase::Failed => true,
            _ => false,
        }
    }

    /// The next state and action after `event`.
    pub fn step(self, event: DigEvent) -> (r: (DigState, DigAction))
        ensures
            r == spec_step(self, event),
    {
        let s = self;
        let fail = (DigState { phase: DigPhase::Failed, ..s }, DigAction::Fail);
        if s.is_finished() {
            return (s, DigAction::Stop);
        }
        if let DigEvent::IoError = event {
            return fail;
        }
        match s.phase {
            DigPhase::CheckingAlias => match event {
                DigEvent::AliasChecked { valid } => if valid {
                    (DigState { phase: DigPhase::CheckingExisting, ..s }, DigAction::CheckExisting)
                } else {
                    fail
                },
                _ => fail,
            },
            DigPhase::CheckingExisting => match event {
                DigEvent::Existence { exists } => if !exists {
                    (DigState { phase: DigPhase::Creating, ..s }, DigAction::CreateLayout)
                } else if s.yes {
                    (DigState { phase: DigPhase::Clearing, ..s }, DigAction::ClearExisting)
                } else {
                    (DigState { phase: DigPhase::AwaitingOverwrite, ..s }, DigAction::AskOverwrite)
                },
                _ => fail,
            },
            DigPhase::AwaitingOverwrite => match event {
                DigEvent::OverwriteAnswer { overwrite } => if overwrite {
                    (
                        DigState { phase: DigPhase::Clearing, overwrite_agreed: true, ..s },
                        DigAction::ClearExisting,
                    )
                } else {
                    (DigState { phase: DigPhase::Aborted, ..s }, DigAction::ReportAborted)
                },
                _ => fail,
            },
            DigPhase::Clearing => match event {
                DigEvent::Cleared => (DigState { phase: DigPhase::Creating, ..s }, DigAction::CreateLayout),
                _ => fail,
            },
            DigPhase::Creating => match event {
                DigEvent::Created => (DigState { phase: DigPhase::Fetching, ..s }, DigAction::Fetch),
                _ => fail,
            },
            DigPhase::Fetching => match event {
                DigEvent::Fetched => if s.kind == SourceType::Package {
                    (DigState { phase: DigPhase::Finishing, ..s }, DigAction::Finish)
                } else {
                    (DigState { phase: DigPhase::Rewriting, ..s }, DigAction::RewriteInstaller)
                },
                DigEvent::LocalMissing => if s.kind == SourceType::LocalScript {
                    (DigState { phase: DigPhase::Failed, ..s }, DigAction::DestroyAndFail)
                } else {
                    fail
                },
                DigEvent::PackageMissing => if s.kind == SourceType::Package {
                    (DigState { phase: DigPhase::Failed, ..s }, DigAction::DestroyAndFail)
                } else {
                    fail
                },
                _ => fail,
            },
            DigPhase::Rewriting => match event {
                DigEvent::Rewritten { valid, has_changes } => if !valid {
                    fail
                } else if offer_diff(s.yes, s.show_diff, has_changes) {
                    (
                        DigState { phase: DigPhase::AwaitingDiff, validated: true, ..s },
                        DigAction::AskShowDiff,
                    )
                } else {
                    (
                        DigState { phase: DigPhase::Installing, validated: true, ..s },
                        DigAction::RunInstaller,
                    )
                },
                _ => fail,
            },
            DigPhase::AwaitingDiff => match event {
                DigEvent::DiffAnswer { show } => if show {
                    (DigState { phase: DigPhase::ShowingDiff, ..s }, DigAction::ShowDiff)
                } else {
                    (DigState { phase: DigPhase::Installing, ..s }, DigAction::RunInstaller)
                },
                _ => fail,
            },
            DigPhase::ShowingDiff => match event {
                DigEvent::DiffShown => (DigState { phase: DigPhase::Installing, ..s }, DigAction::RunInstaller),
                _ => fail,
            },
            DigPhase::Installing => match event {
                DigEvent::Installed => (DigState { phase: DigPhase::Finishing, ..s }, DigAction::Finish),
                _ => fail,
            },
            DigPhase::Finishing => match event {
                DigEvent::Finished => (DigState { phase: DigPhase::Done, ..s }, DigAction::Stop),
                _ => fail,
            },
            _ => (s, DigAction::Stop),
        }
    }
}


/// The state after the events `events`, one after another, from `s`.
pub open spec fn run(s: DigState, events: Seq<DigEvent>) -> DigState
    decreases events.len(),
{
    if events.len() == 0 {
        s
    } else {
        spec_step(run(s, events.drop_last()), events.last()).0
    }
}

/// The action that the last of `events` leads to, from `s`.
pub open spec fn last_action(s: DigState, events: Seq<DigEvent>) -> DigAction
    recommends
        events.len() > 0,
{
    spec_step(run(s, events.drop_last()), events.last()).1
}

/// Whether an event reports a rewritten installer that passed validation.
pub open spec fn is_valid_rewrite(e: DigEvent) -> bool {
    e matches DigEvent::Rewritten { valid, .. } && valid
}

/// The phases after the instance directories were created.
pub open spec fn after_create(p: DigPhase) -> bool {
    p == DigPhase::Fetching || p == DigPhase::Rewriting || p == DigPhase::AwaitingDiff
        || p == DigPhase::ShowingDiff || p == DigPhase::Installing || p == DigPhase::Finishing
        || p == DigPhase::Done
}

/// The phases in which a script installer is being handled.
pub open spec fn script_phase(p: DigPhase) -> bool {
    p == DigPhase::Rewriting || p == DigPhase::AwaitingDiff || p == DigPhase::ShowingDiff
        || p == DigPhase::Installing
}

/// The phases that come after a successful validation.
pub open spec fn validated_phase(p: DigPhase) -> bool {
    p == DigPhase::AwaitingDiff || p == DigPhase::ShowingDiff || p == DigPhase::Installing
}

/// What holds of every state reached from the start.
pub proof fn lemma_run_facts(kind: SourceType, yes: bool, show_diff: bool, events: Seq<DigEvent>)
    ensures
        run(spec_initial(kind, yes, show_diff), events).kind == kind,
        run(spec_initial(kind, yes, show_diff), events).yes == yes,
        run(spec_initial(kind, yes, show_diff), events).show_diff == show_diff,
        script_phase(run(spec_initial(kind, yes, show_diff), events).phase) ==> kind
            != SourceType::Package,
        validated_phase(run(spec_initial(kind, yes, show_diff), events).phase) ==> run(
            spec_initial(kind, yes, show_diff),
            events,
        ).validated,
        run(spec_initial(kind, yes, show_diff), events).validated ==> exists|j: int|
            0 <= j < events.len() && is_valid_rewrite(#[trigger] events[j]),
        after_create(run(spec_initial(kind, yes, show_diff), events).phase) ==> exists|j: int|
            0 <= j < events.len() && #[trigger] events[j] == DigEvent::Created,
    decreases events.len(),
{
    let s0 = spec_initial(kind, yes, show_diff);
    if events.len() > 0 {
        let init = events.drop_last();
        lemma_run_facts(kind, yes, show_diff, init);
        let prev = run(s0, init);
        let e = events.last();
        let next = spec_step(prev, e).0;
        assert(run(s0, events) == next);
        if prev.validated {
            let j = choose|j: int| 0 <= j < init.len() && is_valid_rewrite(#[trigger] init[j]);
            assert(events[j] == init[j]);
        }
        if after_create(prev.phase) {
            let j = choose|j: int| 0 <= j < init.len() && #[trigger] init[j] == DigEvent::Created;
            assert(events[j] == init[j]);
        }
        if next.validated && !prev.validated {
            assert(is_valid_rewrite(events[events.len() - 1]));
        }
        if after_create(next.phase) && !after_create(prev.phase) {
            assert(events[events.len() - 1] == DigEvent::Created);
        }
    }
}

/// Law: the installer is run only for script sources, and only after the
/// rewritten installer passed validation.
pub proof fn lemma_installer_runs_only_validated(
    kind: SourceType,
    yes: bool,
    show_diff: bool,
    events: Seq<DigEvent>,
)
    requires
        events.len() > 0,
        last_action(spec_initial(kind, yes, show_diff), events) == DigAction::RunInstaller,
    ensures
        kind != SourceType::Package,
        exists|j: int| 0 <= j < events.len() && is_valid_rewrite(#[trigger] events[j]),
{
    let init = events.drop_last();
    lemma_run_facts(kind, yes, show_diff, init);
    let prev = run(spec_initial(kind, yes, show_diff), init);
    if prev.validated {
        let j = choose|j: int| 0 <= j < init.len() && is_valid_rewrite(#[trigger] init[j]);
        assert(events[j] == init[j]);
    } else {
        assert(is_valid_rewrite(events[events.len() - 1]));
    }
}

/// Law: an existing instance is removed only with `--yes` or after the user
/// agreed to overwrite it.
pub proof fn lemma_clear_needs_consent(
    kind: SourceType,
    yes: bool,
    show_diff: bool,
    events: Seq<DigEvent>,
)
    requires
        events.len() > 0,
        last_action(spec_initial(kind, yes, show_diff), events) == DigAction::ClearExisting,
    ensures
        yes || events.last() == (DigEvent::OverwriteAnswer { overwrite: true }),
{
    lemma_run_facts(kind, yes, show_diff, events.drop_last());
}

/// Law: a failed installation removes only an instance it created itself:
/// the new instance is destroyed only after its directories were created.
pub proof fn lemma_destroy_only_after_create(
    kind: SourceType,
    yes: bool,
    show_diff: bool,
    events: Seq<DigEvent>,
)
    requires
        events.len() > 0,
        last_action(spec_initial(kind, yes, show_diff), events) == DigAction::DestroyAndFail,
    ensures
        exists|j: int| 0 <= j < events.len() - 1 && #[trigger] events[j] == DigEvent::Created,
{
    let init = events.drop_last();
    lemma_run_facts(kind, yes, show_diff, init);
    let j = choose|j: int| 0 <= j < init.len() && #[trigger] init[j] == DigEvent::Created;
    assert(events[j] == init[j]);
}

/// Law: a rewritten installer that passed validation is always run. When
/// the diff is offered, answering "no" goes straight to running the
/// installer, and answering "yes" shows the diff and then runs it; the diff
/// is offered exactly when prompts are not skipped and either the
/// configuration asks for it or the rewrite changed something.
pub proof fn lemma_validated_installer_runs(s: DigState, has_changes: bool)
    requires
        s.phase == DigPhase::Rewriting,
    ensures
        ({
            let (s1, a1) = spec_step(s, DigEvent::Rewritten { valid: true, has_changes });
            &&& s1.validated
            &&& (a1 == DigAction::AskShowDiff <==> !s.yes && (s.show_diff || has_changes))
            &&& (a1 != DigAction::AskShowDiff ==> a1 == DigAction::RunInstaller && s1.phase
                == DigPhase::Installing)
            &&& (a1 == DigAction::AskShowDiff ==> {
                let (s2, a2) = spec_step(s1, DigEvent::DiffAnswer { show: false });
                let (s3, a3) = spec_step(s1, DigEvent::DiffAnswer { show: true });
                let (s4, a4) = spec_step(s3, DigEvent::DiffShown);
                &&& s2.phase == DigPhase::Installing && a2 == DigAction::RunInstaller
                &&& a3 == DigAction::ShowDiff
                &&& s4.phase == DigPhase::Installing && a4 == DigAction::RunInstaller
            })
        }),
{
}

/// Law: declining to see the diff never ends the installation: from the
/// diff question, the answer "no" leads to running the installer, keeping
/// everything else about the installation.
pub proof fn lemma_declining_diff_installs(s: DigState)
    requires
        s.phase == DigPhase::AwaitingDiff,
    ensures
        spec_step(s, DigEvent::DiffAnswer { show: false }) == (
            DigState { phase: DigPhase::Installing, ..s },
            DigAction::RunInstaller,
        ),
{
}

} // verus!
