use warren::commands::dig::{DigAction, DigEvent, DigPhase, DigState};
use warren::instance::metadata::SourceType;

fn drive(kind: SourceType, yes: bool, show_diff: bool, events: &[DigEvent]) -> (DigState, Vec<DigAction>) {
    let (mut s, a) = DigState::new(kind, yes, show_diff);
    let mut actions = vec![a];
    for e in events {
        let (n, a) = s.step(*e);
        s = n;
        actions.push(a);
    }
    (s, actions)
}

#[test]
fn remote_script_happy_path() {
    let (s, actions) = drive(
        SourceType::RemoteScript,
        false,
        false,
        &[
            DigEvent::AliasChecked { valid: true },
            DigEvent::Existence { exists: false },
            DigEvent::Created,
            DigEvent::Fetched,
            DigEvent::Rewritten { valid: true, has_changes: false },
            DigEvent::Installed,
            DigEvent::Finished,
        ],
    );
    assert_eq!(
        actions,
        vec![
            DigAction::ValidateAlias,
            DigAction::CheckExisting,
            DigAction::CreateLayout,
            DigAction::Fetch,
            DigAction::RewriteInstaller,
            DigAction::RunInstaller,
            DigAction::Finish,
            DigAction::Stop,
        ]
    );
    assert_eq!(s.phase, DigPhase::Done);
    assert!(s.validated);
    assert!(s.is_finished());
}

#[test]
fn diff_is_offered_when_something_changed() {
    let (_, actions) = drive(
        SourceType::LocalScript,
        false,
        false,
        &[
            DigEvent::AliasChecked { valid: true },
            DigEvent::Existence { exists: false },
            DigEvent::Created,
            DigEvent::Fetched,
            DigEvent::Rewritten { valid: true, has_changes: true },
            DigEvent::DiffAnswer { show: true },
            DigEvent::DiffShown,
        ],
    );
    assert_eq!(&actions[5..], &[DigAction::AskShowDiff, DigAction::ShowDiff, DigAction::RunInstaller]);
    let (_, quiet) = drive(
        SourceType::LocalScript,
        true,
        true,
        &[
            DigEvent::AliasChecked { valid: true },
            DigEvent::Existence { exists: false },
            DigEvent::Created,
            DigEvent::Fetched,
            DigEvent::Rewritten { valid: true, has_changes: true },
        ],
    );
    assert_eq!(quiet[5], DigAction::RunInstaller);
}

#[test]
fn packages_skip_the_installer() {
    let (_, actions) = drive(
        SourceType::Package,
        true,
        false,
        &[DigEvent::AliasChecked { valid: true }, DigEvent::Existence { exists: false }, DigEvent::Created, DigEvent::Fetched],
    );
    assert_eq!(actions[4], DigAction::Finish);
    let (s, missing) = drive(
        SourceType::Package,
        true,
        false,
        &[DigEvent::AliasChecked { valid: true }, DigEvent::Existence { exists: false }, DigEvent::Created, DigEvent::PackageMissing],
    );
    assert_eq!(missing[4], DigAction::DestroyAndFail);
    assert_eq!(s.phase, DigPhase::Failed);
}

#[test]
fn missing_local_installer_destroys_the_new_instance() {
    let (_, actions) = drive(
        SourceType::LocalScript,
        true,
        false,
        &[DigEvent::AliasChecked { valid: true }, DigEvent::Existence { exists: false }, DigEvent::Created, DigEvent::LocalMissing],
    );
    assert_eq!(actions[4], DigAction::DestroyAndFail);
}

#[test]
fn invalid_installer_is_never_run() {
    let (s, actions) = drive(
        SourceType::RemoteScript,
        true,
        false,
        &[
            DigEvent::AliasChecked { valid: true },
            DigEvent::Existence { exists: false },
            DigEvent::Created,
            DigEvent::Fetched,
            DigEvent::Rewritten { valid: false, has_changes: true },
            DigEvent::Installed,
        ],
    );
    assert_eq!(actions[5], DigAction::Fail);
    assert_eq!(actions[6], DigAction::Stop);
    assert!(!actions.contains(&DigAction::RunInstaller));
    assert_eq!(s.phase, DigPhase::Failed);
}

#[test]
fn existing_instance_needs_consent() {
    let (s, actions) = drive(
        SourceType::RemoteScript,
        false,
        false,
        &[DigEvent::AliasChecked { valid: true }, DigEvent::Existence { exists: true }, DigEvent::OverwriteAnswer { overwrite: false }],
    );
    assert_eq!(actions[2], DigAction::AskOverwrite);
    assert_eq!(actions[3], DigAction::ReportAborted);
    assert_eq!(s.phase, DigPhase::Aborted);
    let (s, actions) = drive(
        SourceType::RemoteScript,
        false,
        false,
        &[
            DigEvent::AliasChecked { valid: true },
            DigEvent::Existence { exists: true },
            DigEvent::OverwriteAnswer { overwrite: true },
            DigEvent::Cleared,
        ],
    );
    assert_eq!(actions[3], DigAction::ClearExisting);
    assert_eq!(actions[4], DigAction::CreateLayout);
    assert!(s.overwrite_agreed);
    let (_, forced) = drive(
        SourceType::RemoteScript,
        true,
        false,
        &[DigEvent::AliasChecked { valid: true }, DigEvent::Existence { exists: true }],
    );
    assert_eq!(forced[2], DigAction::ClearExisting);
}

#[test]
fn errors_and_bad_aliases_stop() {
    let (s, actions) = drive(SourceType::Package, true, false, &[DigEvent::AliasChecked { valid: false }]);
    assert_eq!(actions[1], DigAction::Fail);
    assert_eq!(s.phase, DigPhase::Failed);
    let (_, actions) = drive(
        SourceType::Package,
        true,
        false,
        &[DigEvent::AliasChecked { valid: true }, DigEvent::IoError],
    );
    assert_eq!(actions[2], DigAction::Fail);
    let (_, actions) = drive(SourceType::Package, true, false, &[DigEvent::Created]);
    assert_eq!(actions[1], DigAction::Fail);
}
