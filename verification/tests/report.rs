use reposync::git::RemoteRepo;
use reposync::outcome::{OperationOutcome, OutcomeKind};
use reposync::report::aggregate;

fn outcome(name: &str, kind: OutcomeKind, detail: &str) -> OperationOutcome {
    OperationOutcome { repo_name: name.to_string(), kind, detail: detail.to_string() }
}

#[test]
fn outcomes_are_grouped_by_kind_in_arrival_order() {
    let outcomes = vec![
        outcome("a", OutcomeKind::PullNoOp, ""),
        outcome("b", OutcomeKind::Updated, "Fast-forward"),
        outcome("c", OutcomeKind::PullError, "fatal: conflict"),
        outcome("d", OutcomeKind::PullNoOp, ""),
        outcome("e", OutcomeKind::Cloned, ""),
        outcome("f", OutcomeKind::CloneError, "fatal: repository not found"),
        outcome("g", OutcomeKind::Updated, "Fast-forward"),
    ];
    let archived = vec![RemoteRepo {
        name: "team_old".to_string(),
        archived: true,
        ssh_url: "git@example.com:acme/team_old.git".to_string(),
    }];

    let report = aggregate(outcomes, archived);

    assert_eq!(report.pull_noop.len(), 2);
    assert_eq!(report.pull_noop[0].repo_name, "a");
    assert_eq!(report.pull_noop[1].repo_name, "d");

    assert_eq!(report.updated.len(), 2);
    assert_eq!(report.updated[0].repo_name, "b");
    assert_eq!(report.updated[1].repo_name, "g");

    assert_eq!(report.cloned.len(), 1);
    assert_eq!(report.cloned[0].repo_name, "e");

    assert_eq!(report.clone_errors.len(), 1);
    assert_eq!(report.clone_errors[0].repo_name, "f");
    assert_eq!(report.clone_errors[0].detail, "fatal: repository not found");

    assert_eq!(report.pull_errors.len(), 1);
    assert_eq!(report.pull_errors[0].repo_name, "c");

    assert_eq!(report.archived.len(), 1);
    assert_eq!(report.archived[0].name, "team_old");
}

#[test]
fn no_bucket_is_dropped_and_every_outcome_is_counted_once() {
    let outcomes = vec![
        outcome("a", OutcomeKind::Updated, ""),
        outcome("b", OutcomeKind::Updated, ""),
        outcome("c", OutcomeKind::PullError, "boom"),
    ];
    let report = aggregate(outcomes, Vec::new());
    let total = report.pull_noop.len() + report.updated.len() + report.cloned.len()
        + report.clone_errors.len() + report.pull_errors.len();
    assert_eq!(total, 3);
    assert!(report.pull_noop.is_empty());
    assert!(report.cloned.is_empty());
    assert!(report.clone_errors.is_empty());
    assert!(report.archived.is_empty());
}

#[test]
fn empty_run_yields_an_empty_report() {
    let report = aggregate(Vec::new(), Vec::new());
    assert!(report.pull_noop.is_empty());
    assert!(report.updated.is_empty());
    assert!(report.cloned.is_empty());
    assert!(report.clone_errors.is_empty());
    assert!(report.pull_errors.is_empty());
    assert!(report.archived.is_empty());
}
