//! The outcome classifier: maps the raw stdout/stderr text of a finished git
//! invocation, together with a possible exec-level failure (the subprocess
//! could not be started at all), to one of five outcome kinds. git emits no
//! structured "nothing changed" signal, so the classifier matches the exact
//! sentinel phrases git prints; text it does not recognise is taken
//! conservatively as a change rather than silently dropped.

use vstd::prelude::*;
use crate::text::{contains_pattern, str_contains, str_eq, trim_ascii_blank, trim_spec};

verus! {

/// The five classified results of a clone or pull invocation.
#[derive(Clone, Copy, PartialEq, Eq, Structural)]
pub enum OutcomeKind {
    Cloned,
    Updated,
    PullNoOp,
    CloneError,
    PullError,
}

/// One repository operation's classified result.
pub struct OperationOutcome {
    pub repo_name: String,
    pub kind: OutcomeKind,
    pub detail: String,
}

impl Clone for OperationOutcome {
    fn clone(&self) -> (r: Self)
        ensures
            r == *self,
    {
        OperationOutcome {
            repo_name: self.repo_name.clone(),
            kind: self.kind,
            detail: self.detail.clone(),
        }
    }
}

/// stderr text that does not mark a failed pull: nothing at all, or the
/// notice of a successfully completed rebase.
pub open spec fn benign_stderr(err: Seq<char>) -> bool {
    err.len() == 0 || contains_pattern(
        err,
        "Successfully rebased and updated refs/heads/main."@,
    )
}

/// stdout text that marks a failed pull regardless of exit code: autostash
/// conflicts, unmerged files, or a missing repository.
pub open spec fn stdout_reports_error(out: Seq<char>) -> bool {
    ||| contains_pattern(out, "Applying autostash resulted in conflicts."@)
    ||| contains_pattern(out, "Pulling is not possible because you have unmerged files."@)
    ||| contains_pattern(out, " Repository not found."@)
}

/// stdout text that marks a pull that changed nothing: the up-to-date
/// sentinel, any "is up to date" variant, or output of only new tags.
pub open spec fn stdout_up_to_date(out: Seq<char>) -> bool {
    ||| out == "Already up to date."@
    ||| contains_pattern(out, "is up to date"@)
    ||| contains_pattern(out, "[new tag]"@)
}

/// The pull classification over trimmed stdout and stderr, first match wins:
/// an exec-level failure, then error text, then the up-to-date sentinels, and
/// anything else counts as an update.
pub open spec fn classify_pull_spec(out: Seq<char>, err: Seq<char>, exec_err: bool) -> OutcomeKind {
    if exec_err {
        OutcomeKind::PullError
    } else if !benign_stderr(err) || stdout_reports_error(out) {
        OutcomeKind::PullError
    } else if !stdout_up_to_date(out) {
        OutcomeKind::Updated
    } else {
        OutcomeKind::PullNoOp
    }
}

/// The detail text kept beside a pull's kind when the subprocess ran:
/// stderr for an error, stdout for an update, nothing for a no-op.
pub open spec fn pull_detail_spec(out: Seq<char>, err: Seq<char>) -> Seq<char> {
    match classify_pull_spec(out, err, false) {
        OutcomeKind::PullError => err,
        OutcomeKind::Updated => out,
        _ => Seq::empty(),
    }
}

/// The clone classification: a clone succeeded exactly when the subprocess
/// could be started and exited with status zero.
pub open spec fn classify_clone_spec(exit_ok: bool, exec_err: bool) -> OutcomeKind {
    if exec_err || !exit_ok {
        OutcomeKind::CloneError
    } else {
        OutcomeKind::Cloned
    }
}

/// Classifies one finished pull from its raw captured text.
pub fn classify_pull(stdout: &str, stderr: &str, has_exec_error: bool) -> (k: OutcomeKind)
    ensures
        k == classify_pull_spec(trim_spec(stdout@), trim_spec(stderr@), has_exec_error),
{
    if has_exec_error {
        return OutcomeKind::PullError;
    }
    let out = trim_ascii_blank(stdout);
    let err = trim_ascii_blank(stderr);
    let stderr_is_error = !err.is_empty() && !str_contains(
        err,
        "Successfully rebased and updated refs/heads/main.",
    );
    let stdout_is_error = str_contains(out, "Applying autostash resulted in conflicts.")
        || str_contains(out, "Pulling is not possible because you have unmerged files.")
        || str_contains(out, " Repository not found.");
    if stderr_is_error || stdout_is_error {
        return OutcomeKind::PullError;
    }
    if !str_eq(out, "Already up to date.") && !str_contains(out, "is up to date")
        && !str_contains(out, "[new tag]") {
        return OutcomeKind::Updated;
    }
    OutcomeKind::PullNoOp
}

/// Classifies one finished clone from its exit status.
pub fn classify_clone(exit_ok: bool, has_exec_error: bool) -> (k: OutcomeKind)
    ensures
        k == classify_clone_spec(exit_ok, has_exec_error),
{
    if has_exec_error || !exit_ok {
        OutcomeKind::CloneError
    } else {
        OutcomeKind::Cloned
    }
}

/// The classified outcome of one pull task. `exec_error` carries the message
/// of an OS-level failure to start the subprocess, and wins over any captured
/// text; otherwise stderr is kept for an error and stdout for an update.
pub fn pull_outcome(
    repo_name: String,
    stdout: &str,
    stderr: &str,
    exec_error: Option<String>,
) -> (o: OperationOutcome)
    ensures
        o.repo_name == repo_name,
        o.kind == classify_pull_spec(trim_spec(stdout@), trim_spec(stderr@), exec_error is Some),
        exec_error matches Some(m) ==> o.detail == m,
        exec_error is None ==> o.detail@ == pull_detail_spec(trim_spec(stdout@), trim_spec(stderr@)),
{
    match exec_error {
        Some(message) => OperationOutcome {
            repo_name,
            kind: OutcomeKind::PullError,
            detail: message,
        },
        None => {
            let kind = classify_pull(stdout, stderr, false);
            let detail = match kind {
                OutcomeKind::PullError => trim_ascii_blank(stderr).to_owned(),
                OutcomeKind::Updated => trim_ascii_blank(stdout).to_owned(),
                _ => String::new(),
            };
            OperationOutcome { repo_name, kind, detail }
        },
    }
}

/// The classified outcome of one clone task. `exec_error` wins over the exit
/// status; a failed clone keeps the captured stderr as its detail.
pub fn clone_outcome(
    repo_name: String,
    exit_ok: bool,
    stderr: &str,
    exec_error: Option<String>,
) -> (o: OperationOutcome)
    ensures
        o.repo_name == repo_name,
        o.kind == classify_clone_spec(exit_ok, exec_error is Some),
        exec_error matches Some(m) ==> o.detail == m,
        exec_error is None && !exit_ok ==> o.detail@ == trim_spec(stderr@),
        exec_error is None && exit_ok ==> o.detail@ == Seq::<char>::empty(),
{
    match exec_error {
        Some(message) => OperationOutcome {
            repo_name,
            kind: OutcomeKind::CloneError,
            detail: message,
        },
        None => {
            if exit_ok {
                OperationOutcome { repo_name, kind: OutcomeKind::Cloned, detail: String::new() }
            } else {
                OperationOutcome {
                    repo_name,
                    kind: OutcomeKind::CloneError,
                    detail: trim_ascii_blank(stderr).to_owned(),
                }
            }
        },
    }
}

/// Classification of a pull is deterministic and total: it is a function of
/// the (stdout, stderr, exec-error) triple alone, and every triple yields
/// exactly one of the three pull outcome kinds, an exec-level failure always
/// a pull error.
pub proof fn lemma_classify_pull_total(out: Seq<char>, err: Seq<char>, exec_err: bool)
    ensures
        classify_pull_spec(out, err, exec_err) is PullError || classify_pull_spec(
            out,
            err,
            exec_err,
        ) is Updated || classify_pull_spec(out, err, exec_err) is PullNoOp,
        exec_err ==> classify_pull_spec(out, err, exec_err) is PullError,
{
}

/// Classification of a clone is deterministic and total: every combination of
/// exit status and exec-error yields exactly one of the two clone kinds.
pub proof fn lemma_classify_clone_total(exit_ok: bool, exec_err: bool)
    ensures
        classify_clone_spec(exit_ok, exec_err) is Cloned || classify_clone_spec(
            exit_ok,
            exec_err,
        ) is CloneError,
        classify_clone_spec(exit_ok, exec_err) is Cloned <==> !exec_err && exit_ok,
{
}

/// A pull whose subprocess ran, printed an up-to-date sentinel and no error
/// text, and kept stderr benign is classified as a no-op. With the remote and
/// local sets unchanged after a successful run, every repository's second
/// pull prints such text, so a second run reports a no-op for each.
pub proof fn lemma_up_to_date_pull_is_noop(out: Seq<char>, err: Seq<char>)
    requires
        stdout_up_to_date(out),
        !stdout_reports_error(out),
        benign_stderr(err),
    ensures
        classify_pull_spec(out, err, false) is PullNoOp,
{
}

} // verus!
