//! Keeps a local directory of git working copies in step with the set of
//! repositories owned by a remote team.
//!
//! The verified core computes the three-way diff between the remote and the
//! local repository sets (`git`), classifies the human-oriented text that git
//! subprocesses emit into a small set of outcome kinds (`outcome`), and folds
//! the classified outcomes into a stable report (`report`). Network calls,
//! filesystem scans and subprocess invocations are left to the surrounding
//! program, which hands the core plain values and takes plain values back.

pub mod git;
pub mod outcome;
pub mod report;
pub mod text;
