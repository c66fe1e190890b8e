//! The few calls into git2 that starting work on a ticket needs.
use vstd::prelude::*;

verus! {

#[verifier::external_type_specification]
#[verifier::external_body]
pub struct ExRepository(git2::Repository);

#[verifier::external_type_specification]
#[verifier::external_body]
pub struct ExOid(git2::Oid);

#[verifier::external_type_specification]
#[verifier::external_body]
pub struct ExCommit<'repo>(git2::Commit<'repo>);

/// Relies on git2's `Repository::find_branch` with `BranchType::Local`:
/// `Ok` when a local branch of that name exists.
#[verifier::external_body]
pub(crate) fn find_local_branch(repo: &git2::Repository, name: &str) -> Result<(), git2::Error> {
    repo.find_branch(name, git2::BranchType::Local).map(|_| ())
}

/// Relies on git2's `Repository::refname_to_id`: the object a reference
/// points to.
#[verifier::external_body]
pub(crate) fn refname_to_id(repo: &git2::Repository, refname: &str) -> Result<
    git2::Oid,
    git2::Error,
> {
    repo.refname_to_id(refname)
}

/// Relies on git2's `Repository::find_commit`: the commit of that id.
#[verifier::external_body]
pub(crate) fn find_commit<'r>(repo: &'r git2::Repository, oid: git2::Oid) -> Result<
    git2::Commit<'r>,
    git2::Error,
> {
    repo.find_commit(oid)
}

/// Relies on git2's `Repository::branch`: creates a local branch at a commit.
#[verifier::external_body]
pub(crate) fn create_branch(
    repo: &git2::Repository,
    name: &str,
    target: &git2::Commit,
    force: bool,
) -> Result<(), git2::Error> {
    repo.branch(name, target, force).map(|_| ())
}

/// Relies on git2's `Repository::set_head`: points `HEAD` at a reference.
#[verifier::external_body]
pub(crate) fn set_head(repo: &git2::Repository, refname: &str) -> Result<(), git2::Error> {
    repo.set_head(refname)
}

} // verus!
