//! Trusted boundary to the git2 crate. Each function here wraps exactly one
//! call into git2; nothing about the repository on disk can be promised, so
//! the callers treat every answer as one possible outcome and route it into
//! the verified decision logic of `status`.

use vstd::prelude::*;

verus! {

#[verifier::external_type_specification]
#[verifier::external_body]
pub struct ExRepository(git2::Repository);

#[verifier::external_type_specification]
#[verifier::external_body]
pub struct ExReference<'repo>(git2::Reference<'repo>);

#[verifier::external_type_specification]
#[verifier::external_body]
pub struct ExBranch<'repo>(git2::Branch<'repo>);

#[verifier::external_type_specification]
#[verifier::external_body]
pub struct ExOid(git2::Oid);

#[verifier::external_type_specification]
#[verifier::external_body]
pub struct ExGitError(git2::Error);

/// Relies on git2's Repository::open: opens the repository rooted at `path`,
/// erring where the path is no valid repository.
#[verifier::external_body]
pub(crate) fn open_repository(path: &str) -> Result<git2::Repository, git2::Error> {
    git2::Repository::open(path)
}

/// Relies on git2's Repository::head: resolves the current reference, erring
/// where it is unborn or missing.
#[verifier::external_body]
pub(crate) fn repository_head<'repo>(repo: &'repo git2::Repository) -> Result<
    git2::Reference<'repo>,
    git2::Error,
> {
    repo.head()
}

/// Relies on git2's Reference::is_branch: whether the reference is a local
/// branch rather than a detached checkout.
#[verifier::external_body]
pub(crate) fn reference_is_branch(reference: &git2::Reference<'_>) -> bool {
    reference.is_branch()
}

/// Relies on git2's Reference::shorthand: the human-readable name of the
/// reference, erring where the name is not valid text.
#[verifier::external_body]
pub(crate) fn reference_shorthand(reference: &git2::Reference<'_>) -> Result<
    String,
    git2::Error,
> {
    reference.shorthand().map(|name| name.to_owned())
}

/// Relies on git2's Repository::find_branch: resolves a name to a local
/// branch of the repository.
#[verifier::external_body]
pub(crate) fn find_local_branch<'repo>(repo: &'repo git2::Repository, name: &str) -> Result<
    git2::Branch<'repo>,
    git2::Error,
> {
    repo.find_branch(name, git2::BranchType::Local)
}

/// Relies on git2's Branch::upstream: the remote tracking branch configured
/// for a local branch, erring where none is configured.
#[verifier::external_body]
pub(crate) fn branch_upstream<'repo>(branch: &git2::Branch<'repo>) -> Result<
    git2::Branch<'repo>,
    git2::Error,
> {
    branch.upstream()
}

/// Relies on git2's Branch::get: the reference underlying a branch.
#[verifier::external_body]
pub(crate) fn branch_reference<'a, 'repo>(branch: &'a git2::Branch<'repo>) -> &'a git2::Reference<
    'repo,
> {
    branch.get()
}

/// Relies on git2's Reference::target: the commit identifier a direct
/// reference points at, or none for a symbolic reference.
#[verifier::external_body]
pub(crate) fn reference_target(reference: &git2::Reference<'_>) -> Option<git2::Oid> {
    reference.target()
}

/// Relies on git2's Oid::as_bytes: the raw bytes of a commit identifier.
#[verifier::external_body]
pub(crate) fn oid_bytes(oid: &git2::Oid) -> Vec<u8> {
    oid.as_bytes().to_vec()
}

/// Relies on git2's Repository::graph_ahead_behind: the counts of commits
/// reachable only from `local` and only from `upstream`, in that order.
#[verifier::external_body]
pub(crate) fn graph_ahead_behind(
    repo: &git2::Repository,
    local: &git2::Oid,
    upstream: &git2::Oid,
) -> Result<(usize, usize), git2::Error> {
    repo.graph_ahead_behind(*local, *upstream)
}

} // verus!
