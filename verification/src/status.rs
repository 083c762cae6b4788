//! The status classifier: given what one inspection of a repository's
//! references revealed, decide whether the repository is clean, has unpushed
//! commits, or has no resolvable current reference.
//!
//! The decision is split in two verified steps. `decide_from_refs` covers
//! everything that follows from the reference state alone; where the two
//! commit identifiers differ it asks for the commit graph to be consulted,
//! and `status_for_counts` then decides from the divergence counts.

use vstd::prelude::*;

use crate::git;

verus! {

/// The status of one repository, derived from its reference state at the
/// instant of inspection. Exactly one is produced per successful
/// classification.
#[derive(Debug, PartialEq, Eq, Structural, Clone, Copy)]
pub enum RepoStatus {
    /// The current branch needs no publishing action: it is in sync with its
    /// upstream, only behind it, or the checkout is detached.
    Clean,
    /// The current branch has commits absent from its upstream, or no
    /// upstream is configured at all.
    HasUnpushed,
    /// The repository has no resolvable current reference, as in a freshly
    /// initialized repository with zero commits.
    MissingHead,
}

/// Why one repository could not be classified. A failure is scoped to that
/// repository alone; it is distinct from the three normal statuses.
#[derive(Debug, PartialEq, Eq, Structural, Clone, Copy)]
pub enum ClassificationError {
    /// The path could not be opened as a repository.
    OpenFailed,
    /// The current reference is a branch but its name was unavailable.
    BranchNameUnavailable,
    /// The branch name did not resolve to a local branch.
    BranchLookupFailed,
    /// The local branch points at no commit.
    LocalTargetUnavailable,
    /// The upstream reference points at no commit.
    UpstreamTargetUnavailable,
    /// The divergence counts between the two commits could not be computed.
    DivergenceUnavailable,
}

/// What one inspection of a repository's references revealed, up to the point
/// where the commit graph would have to be consulted. Each variant is an exit
/// of the inspection; `Targets` means every reference resolved and the two
/// commit identifiers are in hand.
#[derive(Debug, PartialEq, Eq)]
pub enum RefObservation {
    /// The path did not open as a repository.
    OpenFailed,
    /// The current reference did not resolve (unborn or missing).
    HeadUnresolved,
    /// The current reference is not a named branch.
    Detached,
    /// The name of the current branch was unavailable.
    NameMissing,
    /// The branch name did not resolve to a local branch.
    BranchMissing,
    /// The branch has no upstream configured.
    NoUpstream,
    /// The local branch points at no commit.
    LocalTargetMissing,
    /// The upstream reference points at no commit.
    UpstreamTargetMissing,
    /// Both commit identifiers resolved, as raw identifier bytes.
    Targets { local: Vec<u8>, upstream: Vec<u8> },
}

/// What follows from the reference state alone.
#[derive(Debug, PartialEq, Eq)]
pub enum RefDecision {
    /// The classification is settled without consulting the commit graph.
    Settled(Result<RepoStatus, ClassificationError>),
    /// The identifiers differ: the divergence counts must decide.
    CompareHistories,
}

/// The decision tree over the reference state: open failure is fatal for the
/// repository, an unresolved current reference is `MissingHead`, a detached
/// checkout is `Clean`, a missing upstream is conservatively `HasUnpushed`,
/// equal commit identifiers are `Clean`, and differing identifiers defer to
/// the commit graph.
pub open spec fn ref_decision_spec(obs: RefObservation) -> RefDecision {
    match obs {
        RefObservation::OpenFailed => RefDecision::Settled(
            Err(ClassificationError::OpenFailed),
        ),
        RefObservation::HeadUnresolved => RefDecision::Settled(Ok(RepoStatus::MissingHead)),
        RefObservation::Detached => RefDecision::Settled(Ok(RepoStatus::Clean)),
        RefObservation::NameMissing => RefDecision::Settled(
            Err(ClassificationError::BranchNameUnavailable),
        ),
        RefObservation::BranchMissing => RefDecision::Settled(
            Err(ClassificationError::BranchLookupFailed),
        ),
        RefObservation::NoUpstream => RefDecision::Settled(Ok(RepoStatus::HasUnpushed)),
        RefObservation::LocalTargetMissing => RefDecision::Settled(
            Err(ClassificationError::LocalTargetUnavailable),
        ),
        RefObservation::UpstreamTargetMissing => RefDecision::Settled(
            Err(ClassificationError::UpstreamTargetUnavailable),
        ),
        RefObservation::Targets { local, upstream } => if local@ == upstream@ {
            RefDecision::Settled(Ok(RepoStatus::Clean))
        } else {
            RefDecision::CompareHistories
        },
    }
}

/// The status once the commit graph has answered: any commit reachable only
/// from the local branch means unpushed work; none means the branch is equal
/// or purely behind, which needs no publishing action. The behind count never
/// enters the decision.
pub open spec fn divergence_status_spec(ahead: nat) -> RepoStatus {
    if ahead > 0 {
        RepoStatus::HasUnpushed
    } else {
        RepoStatus::Clean
    }
}

/// Whether two byte strings are equal.
fn bytes_equal(a: &[u8], b: &[u8]) -> (r: bool)
    ensures
        r == (a@ == b@),
{
    if a.len() != b.len() {
        assert(a@.len() != b@.len());
        return false;
    }
    let n = a.len();
    let mut i: usize = 0;
    while i < n
        invariant
            n == a@.len(),
            n == b@.len(),
            0 <= i <= n,
            forall|j: int| 0 <= j < i ==> a@[j] == b@[j],
        decreases n - i,
    {
        if a[i] != b[i] {
            return false;
        }
        i = i + 1;
    }
    assert(a@ =~= b@);
    true
}

/// Decide what the reference state settles on its own.
pub fn decide_from_refs(obs: &RefObservation) -> (d: RefDecision)
    ensures
        d == ref_decision_spec(*obs),
{
    match obs {
        RefObservation::OpenFailed => RefDecision::Settled(
            Err(ClassificationError::OpenFailed),
        ),
        RefObservation::HeadUnresolved => RefDecision::Settled(Ok(RepoStatus::MissingHead)),
        RefObservation::Detached => RefDecision::Settled(Ok(RepoStatus::Clean)),
        RefObservation::NameMissing => RefDecision::Settled(
            Err(ClassificationError::BranchNameUnavailable),
        ),
        RefObservation::BranchMissing => RefDecision::Settled(
            Err(ClassificationError::BranchLookupFailed),
        ),
        RefObservation::NoUpstream => RefDecision::Settled(Ok(RepoStatus::HasUnpushed)),
        RefObservation::LocalTargetMissing => RefDecision::Settled(
            Err(ClassificationError::LocalTargetUnavailable),
        ),
        RefObservation::UpstreamTargetMissing => RefDecision::Settled(
            Err(ClassificationError::UpstreamTargetUnavailable),
        ),
        RefObservation::Targets { local, upstream } => {
            if bytes_equal(local.as_slice(), upstream.as_slice()) {
                RefDecision::Settled(Ok(RepoStatus::Clean))
            } else {
                RefDecision::CompareHistories
            }
        },
    }
}

/// Decide the status from the divergence counts. The behind count is taken
/// and ignored, as the answer of the graph query hands both.
pub fn status_for_counts(ahead: usize, behind: usize) -> (s: RepoStatus)
    ensures
        s == divergence_status_spec(ahead as nat),
{
    let _ = behind;
    if ahead > 0 {
        RepoStatus::HasUnpushed
    } else {
        RepoStatus::Clean
    }
}

/// Inspect the references of an open repository, one best-effort pass in the
/// order of the decision tree: current reference, branch name, local branch,
/// upstream, then the two commit targets. Alongside the observation it hands
/// back the two commit identifiers exactly when both targets resolved, so
/// that the commit graph can be consulted about them.
fn observe_refs(repo: &git2::Repository) -> (r: (RefObservation, Option<(git2::Oid, git2::Oid)>))
    ensures
        (r.0 matches RefObservation::Targets { .. }) <==> r.1 is Some,
{
    let head = match git::repository_head(repo) {
        Ok(head) => head,
        Err(_) => {
            return (RefObservation::HeadUnresolved, None);
        },
    };
    if !git::reference_is_branch(&head) {
        return (RefObservation::Detached, None);
    }
    let name = match git::reference_shorthand(&head) {
        Ok(name) => name,
        Err(_) => {
            return (RefObservation::NameMissing, None);
        },
    };
    let branch = match git::find_local_branch(repo, name.as_str()) {
        Ok(branch) => branch,
        Err(_) => {
            return (RefObservation::BranchMissing, None);
        },
    };
    let upstream = match git::branch_upstream(&branch) {
        Ok(upstream) => upstream,
        Err(_) => {
            return (RefObservation::NoUpstream, None);
        },
    };
    let local_oid = match git::reference_target(git::branch_reference(&branch)) {
        Some(oid) => oid,
        None => {
            return (RefObservation::LocalTargetMissing, None);
        },
    };
    let upstream_oid = match git::reference_target(git::branch_reference(&upstream)) {
        Some(oid) => oid,
        None => {
            return (RefObservation::UpstreamTargetMissing, None);
        },
    };
    let local = git::oid_bytes(&local_oid);
    let upstream_bytes = git::oid_bytes(&upstream_oid);
    (RefObservation::Targets { local, upstream: upstream_bytes }, Some((local_oid, upstream_oid)))
}

/// Classify the repository rooted at `repo_path`: open it, observe its
/// reference state, and decide through the verified decision tree, consulting
/// the commit graph only where the two identifiers differ. One best-effort
/// attempt; every failure is scoped to this repository.
pub fn check_repo_status(repo_path: &str) -> Result<RepoStatus, ClassificationError> {
    let repo = match git::open_repository(repo_path) {
        Ok(repo) => repo,
        Err(_) => {
            return Err(ClassificationError::OpenFailed);
        },
    };
    let (obs, oids) = observe_refs(&repo);
    match decide_from_refs(&obs) {
        RefDecision::Settled(outcome) => outcome,
        RefDecision::CompareHistories => {
            // The decision tree defers to the graph only from `Targets`, so
            // the two identifiers are in hand.
            let (local, upstream) = oids.unwrap();
            match git::graph_ahead_behind(&repo, &local, &upstream) {
                Ok((ahead, behind)) => Ok(status_for_counts(ahead, behind)),
                Err(_) => Err(ClassificationError::DivergenceUnavailable),
            }
        },
    }
}

/// Whether a classified repository is printed under the active reporting
/// mode: repositories with unpushed work by default, missing-head
/// repositories in missing-head mode. A clean repository is never printed.
pub fn should_report(status: RepoStatus, missing_head_mode: bool) -> (r: bool)
    ensures
        r == if missing_head_mode {
            status is MissingHead
        } else {
            status is HasUnpushed
        },
{
    match status {
        RepoStatus::HasUnpushed => !missing_head_mode,
        RepoStatus::MissingHead => missing_head_mode,
        RepoStatus::Clean => false,
    }
}

/// Equal local and upstream commit identifiers settle the status as `Clean`,
/// with no graph query.
pub proof fn lemma_equal_identifiers_clean(obs: RefObservation)
    requires
        obs matches RefObservation::Targets { local, upstream } && local@ == upstream@,
    ensures
        ref_decision_spec(obs) == RefDecision::Settled(Ok(RepoStatus::Clean)),
{
}

/// With an upstream configured and a positive ahead count, the status is
/// `HasUnpushed`: the reference state defers to the graph, and the graph's
/// positive ahead count decides.
pub proof fn lemma_ahead_has_unpushed(obs: RefObservation, ahead: nat)
    requires
        obs matches RefObservation::Targets { local, upstream } && local@ != upstream@,
        ahead > 0,
    ensures
        ref_decision_spec(obs) == RefDecision::CompareHistories,
        divergence_status_spec(ahead) == RepoStatus::HasUnpushed,
{
}

/// Strictly behind-only divergence is `Clean`: the identifiers differ, so the
/// graph is consulted, and a zero ahead count decides `Clean`.
pub proof fn lemma_behind_only_clean(obs: RefObservation, ahead: nat)
    requires
        obs matches RefObservation::Targets { local, upstream } && local@ != upstream@,
        ahead == 0,
    ensures
        ref_decision_spec(obs) == RefDecision::CompareHistories,
        divergence_status_spec(ahead) == RepoStatus::Clean,
{
}

/// A current branch with no upstream configured is `HasUnpushed`: local
/// commits have nowhere published to compare against.
pub proof fn lemma_no_upstream_has_unpushed()
    ensures
        ref_decision_spec(RefObservation::NoUpstream) == RefDecision::Settled(
            Ok(RepoStatus::HasUnpushed),
        ),
{
}

/// A repository whose current reference does not resolve is `MissingHead`,
/// a normal outcome and not an error.
pub proof fn lemma_unresolved_head_missing()
    ensures
        ref_decision_spec(RefObservation::HeadUnresolved) == RefDecision::Settled(
            Ok(RepoStatus::MissingHead),
        ),
{
}

/// A detached checkout is `Clean`: there is no branch to compare against a
/// remote counterpart.
pub proof fn lemma_detached_clean()
    ensures
        ref_decision_spec(RefObservation::Detached) == RefDecision::Settled(
            Ok(RepoStatus::Clean),
        ),
{
}

/// Classification is a pure function of the observed state: two inspections
/// that reveal the same reference state and the same divergence counts decide
/// the same outcome both times.
pub proof fn lemma_classification_deterministic(
    obs1: RefObservation,
    obs2: RefObservation,
    ahead1: nat,
    ahead2: nat,
)
    requires
        obs1 == obs2,
        ahead1 == ahead2,
    ensures
        ref_decision_spec(obs1) == ref_decision_spec(obs2),
        divergence_status_spec(ahead1) == divergence_status_spec(ahead2),
{
}

} // verus!
