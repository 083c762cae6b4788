use nasty_boii::status::{
    decide_from_refs, should_report, status_for_counts, ClassificationError, RefDecision,
    RefObservation, RepoStatus,
};

#[test]
fn equal_identifiers_settle_clean() {
    let obs = RefObservation::Targets { local: vec![1, 2, 3], upstream: vec![1, 2, 3] };
    assert_eq!(decide_from_refs(&obs), RefDecision::Settled(Ok(RepoStatus::Clean)));
}

#[test]
fn differing_identifiers_defer_to_graph() {
    let obs = RefObservation::Targets { local: vec![1, 2, 3], upstream: vec![1, 2, 4] };
    assert_eq!(decide_from_refs(&obs), RefDecision::CompareHistories);
}

#[test]
fn same_length_different_bytes_defer_to_graph() {
    let obs = RefObservation::Targets { local: vec![0xab; 20], upstream: vec![0xcd; 20] };
    assert_eq!(decide_from_refs(&obs), RefDecision::CompareHistories);
}

#[test]
fn ahead_count_decides_unpushed() {
    assert_eq!(status_for_counts(1, 0), RepoStatus::HasUnpushed);
    assert_eq!(status_for_counts(3, 2), RepoStatus::HasUnpushed);
}

#[test]
fn behind_only_divergence_is_clean() {
    assert_eq!(status_for_counts(0, 1), RepoStatus::Clean);
    assert_eq!(status_for_counts(0, 7), RepoStatus::Clean);
}

#[test]
fn no_upstream_is_unpushed() {
    assert_eq!(
        decide_from_refs(&RefObservation::NoUpstream),
        RefDecision::Settled(Ok(RepoStatus::HasUnpushed))
    );
}

#[test]
fn unresolved_head_is_missing_head() {
    assert_eq!(
        decide_from_refs(&RefObservation::HeadUnresolved),
        RefDecision::Settled(Ok(RepoStatus::MissingHead))
    );
}

#[test]
fn detached_head_is_clean() {
    assert_eq!(
        decide_from_refs(&RefObservation::Detached),
        RefDecision::Settled(Ok(RepoStatus::Clean))
    );
}

#[test]
fn open_failure_is_an_error() {
    assert_eq!(
        decide_from_refs(&RefObservation::OpenFailed),
        RefDecision::Settled(Err(ClassificationError::OpenFailed))
    );
}

#[test]
fn missing_branch_name_is_an_error() {
    assert_eq!(
        decide_from_refs(&RefObservation::NameMissing),
        RefDecision::Settled(Err(ClassificationError::BranchNameUnavailable))
    );
}

#[test]
fn failed_branch_lookup_is_an_error() {
    assert_eq!(
        decide_from_refs(&RefObservation::BranchMissing),
        RefDecision::Settled(Err(ClassificationError::BranchLookupFailed))
    );
}

#[test]
fn missing_targets_are_errors() {
    assert_eq!(
        decide_from_refs(&RefObservation::LocalTargetMissing),
        RefDecision::Settled(Err(ClassificationError::LocalTargetUnavailable))
    );
    assert_eq!(
        decide_from_refs(&RefObservation::UpstreamTargetMissing),
        RefDecision::Settled(Err(ClassificationError::UpstreamTargetUnavailable))
    );
}

#[test]
fn classification_is_repeatable() {
    let first = decide_from_refs(&RefObservation::Targets {
        local: vec![9, 9],
        upstream: vec![9, 9],
    });
    let second = decide_from_refs(&RefObservation::Targets {
        local: vec![9, 9],
        upstream: vec![9, 9],
    });
    assert_eq!(first, second);
    assert_eq!(status_for_counts(2, 5), status_for_counts(2, 5));
}

#[test]
fn reporting_mode_filters_statuses() {
    assert!(should_report(RepoStatus::HasUnpushed, false));
    assert!(!should_report(RepoStatus::HasUnpushed, true));
    assert!(should_report(RepoStatus::MissingHead, true));
    assert!(!should_report(RepoStatus::MissingHead, false));
    assert!(!should_report(RepoStatus::Clean, false));
    assert!(!should_report(RepoStatus::Clean, true));
}

#[test]
fn open_failure_on_missing_path() {
    let status = nasty_boii::check_repo_status("/nonexistent/path/that/does/not/exist");
    assert_eq!(status, Err(ClassificationError::OpenFailed));
}
