use nasty_boii::{check_repo_status, RepoStatus};

/// Write a commit whose tree holds one file, and return its identifier.
fn commit_file(
    repo: &git2::Repository,
    update_ref: Option<&str>,
    file_name: &str,
    content: &[u8],
    message: &str,
    parents: &[&git2::Commit],
) -> git2::Oid {
    let sig = git2::Signature::now("Test User", "test@example.com").unwrap();
    let blob = repo.blob(content).unwrap();
    let mut builder = repo.treebuilder(None).unwrap();
    builder.insert(file_name, blob, 0o100644).unwrap();
    let tree_id = builder.write().unwrap();
    let tree = repo.find_tree(tree_id).unwrap();
    repo.commit(update_ref, &sig, &sig, message, &tree, parents).unwrap()
}

/// Point a remote-tracking reference of `origin` at `target` and configure
/// it as the upstream of the current branch.
fn set_up_tracking(repo: &git2::Repository, remote_url: &str, target: git2::Oid) {
    let head = repo.head().unwrap();
    let name = head.shorthand().unwrap().to_string();
    repo.remote("origin", remote_url).unwrap();
    repo.reference(
        &format!("refs/remotes/origin/{}", name),
        target,
        true,
        "tracking",
    )
    .unwrap();
    let mut branch = repo.find_branch(&name, git2::BranchType::Local).unwrap();
    branch.set_upstream(Some(&format!("origin/{}", name))).unwrap();
}

#[test]
fn test_missing_head_repo() {
    let temp_dir = tempfile::tempdir().unwrap();
    let repo_path = temp_dir.path().join("bare-repo");

    // a bare repository fresh from init has an unborn current reference
    git2::Repository::init_bare(&repo_path).unwrap();

    let status = check_repo_status(repo_path.to_str().unwrap()).unwrap();
    assert_eq!(status, RepoStatus::MissingHead);
}

#[test]
fn test_repo_with_no_upstream() {
    let temp_dir = tempfile::tempdir().unwrap();
    let repo_path = temp_dir.path().join("no-upstream");
    let repo = git2::Repository::init(&repo_path).unwrap();

    commit_file(&repo, Some("HEAD"), "test.txt", b"content", "Initial commit", &[]);

    // no remote configured: conservatively unpushed
    let status = check_repo_status(repo_path.to_str().unwrap()).unwrap();
    assert_eq!(status, RepoStatus::HasUnpushed);
}

#[test]
fn test_clean_repo() {
    let temp_dir = tempfile::tempdir().unwrap();
    let repo_path = temp_dir.path().join("clean");
    let remote_path = temp_dir.path().join("remote.git");
    let repo = git2::Repository::init(&repo_path).unwrap();

    let first = commit_file(&repo, Some("HEAD"), "test.txt", b"content", "Initial commit", &[]);
    set_up_tracking(&repo, remote_path.to_str().unwrap(), first);

    let status = check_repo_status(repo_path.to_str().unwrap()).unwrap();
    assert_eq!(status, RepoStatus::Clean);
}

#[test]
fn test_repo_with_unpushed_commits() {
    let temp_dir = tempfile::tempdir().unwrap();
    let repo_path = temp_dir.path().join("unpushed");
    let remote_path = temp_dir.path().join("remote.git");
    let repo = git2::Repository::init(&repo_path).unwrap();

    let first = commit_file(&repo, Some("HEAD"), "test.txt", b"content", "Initial commit", &[]);
    set_up_tracking(&repo, remote_path.to_str().unwrap(), first);

    // one more local commit that the upstream does not have
    let parent = repo.find_commit(first).unwrap();
    commit_file(
        &repo,
        Some("HEAD"),
        "unpushed.txt",
        b"new content",
        "Unpushed commit",
        &[&parent],
    );

    let status = check_repo_status(repo_path.to_str().unwrap()).unwrap();
    assert_eq!(status, RepoStatus::HasUnpushed);
}

#[test]
fn test_repo_behind_remote() {
    let temp_dir = tempfile::tempdir().unwrap();
    let repo_path = temp_dir.path().join("behind");
    let remote_path = temp_dir.path().join("remote.git");
    let repo = git2::Repository::init(&repo_path).unwrap();

    let first = commit_file(&repo, Some("HEAD"), "test.txt", b"content", "Initial commit", &[]);

    // a commit published only upstream: the local branch stays on the first
    let parent = repo.find_commit(first).unwrap();
    let second = commit_file(&repo, None, "new.txt", b"new", "Remote commit", &[&parent]);
    set_up_tracking(&repo, remote_path.to_str().unwrap(), second);

    // behind but not ahead: clean
    let status = check_repo_status(repo_path.to_str().unwrap()).unwrap();
    assert_eq!(status, RepoStatus::Clean);
}
