use nasty_boii::walk::{
    entry_action, evaluate_entry, name_is_hidden, name_is_metadata_dir, walk_tree, DirEntryNode,
    EntryAction,
};

fn dir(name: &str, children: Vec<DirEntryNode>) -> DirEntryNode {
    DirEntryNode { name: name.as_bytes().to_vec(), is_dir: true, ignored: false, children }
}

fn ignored_dir(name: &str, children: Vec<DirEntryNode>) -> DirEntryNode {
    DirEntryNode { name: name.as_bytes().to_vec(), is_dir: true, ignored: true, children }
}

fn file(name: &str) -> DirEntryNode {
    DirEntryNode {
        name: name.as_bytes().to_vec(),
        is_dir: false,
        ignored: false,
        children: vec![],
    }
}

fn path(components: &[&str]) -> Vec<Vec<u8>> {
    components.iter().map(|c| c.as_bytes().to_vec()).collect()
}

#[test]
fn metadata_name_is_recognized() {
    assert!(name_is_metadata_dir(b".git"));
    assert!(!name_is_metadata_dir(b".gitignore"));
    assert!(!name_is_metadata_dir(b"git"));
    assert!(!name_is_metadata_dir(b""));
}

#[test]
fn hidden_names_are_recognized() {
    assert!(name_is_hidden(b".hidden"));
    assert!(name_is_hidden(b"."));
    assert!(!name_is_hidden(b"src"));
    assert!(!name_is_hidden(b""));
}

#[test]
fn root_always_descends() {
    assert_eq!(entry_action(0, false, true, b"anything"), EntryAction::Descend);
    assert_eq!(entry_action(0, true, true, b".hidden"), EntryAction::Descend);
    assert_eq!(entry_action(0, true, true, b".git"), EntryAction::Descend);
    assert_eq!(entry_action(0, false, false, b"file"), EntryAction::Skip);
}

#[test]
fn metadata_directory_yields_its_parent() {
    assert_eq!(entry_action(1, false, true, b".git"), EntryAction::YieldRepo);
    assert_eq!(entry_action(5, false, true, b".git"), EntryAction::YieldRepo);
}

#[test]
fn metadata_named_file_is_skipped() {
    assert_eq!(entry_action(1, false, false, b".git"), EntryAction::Skip);
}

#[test]
fn ignored_entries_are_pruned_even_metadata() {
    assert_eq!(entry_action(1, true, true, b"vendor"), EntryAction::Prune);
    assert_eq!(entry_action(1, true, true, b".git"), EntryAction::Prune);
    assert_eq!(entry_action(1, true, false, b"file"), EntryAction::Prune);
}

#[test]
fn hidden_entries_are_pruned() {
    assert_eq!(entry_action(1, false, true, b".cache"), EntryAction::Prune);
    assert_eq!(entry_action(2, false, false, b".profile"), EntryAction::Prune);
}

#[test]
fn ordinary_entries_descend_or_skip() {
    assert_eq!(entry_action(1, false, true, b"src"), EntryAction::Descend);
    assert_eq!(entry_action(3, false, false, b"readme"), EntryAction::Skip);
}

#[test]
fn walk_finds_repo_and_respects_exclusion() {
    // a tree holding project/.git and project/vendor/.git, with vendor/
    // excluded by pattern: only `project` is discovered
    let root = dir(
        "scan",
        vec![dir(
            "project",
            vec![
                dir(".git", vec![dir("objects", vec![])]),
                ignored_dir("vendor", vec![dir(".git", vec![])]),
                dir("src", vec![file("lib.rs")]),
            ],
        )],
    );
    let found = walk_tree(&root);
    assert_eq!(found, vec![path(&["project"])]);
}

#[test]
fn walk_finds_nested_repositories_once_each() {
    let root = dir(
        "scan",
        vec![dir(
            "a",
            vec![
                dir(".git", vec![]),
                dir("b", vec![dir(".git", vec![])]),
            ],
        )],
    );
    let found = walk_tree(&root);
    assert_eq!(found, vec![path(&["a"]), path(&["a", "b"])]);
}

#[test]
fn walk_does_not_descend_into_metadata_contents() {
    // a directory tree planted inside the metadata directory is never
    // reported: the walk stops at the metadata directory itself
    let root = dir(
        "scan",
        vec![dir(
            "repo",
            vec![dir(".git", vec![dir("modules", vec![dir("inner", vec![dir(".git", vec![])])])])],
        )],
    );
    let found = walk_tree(&root);
    assert_eq!(found, vec![path(&["repo"])]);
}

#[test]
fn walk_skips_hidden_directories_but_finds_repo_roots() {
    // the hidden directory is pruned entirely; the repository next to it is
    // found; a metadata directory directly under the scan root names the
    // root itself (the empty path)
    let root = dir(
        "scan",
        vec![
            dir(".cache", vec![dir(".git", vec![])]),
            dir(".git", vec![]),
            dir("work", vec![dir(".git", vec![])]),
        ],
    );
    let found = walk_tree(&root);
    assert_eq!(found, vec![path(&[]), path(&["work"])]);
}

#[test]
fn ignored_metadata_directory_suppresses_the_repo() {
    // the pattern-based exclusion is the one rule that prunes even a
    // metadata directory
    let root = dir("scan", vec![dir("repo", vec![ignored_dir(".git", vec![])])]);
    assert!(walk_tree(&root).is_empty());
}

#[test]
fn walk_of_empty_tree_finds_nothing() {
    let root = dir("scan", vec![]);
    assert!(walk_tree(&root).is_empty());
    let not_a_dir = file("plain");
    assert!(walk_tree(&not_a_dir).is_empty());
}

#[test]
fn pattern_matcher_prunes_matching_paths() {
    let mut builder = ignore::gitignore::GitignoreBuilder::new("/base");
    builder.add_line(None, "vendor/").unwrap();
    let matcher = builder.build().unwrap();

    let action = evaluate_entry(Some(&matcher), "/base/vendor", 1, true, b"vendor");
    assert_eq!(action, EntryAction::Prune);

    let action = evaluate_entry(Some(&matcher), "/base/src", 1, true, b"src");
    assert_eq!(action, EntryAction::Descend);

    // the scan root is never excluded, even when a pattern matches it
    let mut root_builder = ignore::gitignore::GitignoreBuilder::new("/base");
    root_builder.add_line(None, "*").unwrap();
    let match_all = root_builder.build().unwrap();
    let action = evaluate_entry(Some(&match_all), "/base", 0, true, b"base");
    assert_eq!(action, EntryAction::Descend);
}

#[test]
fn without_matcher_only_name_rules_apply() {
    assert_eq!(evaluate_entry(None, "/p/src", 1, true, b"src"), EntryAction::Descend);
    assert_eq!(evaluate_entry(None, "/p/.git", 1, true, b".git"), EntryAction::YieldRepo);
    assert_eq!(evaluate_entry(None, "/p/.cfg", 1, true, b".cfg"), EntryAction::Prune);
}
