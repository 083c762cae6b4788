//! The tree walker's rules: which directory entries are descended into,
//! which are pruned, and which mark their parent as a repository root.
//!
//! The walk itself reads the file system and so lives with the caller; every
//! decision it takes per entry is the verified `entry_action` here. A
//! directory-tree snapshot (`DirEntryNode`) models the traversal, and the
//! laws about completeness and exclusion are proved over that model.

use vstd::prelude::*;

verus! {

/// The byte value of '.'.
pub const DOT_BYTE: u8 = 46;

/// The byte value of 'g'.
pub const G_BYTE: u8 = 103;

/// The byte value of 'i'.
pub const I_BYTE: u8 = 105;

/// The byte value of 't'.
pub const T_BYTE: u8 = 116;

/// The name that marks a directory as a repository's metadata directory:
/// the bytes of ".git".
pub open spec fn metadata_dir_name() -> Seq<u8> {
    seq![DOT_BYTE, G_BYTE, I_BYTE, T_BYTE]
}

/// Whether `name` is exactly the metadata-directory name.
pub open spec fn is_metadata_dir_name(name: Seq<u8>) -> bool {
    name == metadata_dir_name()
}

/// Whether `name` marks a hidden entry: it begins with a dot.
pub open spec fn is_hidden_name(name: Seq<u8>) -> bool {
    name.len() > 0 && name[0] == DOT_BYTE
}

/// What the walker does with one directory entry.
#[derive(Debug, PartialEq, Eq, Structural, Clone, Copy)]
pub enum EntryAction {
    /// Keep walking below this entry.
    Descend,
    /// Nothing to do here: the entry is no directory, or otherwise carries
    /// nothing to walk into.
    Skip,
    /// The entry is excluded: do not yield it and do not walk below it.
    Prune,
    /// The entry is a metadata directory: its parent is a repository root,
    /// and the walker does not descend into the entry's own contents.
    YieldRepo,
}

/// The decision for an entry strictly below the scan root. Pattern exclusion
/// is checked first and prunes even a metadata directory; the metadata name
/// is otherwise exempt from the hidden-entry rule, so repositories nested
/// under hidden directories are still found.
pub open spec fn inner_entry_action(ignored: bool, is_dir: bool, name: Seq<u8>) -> EntryAction {
    if ignored {
        EntryAction::Prune
    } else if is_metadata_dir_name(name) {
        if is_dir {
            EntryAction::YieldRepo
        } else {
            EntryAction::Skip
        }
    } else if is_hidden_name(name) {
        EntryAction::Prune
    } else if is_dir {
        EntryAction::Descend
    } else {
        EntryAction::Skip
    }
}

/// The decision for any entry of the walk. The scan root (depth zero) is
/// always descended into, whatever its name and whatever the patterns say;
/// every deeper entry follows `inner_entry_action`.
pub open spec fn entry_action_spec(depth: int, ignored: bool, is_dir: bool, name: Seq<u8>) -> EntryAction {
    if depth == 0 {
        if is_dir {
            EntryAction::Descend
        } else {
            EntryAction::Skip
        }
    } else {
        inner_entry_action(ignored, is_dir, name)
    }
}

/// Whether `name` is exactly the metadata-directory name.
pub fn name_is_metadata_dir(name: &[u8]) -> (r: bool)
    ensures
        r == is_metadata_dir_name(name@),
{
    proof {
        assert(metadata_dir_name().len() == 4);
    }
    if name.len() != 4 {
        return false;
    }
    let r = name[0] == DOT_BYTE && name[1] == G_BYTE && name[2] == I_BYTE && name[3] == T_BYTE;
    proof {
        if r {
            assert(name@ =~= metadata_dir_name());
        }
    }
    r
}

/// Whether `name` marks a hidden entry.
pub fn name_is_hidden(name: &[u8]) -> (r: bool)
    ensures
        r == is_hidden_name(name@),
{
    name.len() > 0 && name[0] == DOT_BYTE
}

/// Decide what the walker does with one entry, given the depth at which the
/// walk met it, the verdict of the pattern matcher, whether it is a
/// directory, and its name.
pub fn entry_action(depth: usize, ignored: bool, is_dir: bool, name: &[u8]) -> (a: EntryAction)
    ensures
        a == entry_action_spec(depth as int, ignored, is_dir, name@),
{
    if depth == 0 {
        if is_dir {
            EntryAction::Descend
        } else {
            EntryAction::Skip
        }
    } else if ignored {
        EntryAction::Prune
    } else if name_is_metadata_dir(name) {
        if is_dir {
            EntryAction::YieldRepo
        } else {
            EntryAction::Skip
        }
    } else if name_is_hidden(name) {
        EntryAction::Prune
    } else if is_dir {
        EntryAction::Descend
    } else {
        EntryAction::Skip
    }
}

#[verifier::external_type_specification]
#[verifier::external_body]
pub struct ExGitignore(ignore::gitignore::Gitignore);

/// Relies on ignore's Gitignore::matched: whether the path matches one of
/// the matcher's ignore patterns (a whitelist match does not exclude). The
/// verdict depends on the matcher's compiled patterns, which nothing here
/// can see, so no more is claimed of it.
#[verifier::external_body]
fn pattern_excludes(matcher: &ignore::gitignore::Gitignore, path: &str, is_dir: bool) -> bool {
    matcher.matched(path, is_dir).is_ignore()
}

/// Decide what the walker does with one entry, consulting the optional
/// pattern matcher on the entry's path. Whatever the matcher answers, the
/// action is the verified decision for some pattern verdict; without a
/// matcher, and always at the scan root, it is the decision for "not
/// ignored".
pub fn evaluate_entry(
    matcher: Option<&ignore::gitignore::Gitignore>,
    path: &str,
    depth: usize,
    is_dir: bool,
    name: &[u8],
) -> (a: EntryAction)
    ensures
        exists|ignored: bool| a == entry_action_spec(depth as int, ignored, is_dir, name@),
        depth == 0 ==> a == entry_action_spec(0, false, is_dir, name@),
        matcher is None ==> a == entry_action_spec(depth as int, false, is_dir, name@),
{
    let ignored: bool = if depth > 0 {
        match matcher {
            Some(matcher) => pattern_excludes(matcher, path, is_dir),
            None => false,
        }
    } else {
        false
    };
    let a = entry_action(depth, ignored, is_dir, name);
    proof {
        assert(a == entry_action_spec(depth as int, ignored, is_dir, name@));
    }
    a
}

/// One directory entry of a tree snapshot: its name, whether it is a
/// directory, the pattern matcher's verdict on its path, and its entries.
/// Non-directories carry no children.
#[derive(Debug)]
pub struct DirEntryNode {
    /// The entry's file name, as bytes.
    pub name: Vec<u8>,
    /// Whether the entry is a directory (a symbolic link is not followed and
    /// counts as none).
    pub is_dir: bool,
    /// Whether the entry's path matches a configured ignore pattern.
    pub ignored: bool,
    /// The entries of the directory.
    pub children: Vec<DirEntryNode>,
}

/// A discovered repository root, as the sequence of entry names leading from
/// the scan root down to the directory that holds the metadata directory.
/// The empty sequence names the scan root itself.
pub type RepoPath = Seq<Seq<u8>>;

/// The walker's decision for an entry below the scan root.
pub open spec fn node_action(node: DirEntryNode) -> EntryAction {
    inner_entry_action(node.ignored, node.is_dir, node.name@)
}

/// The repository paths, relative to `node`'s parent, that the walk reports
/// on meeting the entry `node` below the scan root: a metadata directory
/// reports the parent itself and nothing of its own contents; a directory
/// the walk descends into reports its subtree's findings under its name;
/// everything else reports nothing.
pub open spec fn entry_discoveries(node: DirEntryNode) -> Seq<RepoPath>
    decreases node,
{
    if node_action(node) == EntryAction::YieldRepo {
        seq![seq![]]
    } else if node_action(node) == EntryAction::Descend {
        discovered_in(node.children@).map_values(|p: RepoPath| seq![node.name@] + p)
    } else {
        seq![]
    }
}

/// The repository paths, relative to the common parent, that the walk
/// reports across a sequence of sibling entries, in order.
pub open spec fn discovered_in(entries: Seq<DirEntryNode>) -> Seq<RepoPath>
    decreases entries,
{
    if entries.len() == 0 {
        seq![]
    } else {
        entry_discoveries(entries[0]) + discovered_in(entries.drop_first())
    }
}

/// The repository paths the whole walk reports for a scan rooted at `root`:
/// the root is always descended into when it is a directory, whatever its
/// name and whatever the patterns say of it.
pub open spec fn discovered_below(root: DirEntryNode) -> Seq<RepoPath> {
    if root.is_dir {
        discovered_in(root.children@)
    } else {
        seq![]
    }
}

/// A well-formed snapshot of sibling entries: within any one directory the
/// entry names are distinct, at every level.
pub open spec fn wf_entries(entries: Seq<DirEntryNode>) -> bool
    decreases entries,
{
    &&& forall|i: int, j: int|
        0 <= i < j < entries.len() ==> (#[trigger] entries[i]).name@ != (
        #[trigger] entries[j]).name@
    &&& forall|i: int|
        0 <= i < entries.len() ==> wf_entries((#[trigger] entries[i]).children@)
}

/// Whether the walk, descending among the sibling entries `entries`,
/// discovers the repository path `p`: the empty path asks for a metadata
/// directory among the entries themselves; a longer path must open with the
/// name of an entry the walk descends into whose own entries carry the
/// rest.
pub open spec fn eligible_in(entries: Seq<DirEntryNode>, p: RepoPath) -> bool
    decreases entries,
{
    if p.len() == 0 {
        exists|i: int|
            0 <= i < entries.len() && node_action(#[trigger] entries[i]) == EntryAction::YieldRepo
    } else {
        exists|i: int|
            0 <= i < entries.len() && (#[trigger] entries[i]).name@ == p[0] && node_action(
                entries[i],
            ) == EntryAction::Descend && eligible_in(entries[i].children@, p.drop_first())
    }
}

/// Whether some step of the path `p` runs through an entry whose own path
/// the ignore patterns match.
pub open spec fn route_hits_ignored(entries: Seq<DirEntryNode>, p: RepoPath) -> bool
    decreases entries,
{
    p.len() > 0 && exists|i: int|
        0 <= i < entries.len() && (#[trigger] entries[i]).name@ == p[0] && (entries[i].ignored
            || route_hits_ignored(entries[i].children@, p.drop_first()))
}

/// What the single entry `node` reports: a metadata directory reports
/// exactly the empty path (its parent); a directory the walk descends into
/// reports the paths that open with its name and continue eligibly among
/// its entries; everything else reports nothing.
pub open spec fn entry_reports(node: DirEntryNode, p: RepoPath) -> bool {
    if node_action(node) == EntryAction::YieldRepo {
        p == Seq::<Seq<u8>>::empty()
    } else if node_action(node) == EntryAction::Descend {
        p.len() > 0 && p[0] == node.name@ && eligible_in(node.children@, p.drop_first())
    } else {
        false
    }
}

/// The findings of one entry are exactly what `entry_reports` describes.
proof fn lemma_entry_contains(node: DirEntryNode, p: RepoPath)
    requires
        wf_entries(node.children@),
    ensures
        entry_discoveries(node).contains(p) <==> entry_reports(node, p),
    decreases node, 1int,
{
    let found = entry_discoveries(node);
    if node_action(node) == EntryAction::YieldRepo {
        let empty: RepoPath = Seq::empty();
        assert(found == seq![empty]);
        assert(found[0] == empty);
        if entry_reports(node, p) {
            assert(found.contains(p));
        }
    } else if node_action(node) == EntryAction::Descend {
        lemma_discovered_iff(node.children@, p.drop_first());
        let below = discovered_in(node.children@);
        if found.contains(p) {
            let k = choose|k: int| 0 <= k < found.len() && found[k] == p;
            assert(found[k] == seq![node.name@] + below[k]);
            assert(p.len() == 1 + below[k].len());
            assert(p[0] == node.name@);
            assert(p.drop_first() =~= below[k]);
            assert(below.contains(below[k]));
            assert(entry_reports(node, p));
        }
        if entry_reports(node, p) {
            assert(below.contains(p.drop_first()));
            let k = choose|k: int| 0 <= k < below.len() && below[k] == p.drop_first();
            assert(found[k] == seq![node.name@] + below[k]);
            assert(seq![node.name@] + p.drop_first() =~= p);
            assert(found.contains(p));
        }
    } else {
        assert(found.len() == 0);
    }
}

/// The walk's findings among sibling entries are exactly the eligible
/// paths.
pub proof fn lemma_discovered_iff(entries: Seq<DirEntryNode>, p: RepoPath)
    requires
        wf_entries(entries),
    ensures
        discovered_in(entries).contains(p) <==> eligible_in(entries, p),
    decreases entries, 0int,
{
    if entries.len() == 0 {
        assert(!discovered_in(entries).contains(p));
        assert(!eligible_in(entries, p));
    } else {
        let e0 = entries[0];
        let rest = entries.drop_first();
        assert(wf_entries(e0.children@));
        assert forall|i: int| 0 <= i < rest.len() implies wf_entries(
            (#[trigger] rest[i]).children@,
        ) by {
            assert(rest[i] == entries[i + 1]);
        }
        assert forall|i: int, j: int| 0 <= i < j < rest.len() implies (
        #[trigger] rest[i]).name@ != (#[trigger] rest[j]).name@ by {
            assert(rest[i] == entries[i + 1]);
            assert(rest[j] == entries[j + 1]);
        }
        lemma_entry_contains(e0, p);
        lemma_discovered_iff(rest, p);
        let a = entry_discoveries(e0);
        let b = discovered_in(rest);
        assert(discovered_in(entries) == a + b);
        // membership in the concatenation splits over the two halves
        if (a + b).contains(p) {
            let k = choose|k: int| 0 <= k < (a + b).len() && (a + b)[k] == p;
            if k < a.len() {
                assert(a[k] == p);
                assert(a.contains(p));
            } else {
                assert(b[k - a.len()] == p);
                assert(b.contains(p));
            }
        }
        if a.contains(p) {
            let k = choose|k: int| 0 <= k < a.len() && a[k] == p;
            assert((a + b)[k] == p);
            assert((a + b).contains(p));
        }
        if b.contains(p) {
            let k = choose|k: int| 0 <= k < b.len() && b[k] == p;
            assert((a + b)[k + a.len()] == p);
            assert((a + b).contains(p));
        }
        // eligibility splits over the first entry and the rest
        if eligible_in(entries, p) {
            if p.len() == 0 {
                let i = choose|i: int|
                    0 <= i < entries.len() && node_action(#[trigger] entries[i])
                        == EntryAction::YieldRepo;
                if i == 0 {
                    assert(p =~= Seq::<Seq<u8>>::empty());
                    assert(entry_reports(e0, p));
                } else {
                    assert(rest[i - 1] == entries[i]);
                    assert(eligible_in(rest, p));
                }
            } else {
                let i = choose|i: int|
                    0 <= i < entries.len() && (#[trigger] entries[i]).name@ == p[0] && node_action(
                        entries[i],
                    ) == EntryAction::Descend && eligible_in(entries[i].children@, p.drop_first());
                if i == 0 {
                    assert(entry_reports(e0, p));
                } else {
                    assert(rest[i - 1] == entries[i]);
                    assert(eligible_in(rest, p));
                }
            }
        }
        if entry_reports(e0, p) {
            assert(entries[0] == e0);
            assert(eligible_in(entries, p));
        }
        if eligible_in(rest, p) {
            if p.len() == 0 {
                let i = choose|i: int|
                    0 <= i < rest.len() && node_action(#[trigger] rest[i])
                        == EntryAction::YieldRepo;
                assert(entries[i + 1] == rest[i]);
                assert(eligible_in(entries, p));
            } else {
                let i = choose|i: int|
                    0 <= i < rest.len() && (#[trigger] rest[i]).name@ == p[0] && node_action(
                        rest[i],
                    ) == EntryAction::Descend && eligible_in(rest[i].children@, p.drop_first());
                assert(entries[i + 1] == rest[i]);
                assert(eligible_in(entries, p));
            }
        }
    }
}

/// A metadata directory's action pins its name.
proof fn lemma_yield_names_metadata(node: DirEntryNode)
    requires
        node_action(node) == EntryAction::YieldRepo,
    ensures
        node.name@ == metadata_dir_name(),
{
}

/// One entry never reports the same path twice.
proof fn lemma_entry_no_duplicates(node: DirEntryNode)
    requires
        wf_entries(node.children@),
    ensures
        entry_discoveries(node).no_duplicates(),
    decreases node, 1int,
{
    let found = entry_discoveries(node);
    if node_action(node) == EntryAction::Descend {
        lemma_discovered_no_duplicates(node.children@);
        let below = discovered_in(node.children@);
        assert forall|k: int, l: int|
            0 <= k < found.len() && 0 <= l < found.len() && k != l implies found[k]
            != found[l] by {
            assert(found[k] == seq![node.name@] + below[k]);
            assert(found[l] == seq![node.name@] + below[l]);
            if found[k] == found[l] {
                assert(below[k].len() == below[l].len());
                assert forall|m: int| 0 <= m < below[k].len() implies below[k][m]
                    == below[l][m] by {
                    assert((seq![node.name@] + below[k])[m + 1] == below[k][m]);
                    assert((seq![node.name@] + below[l])[m + 1] == below[l][m]);
                }
                assert(below[k] =~= below[l]);
            }
        }
    }
}

/// The walk never reports a path twice across sibling entries.
pub proof fn lemma_discovered_no_duplicates(entries: Seq<DirEntryNode>)
    requires
        wf_entries(entries),
    ensures
        discovered_in(entries).no_duplicates(),
    decreases entries, 0int,
{
    if entries.len() > 0 {
        let e0 = entries[0];
        let rest = entries.drop_first();
        assert(wf_entries(e0.children@));
        assert forall|i: int| 0 <= i < rest.len() implies wf_entries(
            (#[trigger] rest[i]).children@,
        ) by {
            assert(rest[i] == entries[i + 1]);
        }
        assert forall|i: int, j: int| 0 <= i < j < rest.len() implies (
        #[trigger] rest[i]).name@ != (#[trigger] rest[j]).name@ by {
            assert(rest[i] == entries[i + 1]);
            assert(rest[j] == entries[j + 1]);
        }
        lemma_entry_no_duplicates(e0);
        lemma_discovered_no_duplicates(rest);
        let a = entry_discoveries(e0);
        let b = discovered_in(rest);
        assert(discovered_in(entries) == a + b);
        // what the first entry reports, the rest cannot: its paths either
        // are the empty path of the lone metadata entry, or open with the
        // first entry's name, and names are distinct among siblings
        assert forall|p: RepoPath| a.contains(p) implies !b.contains(p) by {
            assert(wf_entries(rest));
            lemma_entry_contains(e0, p);
            lemma_discovered_iff(rest, p);
            if b.contains(p) {
                if p.len() == 0 {
                    lemma_yield_names_metadata(e0);
                    let i = choose|i: int|
                        0 <= i < rest.len() && node_action(#[trigger] rest[i])
                            == EntryAction::YieldRepo;
                    lemma_yield_names_metadata(rest[i]);
                    assert(rest[i] == entries[i + 1]);
                    assert(entries[0].name@ != entries[i + 1].name@);
                } else {
                    assert(p[0] == e0.name@);
                    let i = choose|i: int|
                        0 <= i < rest.len() && (#[trigger] rest[i]).name@ == p[0] && node_action(
                            rest[i],
                        ) == EntryAction::Descend && eligible_in(
                            rest[i].children@,
                            p.drop_first(),
                        );
                    assert(rest[i] == entries[i + 1]);
                    assert(entries[0].name@ != entries[i + 1].name@);
                }
            }
        }
        assert forall|k: int, l: int|
            0 <= k < (a + b).len() && 0 <= l < (a + b).len() && k != l implies (a + b)[k] != (a
            + b)[l] by {
            if k < a.len() && l < a.len() {
                assert(a[k] != a[l]);
            } else if k >= a.len() && l >= a.len() {
                assert(b[k - a.len()] != b[l - a.len()]);
            } else if k < a.len() && l >= a.len() {
                assert(a.contains(a[k]));
                if (a + b)[k] == (a + b)[l] {
                    assert(b[l - a.len()] == a[k]);
                    assert(b.contains(a[k]));
                }
            } else {
                assert(a.contains(a[l]));
                if (a + b)[k] == (a + b)[l] {
                    assert(b[k - a.len()] == a[l]);
                    assert(b.contains(a[l]));
                }
            }
        }
    }
}

/// Walk completeness: over a well-formed snapshot rooted at a directory,
/// the walk reports a path exactly when each of its steps is a directory
/// the walk descends into and its end holds a metadata directory that no
/// pattern excludes — and it reports each such path exactly once.
pub proof fn lemma_walk_complete(root: DirEntryNode, p: RepoPath)
    requires
        root.is_dir,
        wf_entries(root.children@),
    ensures
        discovered_below(root).contains(p) <==> eligible_in(root.children@, p),
        discovered_below(root).no_duplicates(),
{
    lemma_discovered_iff(root.children@, p);
    lemma_discovered_no_duplicates(root.children@);
}

/// A metadata directory ends the walk: the entry reports its parent and
/// nothing of what its own contents might hold.
pub proof fn lemma_no_descent_into_metadata(node: DirEntryNode)
    requires
        node_action(node) == EntryAction::YieldRepo,
    ensures
        entry_discoveries(node) == seq![Seq::<Seq<u8>>::empty()],
{
}

/// An entry the walk prunes — one whose path matches an ignore pattern, or
/// a hidden entry that is no metadata directory — reports nothing, whatever
/// stands below it.
pub proof fn lemma_pruned_subtree_silent(node: DirEntryNode)
    requires
        node_action(node) == EntryAction::Prune,
    ensures
        entry_discoveries(node) == Seq::<RepoPath>::empty(),
{
    assert(entry_discoveries(node) =~= Seq::<RepoPath>::empty());
}

/// Exclusion correctness: a path that runs through a pattern-ignored entry
/// is never reported, however deep the ignored step lies.
pub proof fn lemma_ignored_route_absent(entries: Seq<DirEntryNode>, p: RepoPath)
    requires
        wf_entries(entries),
        route_hits_ignored(entries, p),
    ensures
        !discovered_in(entries).contains(p),
    decreases entries,
{
    lemma_discovered_iff(entries, p);
    if eligible_in(entries, p) {
        let i = choose|i: int|
            0 <= i < entries.len() && (#[trigger] entries[i]).name@ == p[0] && node_action(
                entries[i],
            ) == EntryAction::Descend && eligible_in(entries[i].children@, p.drop_first());
        let j = choose|j: int|
            0 <= j < entries.len() && (#[trigger] entries[j]).name@ == p[0] && (
            entries[j].ignored || route_hits_ignored(entries[j].children@, p.drop_first()));
        if i != j {
            // two siblings would share the first component's name
            assert(entries[i].name@ != entries[j].name@);
        }
        assert(i == j);
        // a descended entry is not ignored, so the ignored step lies below
        assert(!entries[i].ignored);
        assert(route_hits_ignored(entries[i].children@, p.drop_first()));
        assert(wf_entries(entries[i].children@));
        lemma_ignored_route_absent(entries[i].children@, p.drop_first());
        lemma_discovered_iff(entries[i].children@, p.drop_first());
    }
}

/// The scan root is always descended into when it is a directory: neither
/// its name nor the patterns' verdict on it ever excludes it.
pub proof fn lemma_root_always_descends(ignored: bool, name: Seq<u8>)
    ensures
        entry_action_spec(0, ignored, true, name) == EntryAction::Descend,
{
}

/// Below the root, an entry marks a repository exactly when it is a
/// directory carrying the metadata-directory name that no pattern excludes.
pub proof fn lemma_yield_characterized(node: DirEntryNode)
    ensures
        (node_action(node) == EntryAction::YieldRepo) <==> (!node.ignored && node.is_dir
            && is_metadata_dir_name(node.name@)),
{
}

/// Below the root, an entry is descended into exactly when it is a
/// directory that no pattern excludes, is no metadata directory, and is not
/// hidden.
pub proof fn lemma_descend_characterized(node: DirEntryNode)
    ensures
        (node_action(node) == EntryAction::Descend) <==> (!node.ignored && node.is_dir
            && !is_metadata_dir_name(node.name@) && !is_hidden_name(node.name@)),
{
}

/// Splitting a sequence of siblings before entry `i`: the walk's findings
/// over the first `i + 1` entries are those over the first `i`, followed by
/// entry `i`'s own.
proof fn lemma_discovered_in_snoc(entries: Seq<DirEntryNode>, i: int)
    requires
        0 <= i < entries.len(),
    ensures
        discovered_in(entries.take(i + 1)) == discovered_in(entries.take(i))
            + entry_discoveries(entries[i]),
    decreases i,
{
    if i == 0 {
        assert(entries.take(1).drop_first() =~= entries.take(0));
        assert(entries.take(0) =~= Seq::<DirEntryNode>::empty());
        assert(discovered_in(entries.take(1)) =~= discovered_in(entries.take(0))
            + entry_discoveries(entries[0]));
    } else {
        lemma_discovered_in_snoc(entries.drop_first(), i - 1);
        assert(entries.take(i + 1).drop_first() =~= entries.drop_first().take(i));
        assert(entries.take(i).drop_first() =~= entries.drop_first().take(i - 1));
        assert(entries.take(i + 1)[0] == entries[0]);
        assert(entries.take(i)[0] == entries[0]);
        assert(entries.drop_first()[i - 1] == entries[i]);
        assert(discovered_in(entries.take(i + 1)) =~= discovered_in(entries.take(i))
            + entry_discoveries(entries[i]));
    }
}

/// Copy a byte string.
fn clone_bytes(v: &Vec<u8>) -> (r: Vec<u8>)
    ensures
        r@ == v@,
{
    let mut r: Vec<u8> = Vec::new();
    let n = v.len();
    let mut i: usize = 0;
    while i < n
        invariant
            n == v@.len(),
            0 <= i <= n,
            r@ == v@.take(i as int),
        decreases n - i,
    {
        r.push(v[i]);
        proof {
            assert(r@ =~= v@.take(i as int + 1));
        }
        i = i + 1;
    }
    proof {
        assert(v@.take(n as int) =~= v@);
    }
    r
}

/// One repository path, built as `name` followed by the components of
/// `rest`.
fn prefixed_path(name: &Vec<u8>, rest: &Vec<Vec<u8>>) -> (r: Vec<Vec<u8>>)
    ensures
        r.deep_view() == seq![name@] + rest.deep_view(),
{
    let mut r: Vec<Vec<u8>> = Vec::new();
    r.push(clone_bytes(name));
    let n = rest.len();
    let mut i: usize = 0;
    while i < n
        invariant
            n == rest@.len(),
            0 <= i <= n,
            r@.len() == 1 + i,
            r@[0]@ == name@,
            forall|k: int| 0 <= k < i ==> r@[k + 1]@ == rest@[k]@,
        decreases n - i,
    {
        r.push(clone_bytes(&rest[i]));
        i = i + 1;
    }
    proof {
        assert(r.deep_view() =~~= seq![name@] + rest.deep_view());
    }
    r
}

/// The discoveries the walk reports across the entries of one directory.
fn discoveries_in_children(children: &Vec<DirEntryNode>) -> (r: Vec<Vec<Vec<u8>>>)
    ensures
        r.deep_view() == discovered_in(children@),
    decreases *children,
{
    let mut r: Vec<Vec<Vec<u8>>> = Vec::new();
    let n = children.len();
    let mut i: usize = 0;
    while i < n
        invariant
            n == children@.len(),
            0 <= i <= n,
            r.deep_view() == discovered_in(children@.take(i as int)),
        decreases n - i,
    {
        let mut sub = discoveries_of_entry(&children[i]);
        r.append(&mut sub);
        proof {
            lemma_discovered_in_snoc(children@, i as int);
            assert(r.deep_view() =~~= discovered_in(children@.take(i as int + 1)));
        }
        i = i + 1;
    }
    proof {
        assert(children@.take(n as int) =~= children@);
    }
    r
}

/// The discoveries the walk reports on meeting the entry `node` below the
/// scan root.
fn discoveries_of_entry(node: &DirEntryNode) -> (r: Vec<Vec<Vec<u8>>>)
    ensures
        r.deep_view() == entry_discoveries(*node),
    decreases *node,
{
    // Depth one stands in for any depth below the root: the decision there
    // does not depend on how deep the walk is.
    let action = entry_action(1, node.ignored, node.is_dir, node.name.as_slice());
    proof {
        assert(action == node_action(*node));
    }
    match action {
        EntryAction::YieldRepo => {
            let mut r: Vec<Vec<Vec<u8>>> = Vec::new();
            let empty: Vec<Vec<u8>> = Vec::new();
            r.push(empty);
            proof {
                assert(r.deep_view() =~~= entry_discoveries(*node));
            }
            r
        },
        EntryAction::Descend => {
            let below = discoveries_in_children(&node.children);
            let mut r: Vec<Vec<Vec<u8>>> = Vec::new();
            let m = below.len();
            let mut j: usize = 0;
            while j < m
                invariant
                    m == below@.len(),
                    0 <= j <= m,
                    below.deep_view() == discovered_in(node.children@),
                    r@.len() == j,
                    forall|k: int| 0 <= k < j ==> r.deep_view()[k] == seq![node.name@]
                        + below.deep_view()[k],
                decreases m - j,
            {
                let p = prefixed_path(&node.name, &below[j]);
                proof {
                    assert(below@[j as int].deep_view() == below.deep_view()[j as int]);
                }
                let ghost prevs = r@;
                let ghost prevd = r.deep_view();
                r.push(p);
                proof {
                    assert forall|k: int| 0 <= k < j implies #[trigger] r.deep_view()[k]
                        == prevd[k] by {
                        assert(r@[k] == prevs[k]);
                    }
                    assert(r@[j as int] == p);
                    assert(r.deep_view()[j as int] == p.deep_view());
                }
                j = j + 1;
            }
            proof {
                assert(r.deep_view() =~~= discovered_in(node.children@).map_values(
                    |p: RepoPath| seq![node.name@] + p,
                ));
            }
            r
        },
        EntryAction::Prune => {
            let r: Vec<Vec<Vec<u8>>> = Vec::new();
            proof {
                assert(r.deep_view() =~~= entry_discoveries(*node));
            }
            r
        },
        EntryAction::Skip => {
            let r: Vec<Vec<Vec<u8>>> = Vec::new();
            proof {
                assert(r.deep_view() =~~= entry_discoveries(*node));
            }
            r
        },
    }
}

/// Walk a directory-tree snapshot and report every repository root it
/// holds, each as the component path leading down from the scan root.
pub fn walk_tree(root: &DirEntryNode) -> (r: Vec<Vec<Vec<u8>>>)
    ensures
        r.deep_view() == discovered_below(*root),
{
    if root.is_dir {
        discoveries_in_children(&root.children)
    } else {
        let r: Vec<Vec<Vec<u8>>> = Vec::new();
        proof {
            assert(r.deep_view() =~~= discovered_below(*root));
        }
        r
    }
}

} // verus!
