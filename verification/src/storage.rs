//! How much a user stores: sizes of folders, the space that remains under
//! the quota, and the summary of a user's directory.

use vstd::prelude::*;
use crate::paths::{under_uploads, under_uploads_path};
use crate::plan::{Step, StepView};
use crate::query::trimmed_param;
use crate::reply::{Reply, ReplyView, Status, text_reply};
use crate::strmap::StrMap;
use crate::text::trimmed;

verus! {

/// The quota of each user: 500 MiB.
pub const MAX_STORAGE_BYTES: u64 = 524288000;

/// What a walk of the file system finds at a path.
#[derive(Debug)]
pub enum DirTree {
    /// A file whose length is known.
    File(u64),
    /// A directory that could be read, with the entries that could be read.
    Dir(Vec<DirTree>),
    /// Anything else: a file or directory that could not be read, or
    /// neither a file nor a directory.
    Other,
}

/// The number of bytes in the files of a tree.
pub open spec fn tree_size(t: DirTree) -> int
    decreases t,
{
    match t {
        DirTree::File(n) => n as int,
        DirTree::Dir(entries) => forest_size(entries@),
        DirTree::Other => 0,
    }
}

/// The number of bytes in the files of a list of trees.
pub open spec fn forest_size(ts: Seq<DirTree>) -> int
    decreases ts,
{
    if ts.len() == 0 {
        0
    } else {
        forest_size(ts.drop_last()) + tree_size(ts.last())
    }
}

proof fn lemma_forest_size_nonneg(ts: Seq<DirTree>)
    ensures
        forest_size(ts) >= 0,
    decreases ts.len(),
{
    if ts.len() > 0 {
        lemma_forest_size_nonneg(ts.drop_last());
        lemma_tree_size_nonneg(ts.last());
    }
}

proof fn lemma_tree_size_nonneg(t: DirTree)
    ensures
        tree_size(t) >= 0,
    decreases t,
{
    if let DirTree::Dir(entries) = t {
        lemma_forest_nonneg_rec(entries@, t);
    }
}

proof fn lemma_forest_nonneg_rec(ts: Seq<DirTree>, parent: DirTree)
    requires
        forall|i: int| 0 <= i < ts.len() ==> decreases_to!(parent => ts[i]),
    ensures
        forest_size(ts) >= 0,
    decreases parent, ts.len(),
{
    if ts.len() > 0 {
        assert(decreases_to!(parent => ts[ts.len() - 1]));
        lemma_tree_size_nonneg(ts.last());
        assert forall|i: int| 0 <= i < ts.drop_last().len() implies decreases_to!(
            parent => ts.drop_last()[i]) by {
            assert(ts.drop_last()[i] == ts[i]);
        }
        lemma_forest_nonneg_rec(ts.drop_last(), parent);
    }
}

/// The number of bytes in the files of `t`, or `None` where that number
/// does not fit in a `u64` (the sum overflows).
pub fn get_folder_size(t: &DirTree) -> (r: Option<u64>)
    ensures
        match r {
            Some(n) => n == tree_size(*t),
            None => tree_size(*t) > u64::MAX,
        },
    decreases t,
{
    proof {
        lemma_tree_size_nonneg(*t);
    }
    match t {
        DirTree::File(n) => Some(*n),
        DirTree::Dir(entries) => {
            let mut total: u64 = 0;
            let mut i: usize = 0;
            while i < entries.len()
                invariant
                    i <= entries@.len(),
                    total == forest_size(entries@.take(i as int)),
                    tree_size(*t) == forest_size(entries@),
                    forall|j: int| 0 <= j < entries@.len() ==> decreases_to!(*t => entries@[j]),
                decreases entries@.len() - i,
            {
                assert(entries@.take(i + 1).drop_last() =~= entries@.take(i as int));
                assert(decreases_to!(*t => entries@[i as int]));
                assert(entries@.take(i + 1).last() == entries@[i as int]);
                let sub = get_folder_size(&entries[i]);
                match sub {
                    Some(n) => {
                        if n > u64::MAX - total {
                            proof {
                                lemma_forest_size_prefix(entries@, i + 1);
                            }
                            return None;
                        }
                        total = total + n;
                    },
                    None => {
                        proof {
                            lemma_forest_size_prefix(entries@, i + 1);
                            lemma_forest_size_nonneg(entries@.take(i as int));
                        }
                        return None;
                    },
                }
                i = i + 1;
            }
            assert(entries@.take(entries@.len() as int) =~= entries@);
            Some(total)
        },
        DirTree::Other => Some(0),
    }
}

proof fn lemma_forest_size_prefix(ts: Seq<DirTree>, k: int)
    requires
        0 <= k <= ts.len(),
    ensures
        forest_size(ts.take(k)) <= forest_size(ts),
    decreases ts.len() - k,
{
    if k < ts.len() {
        lemma_forest_size_prefix(ts, k + 1);
        assert(ts.take(k + 1).drop_last() =~= ts.take(k));
        lemma_tree_size_nonneg(ts[k]);
    } else {
        assert(ts.take(k) =~= ts);
    }
}

/// Whether `after` is `before` with the tree `added` put into one of its
/// directories: `path` leads from `before` through the indices of the
/// entries to that directory, and its last index is where `added` stands
/// among that directory's entries. Every other entry stays as it was.
pub open spec fn added_at(before: DirTree, after: DirTree, path: Seq<int>, added: DirTree) -> bool
    decreases path.len(),
{
    match (before, after) {
        (DirTree::Dir(a), DirTree::Dir(b)) => {
            if path.len() == 1 {
                0 <= path[0] <= a@.len() && b@ == a@.insert(path[0], added)
            } else if path.len() > 1 {
                let i = path[0];
                &&& 0 <= i < a@.len()
                &&& b@.len() == a@.len()
                &&& forall|j: int| 0 <= j < a@.len() && j != i ==> #[trigger] b@[j] == a@[j]
                &&& added_at(a@[i], b@[i], path.drop_first(), added)
            } else {
                false
            }
        },
        _ => false,
    }
}

proof fn lemma_forest_size_concat(x: Seq<DirTree>, y: Seq<DirTree>)
    ensures
        forest_size(x + y) == forest_size(x) + forest_size(y),
    decreases y.len(),
{
    if y.len() == 0 {
        assert(x + y =~= x);
    } else {
        assert((x + y).drop_last() =~= x + y.drop_last());
        assert((x + y).last() == y.last());
        lemma_forest_size_concat(x, y.drop_last());
    }
}

proof fn lemma_forest_size_split(ts: Seq<DirTree>, i: int)
    requires
        0 <= i < ts.len(),
    ensures
        forest_size(ts) == forest_size(ts.take(i)) + tree_size(ts[i]) + forest_size(ts.skip(i + 1)),
{
    let one: Seq<DirTree> = seq![ts[i]];
    assert(one.drop_last() =~= Seq::<DirTree>::empty());
    assert(forest_size(one) == tree_size(ts[i])) by {
        assert(forest_size(one.drop_last()) == 0);
        assert(one.last() == ts[i]);
    }
    assert(ts =~= ts.take(i) + one + ts.skip(i + 1));
    lemma_forest_size_concat(ts.take(i) + one, ts.skip(i + 1));
    lemma_forest_size_concat(ts.take(i), one);
}

/// Law: putting a tree into a directory adds its size. Where `after` is
/// `before` with `added` put anywhere below it (in `before` itself or in
/// any directory under it), `after` holds exactly `tree_size(added)` more
/// bytes; for a new file of `n` bytes, or new directories that lead to
/// it, that is `n`. Read the other way, taking `added` out again gives the
/// old size back. `get_folder_size` answers exactly `tree_size`.
pub proof fn lemma_added_tree_adds_its_size(
    before: DirTree,
    after: DirTree,
    path: Seq<int>,
    added: DirTree,
)
    requires
        added_at(before, after, path, added),
    ensures
        tree_size(after) == tree_size(before) + tree_size(added),
    decreases path.len(),
{
    match (before, after) {
        (DirTree::Dir(a), DirTree::Dir(b)) => {
            if path.len() == 1 {
                let i = path[0];
                let one: Seq<DirTree> = seq![added];
                assert(one.drop_last() =~= Seq::<DirTree>::empty());
                assert(forest_size(one) == tree_size(added)) by {
                    assert(forest_size(one.drop_last()) == 0);
                    assert(one.last() == added);
                }
                assert(b@ =~= a@.take(i) + one + a@.skip(i));
                assert(a@ =~= a@.take(i) + a@.skip(i));
                lemma_forest_size_concat(a@.take(i) + one, a@.skip(i));
                lemma_forest_size_concat(a@.take(i), one);
                lemma_forest_size_concat(a@.take(i), a@.skip(i));
            } else {
                let i = path[0];
                lemma_added_tree_adds_its_size(a@[i], b@[i], path.drop_first(), added);
                lemma_forest_size_split(a@, i);
                lemma_forest_size_split(b@, i);
                assert(b@.take(i) =~= a@.take(i));
                assert(b@.skip(i + 1) =~= a@.skip(i + 1));
                assert(tree_size(before) == forest_size(a@));
                assert(tree_size(after) == forest_size(b@));
            }
        },
        _ => {},
    }
}

} // verus!

verus! {

/// The checks that a handler makes on the directory of a user before it
/// reads that directory, at `path`.
#[derive(Debug)]
pub struct DirProbe {
    pub steps: Vec<Step>,
    pub path: String,
}

/// `remaining_space` for the query `q`: the user's directory must exist
/// (otherwise the whole quota is available), and is then listed.
pub fn remaining_space(q: &StrMap) -> (r: Result<DirProbe, Reply>)
    ensures
        match r {
            Err(reply) => !q@.contains_key("email"@) && reply@ == text_reply(
                Status::BadRequest,
                "❌ Missing email"@,
            ),
            Ok(probe) => q@.contains_key("email"@) && probe.path@ == under_uploads(
                trimmed(q@["email"@]),
            ) && probe.steps@.map_values(|s: Step| s@) == seq![
                StepView::Exists {
                    path: probe.path@,
                    expected: true,
                    otherwise: text_reply(Status::Success, "✅ You have 500MB available."@),
                },
            ],
        },
{
    let email = match trimmed_param(q, "email") {
        Some(e) => e,
        None => return Err(Reply::text(Status::BadRequest, "❌ Missing email")),
    };
    let path = under_uploads_path(email.as_str());
    let mut steps: Vec<Step> = Vec::new();
    steps.push(
        Step::Exists {
            path: path.clone(),
            expected: true,
            otherwise: Reply::text(Status::Success, "✅ You have 500MB available."),
        },
    );
    let probe = DirProbe { steps, path };
    assert(probe.steps@.map_values(|s: Step| s@) =~= seq![
        StepView::Exists {
            path: probe.path@,
            expected: true,
            otherwise: text_reply(Status::Success, "✅ You have 500MB available."@),
        },
    ]);
    Ok(probe)
}

/// The sum of a list of sizes.
pub open spec fn sum_sizes(sizes: Seq<u64>) -> int
    decreases sizes.len(),
{
    if sizes.len() == 0 {
        0
    } else {
        sum_sizes(sizes.drop_last()) + sizes.last()
    }
}

proof fn lemma_sum_sizes_prefix(sizes: Seq<u64>, k: int)
    requires
        0 <= k <= sizes.len(),
    ensures
        sum_sizes(sizes.take(k)) <= sum_sizes(sizes),
    decreases sizes.len() - k,
{
    if k < sizes.len() {
        lemma_sum_sizes_prefix(sizes, k + 1);
        assert(sizes.take(k + 1).drop_last() =~= sizes.take(k));
    } else {
        assert(sizes.take(k) =~= sizes);
    }
}

/// The total of the sizes of the entries of a directory, or `None` where it
/// does not fit in a `u64`.
pub fn total_size(sizes: &Vec<u64>) -> (r: Option<u64>)
    ensures
        match r {
            Some(n) => n == sum_sizes(sizes@),
            None => sum_sizes(sizes@) > u64::MAX,
        },
{
    let mut total: u64 = 0;
    let mut i: usize = 0;
    while i < sizes.len()
        invariant
            i <= sizes@.len(),
            total == sum_sizes(sizes@.take(i as int)),
        decreases sizes@.len() - i,
    {
        assert(sizes@.take(i + 1).drop_last() =~= sizes@.take(i as int));
        if sizes[i] > u64::MAX - total {
            proof {
                lemma_sum_sizes_prefix(sizes@, i + 1);
            }
            return None;
        }
        total = total + sizes[i];
        i = i + 1;
    }
    assert(sizes@.take(sizes@.len() as int) =~= sizes@);
    Some(total)
}

/// `MAX_STORAGE_BYTES.saturating_sub(used)`: the bytes left under the quota.
pub fn remaining_bytes(used: u64) -> (r: u64)
    ensures
        r == (if used >= MAX_STORAGE_BYTES {
            0
        } else {
            MAX_STORAGE_BYTES - used
        }),
{
    if used >= MAX_STORAGE_BYTES {
        0
    } else {
        MAX_STORAGE_BYTES - used
    }
}

/// `storage_status` for the query `q`: the user's directory must exist,
/// and is then listed.
pub fn storage_status(q: &StrMap) -> (r: Result<DirProbe, Reply>)
    ensures
        match r {
            Err(reply) => !q@.contains_key("email"@) && reply@ == text_reply(
                Status::BadRequest,
                "❌ Missing email query parameter"@,
            ),
            Ok(probe) => q@.contains_key("email"@) && probe.path@ == under_uploads(
                trimmed(q@["email"@]),
            ) && probe.steps@.map_values(|s: Step| s@) == seq![
                StepView::Exists {
                    path: probe.path@,
                    expected: true,
                    otherwise: text_reply(Status::NotFound, "❌ User directory not found"@),
                },
            ],
        },
{
    let email = match trimmed_param(q, "email") {
        Some(e) => e,
        None => return Err(Reply::text(Status::BadRequest, "❌ Missing email query parameter")),
    };
    let path = under_uploads_path(email.as_str());
    let mut steps: Vec<Step> = Vec::new();
    steps.push(
        Step::Exists {
            path: path.clone(),
            expected: true,
            otherwise: Reply::text(Status::NotFound, "❌ User directory not found"),
        },
    );
    let probe = DirProbe { steps, path };
    assert(probe.steps@.map_values(|s: Step| s@) =~= seq![
        StepView::Exists {
            path: probe.path@,
            expected: true,
            otherwise: text_reply(Status::NotFound, "❌ User directory not found"@),
        },
    ]);
    Ok(probe)
}

/// What an entry of a user's directory is.
#[derive(Debug)]
pub enum EntryKind {
    /// A file of this length.
    File(u64),
    /// A folder, with what a walk of it found.
    Folder(DirTree),
    /// Its metadata could not be read, or it is neither a file nor a folder.
    Unknown,
}

/// An entry of a user's directory: its name, its path and what it is.
#[derive(Debug)]
pub struct StorageEntry {
    pub name: String,
    pub path: String,
    pub kind: EntryKind,
}

/// The description of an entry in the storage status.
#[derive(Debug)]
pub struct FileDetail {
    pub name: String,
    pub size_kb: u64,
    pub path: String,
    pub is_folder: bool,
}

impl View for FileDetail {
    type V = (Seq<char>, u64, Seq<char>, bool);

    open spec fn view(&self) -> (Seq<char>, u64, Seq<char>, bool) {
        (self.name@, self.size_kb, self.path@, self.is_folder)
    }
}

/// What the storage status counts of a user's directory: the bytes in it,
/// its files and folders, and the description of each of them.
#[derive(Debug)]
pub struct StorageSummary {
    pub total_bytes: u64,
    pub file_count: usize,
    pub folder_count: usize,
    pub items: Vec<FileDetail>,
}

/// The bytes that an entry holds.
pub open spec fn entry_bytes(k: EntryKind) -> int {
    match k {
        EntryKind::File(n) => n as int,
        EntryKind::Folder(t) => tree_size(t),
        EntryKind::Unknown => 0,
    }
}

/// The bytes that the entries hold.
pub open spec fn entries_bytes(es: Seq<StorageEntry>) -> int
    decreases es.len(),
{
    if es.len() == 0 {
        0
    } else {
        entries_bytes(es.drop_last()) + entry_bytes(es.last().kind)
    }
}

/// The number of entries that are files.
pub open spec fn count_files(es: Seq<StorageEntry>) -> int
    decreases es.len(),
{
    if es.len() == 0 {
        0
    } else {
        count_files(es.drop_last()) + if es.last().kind is File {
            1int
        } else {
            0int
        }
    }
}

/// The number of entries that are folders.
pub open spec fn count_folders(es: Seq<StorageEntry>) -> int
    decreases es.len(),
{
    if es.len() == 0 {
        0
    } else {
        count_folders(es.drop_last()) + if es.last().kind is Folder {
            1int
        } else {
            0int
        }
    }
}

/// The descriptions of the files and folders among the entries, in order:
/// name, size in whole KiB, path, and whether it is a folder.
pub open spec fn details(es: Seq<StorageEntry>) -> Seq<(Seq<char>, u64, Seq<char>, bool)>
    decreases es.len(),
{
    if es.len() == 0 {
        Seq::empty()
    } else {
        let rest = details(es.drop_last());
        let e = es.last();
        if e.kind is Unknown {
            rest
        } else {
            rest.push((e.name@, (entry_bytes(e.kind) / 1024) as u64, e.path@, e.kind is Folder))
        }
    }
}

proof fn lemma_entry_bytes_nonneg(k: EntryKind)
    ensures
        entry_bytes(k) >= 0,
{
    if let EntryKind::Folder(t) = k {
        lemma_tree_size_nonneg(t);
    }
}

proof fn lemma_entries_bytes_prefix(es: Seq<StorageEntry>, k: int)
    requires
        0 <= k <= es.len(),
    ensures
        entries_bytes(es.take(k)) <= entries_bytes(es),
        entries_bytes(es.take(k)) >= 0,
    decreases es.len() - k,
{
    if k < es.len() {
        lemma_entries_bytes_prefix(es, k + 1);
        assert(es.take(k + 1).drop_last() =~= es.take(k));
        lemma_entry_bytes_nonneg(es[k].kind);
        lemma_entries_bytes_nonneg(es.take(k));
    } else {
        assert(es.take(k) =~= es);
        lemma_entries_bytes_nonneg(es);
    }
}

proof fn lemma_entries_bytes_nonneg(es: Seq<StorageEntry>)
    ensures
        entries_bytes(es) >= 0,
    decreases es.len(),
{
    if es.len() > 0 {
        lemma_entries_bytes_nonneg(es.drop_last());
        lemma_entry_bytes_nonneg(es.last().kind);
    }
}

proof fn lemma_counts_bounded(es: Seq<StorageEntry>)
    ensures
        0 <= count_files(es) <= es.len(),
        0 <= count_folders(es) <= es.len(),
        count_files(es) + count_folders(es) == details(es).len(),
    decreases es.len(),
{
    if es.len() > 0 {
        lemma_counts_bounded(es.drop_last());
    }
}

/// The storage summary of the entries of a user's directory, or `None`
/// where the bytes they hold do not fit in a `u64`.
pub fn storage_summary(entries: &Vec<StorageEntry>) -> (r: Option<StorageSummary>)
    ensures
        match r {
            Some(s) => s.total_bytes == entries_bytes(entries@) && s.file_count == count_files(
                entries@,
            ) && s.folder_count == count_folders(entries@) && s.items@.map_values(
                |d: FileDetail| d@,
            ) == details(entries@),
            None => entries_bytes(entries@) > u64::MAX,
        },
{
    let mut total: u64 = 0;
    let mut files: usize = 0;
    let mut folders: usize = 0;
    let mut items: Vec<FileDetail> = Vec::new();
    let mut i: usize = 0;
    while i < entries.len()
        invariant
            i <= entries@.len(),
            total == entries_bytes(entries@.take(i as int)),
            files == count_files(entries@.take(i as int)),
            folders == count_folders(entries@.take(i as int)),
            items@.map_values(|d: FileDetail| d@) == details(entries@.take(i as int)),
        decreases entries@.len() - i,
    {
        let ghost prefix = entries@.take(i as int);
        assert(entries@.take(i + 1).drop_last() =~= prefix);
        assert(entries@.take(i + 1).last() == entries@[i as int]);
        proof {
            lemma_counts_bounded(prefix);
        }
        let e = &entries[i];
        let ghost before = items@;
        match &e.kind {
            EntryKind::File(n) => {
                if *n > u64::MAX - total {
                    proof {
                        lemma_entries_bytes_prefix(entries@, i + 1);
                    }
                    return None;
                }
                total = total + *n;
                files = files + 1;
                items.push(
                    FileDetail {
                        name: e.name.clone(),
                        size_kb: *n / 1024,
                        path: e.path.clone(),
                        is_folder: false,
                    },
                );
                assert(items@.map_values(|d: FileDetail| d@) =~= before.map_values(
                    |d: FileDetail| d@,
                ).push((e.name@, *n / 1024, e.path@, false)));
            },
            EntryKind::Folder(tree) => {
                let size = match get_folder_size(tree) {
                    Some(s) => s,
                    None => {
                        proof {
                            lemma_entries_bytes_prefix(entries@, i + 1);
                            lemma_entries_bytes_prefix(entries@, i as int);
                        }
                        return None;
                    },
                };
                if size > u64::MAX - total {
                    proof {
                        lemma_entries_bytes_prefix(entries@, i + 1);
                    }
                    return None;
                }
                total = total + size;
                folders = folders + 1;
                items.push(
                    FileDetail {
                        name: e.name.clone(),
                        size_kb: size / 1024,
                        path: e.path.clone(),
                        is_folder: true,
                    },
                );
                assert(items@.map_values(|d: FileDetail| d@) =~= before.map_values(
                    |d: FileDetail| d@,
                ).push((e.name@, size / 1024, e.path@, true)));
            },
            EntryKind::Unknown => {},
        }
        i = i + 1;
    }
    assert(entries@.take(entries@.len() as int) =~= entries@);
    Some(StorageSummary { total_bytes: total, file_count: files, folder_count: folders, items })
}

/// Law: the storage status lists each file and each folder of the
/// directory once: the two counts add up to the number of items.
pub proof fn lemma_status_counts_items(entries: Seq<StorageEntry>)
    ensures
        count_files(entries) + count_folders(entries) == details(entries).len(),
{
    lemma_counts_bounded(entries);
}

/// Law: the storage status counts files as files and folders as folders.
/// Its file count is the number of entries that are files, and the number
/// of listed items not marked as folders; its folder count is the number of
/// entries that are folders, and the number of listed items marked as
/// folders.
pub proof fn lemma_counts_follow_kinds(entries: Seq<StorageEntry>)
    ensures
        count_files(entries) == entries.filter(|e: StorageEntry| e.kind is File).len(),
        count_folders(entries) == entries.filter(|e: StorageEntry| e.kind is Folder).len(),
        count_files(entries) == details(entries).filter(
            |d: (Seq<char>, u64, Seq<char>, bool)| !d.3,
        ).len(),
        count_folders(entries) == details(entries).filter(
            |d: (Seq<char>, u64, Seq<char>, bool)| d.3,
        ).len(),
    decreases entries.len(),
{
    reveal(Seq::filter);
    if entries.len() > 0 {
        lemma_counts_follow_kinds(entries.drop_last());
        let rest = details(entries.drop_last());
        let e = entries.last();
        if !(e.kind is Unknown) {
            let d = (e.name@, (entry_bytes(e.kind) / 1024) as u64, e.path@, e.kind is Folder);
            assert(details(entries) == rest.push(d));
            assert(rest.push(d).drop_last() =~= rest);
            assert(rest.push(d).last() == d);
        }
    }
}

/// What the walk that measures a folder finds at an entry of the user's
/// directory: the file with its length, the folder's tree, or neither.
pub open spec fn entry_tree(k: EntryKind) -> DirTree {
    match k {
        EntryKind::File(n) => DirTree::File(n),
        EntryKind::Folder(t) => t,
        EntryKind::Unknown => DirTree::Other,
    }
}

/// Law: the bytes that the storage status totals are the bytes that
/// measuring the user's directory counts: where `trees` are what the walk
/// finds at the entries of the directory, in order, the status total is
/// the size of those trees together, which `get_folder_size` answers for
/// the directory.
pub proof fn lemma_status_total_is_folder_size(entries: Seq<StorageEntry>, trees: Seq<DirTree>)
    requires
        trees.len() == entries.len(),
        forall|i: int| 0 <= i < entries.len() ==> #[trigger] trees[i] == entry_tree(entries[i].kind),
    ensures
        entries_bytes(entries) == forest_size(trees),
    decreases entries.len(),
{
    if entries.len() > 0 {
        let n = entries.len() - 1;
        assert forall|i: int| 0 <= i < n implies #[trigger] trees.drop_last()[i] == entry_tree(
            entries.drop_last()[i].kind,
        ) by {
            assert(trees.drop_last()[i] == trees[i]);
            assert(entries.drop_last()[i] == entries[i]);
        }
        lemma_status_total_is_folder_size(entries.drop_last(), trees.drop_last());
        assert(trees.last() == entry_tree(entries.last().kind));
        assert(entry_bytes(entries.last().kind) == tree_size(trees.last()));
    }
}

/// Law: the storage status describes each file and each folder of the
/// directory, in order, and nothing else: its items are the entries that
/// are files or folders, each with its name, its bytes in whole KiB, its
/// path, and whether it is a folder.
pub proof fn lemma_details_describe_entries(entries: Seq<StorageEntry>)
    ensures
        details(entries) == entries.filter(|e: StorageEntry| !(e.kind is Unknown)).map_values(
            |e: StorageEntry|
                (e.name@, (entry_bytes(e.kind) / 1024) as u64, e.path@, e.kind is Folder),
        ),
    decreases entries.len(),
{
    reveal(Seq::filter);
    if entries.len() > 0 {
        lemma_details_describe_entries(entries.drop_last());
        let f = |e: StorageEntry| !(e.kind is Unknown);
        let g = |e: StorageEntry|
            (e.name@, (entry_bytes(e.kind) / 1024) as u64, e.path@, e.kind is Folder);
        let rest = entries.drop_last().filter(f);
        if f(entries.last()) {
            assert(entries.filter(f) == rest.push(entries.last()));
            assert(rest.push(entries.last()).map_values(g) =~= rest.map_values(g).push(
                g(entries.last()),
            ));
        } else {
            assert(entries.filter(f) == rest);
        }
    }
}

} // verus!
