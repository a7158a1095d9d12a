use s4u_storage::plan::Step;
use s4u_storage::reply::{Body, Status};
use s4u_storage::storage::{
    get_folder_size, remaining_bytes, remaining_space, storage_status, storage_summary, total_size, DirTree,
    EntryKind, StorageEntry, MAX_STORAGE_BYTES,
};
use s4u_storage::strmap::StrMap;

fn query(pairs: &[(&str, &str)]) -> StrMap {
    let mut q = StrMap::new();
    for (k, v) in pairs {
        q.insert(k.to_string(), v.to_string());
    }
    q
}

#[test]
fn quota_is_five_hundred_mebibytes() {
    assert_eq!(MAX_STORAGE_BYTES, 500 * 1024 * 1024);
}

#[test]
fn folder_size_sums_the_tree() {
    let tree = DirTree::Dir(vec![
        DirTree::File(10),
        DirTree::Other,
        DirTree::Dir(vec![DirTree::File(5), DirTree::Dir(vec![])]),
        DirTree::File(1),
    ]);
    assert_eq!(get_folder_size(&tree), Some(16));
    assert_eq!(get_folder_size(&DirTree::Other), Some(0));
    assert_eq!(get_folder_size(&DirTree::Dir(vec![DirTree::File(u64::MAX), DirTree::File(1)])), None);
}

#[test]
fn totals_and_remaining_space() {
    assert_eq!(total_size(&vec![1, 2, 3]), Some(6));
    assert_eq!(total_size(&vec![]), Some(0));
    assert_eq!(total_size(&vec![u64::MAX, 1]), None);
    assert_eq!(remaining_bytes(0), MAX_STORAGE_BYTES);
    assert_eq!(remaining_bytes(100), MAX_STORAGE_BYTES - 100);
    assert_eq!(remaining_bytes(MAX_STORAGE_BYTES + 1), 0);
}

#[test]
fn remaining_space_probe() {
    let e = remaining_space(&query(&[])).unwrap_err();
    assert_eq!(e.status, Status::BadRequest);
    let p = remaining_space(&query(&[("email", " u ")])).unwrap();
    assert_eq!(p.path, "./uploads//u");
    match &p.steps[0] {
        Step::Exists { otherwise, .. } => {
            assert_eq!(otherwise.status, Status::Success);
            assert!(matches!(&otherwise.body, Body::Text(t) if t == "✅ You have 500MB available."));
        }
        s => panic!("{:?}", s),
    }
}

#[test]
fn storage_status_probe() {
    let e = storage_status(&query(&[])).unwrap_err();
    assert!(matches!(&e.body, Body::Text(t) if t == "❌ Missing email query parameter"));
    let p = storage_status(&query(&[("email", "u")])).unwrap();
    match &p.steps[0] {
        Step::Exists { otherwise, .. } => assert_eq!(otherwise.status, Status::NotFound),
        s => panic!("{:?}", s),
    }
}

#[test]
fn summary_counts_files_and_folders() {
    let entries = vec![
        StorageEntry { name: "a.bin".to_string(), path: "./uploads//u/a.bin".to_string(), kind: EntryKind::File(4096) },
        StorageEntry { name: "odd".to_string(), path: "./uploads//u/odd".to_string(), kind: EntryKind::Unknown },
        StorageEntry {
            name: "pics".to_string(),
            path: "./uploads//u/pics".to_string(),
            kind: EntryKind::Folder(DirTree::Dir(vec![DirTree::File(1500), DirTree::File(100)])),
        },
    ];
    let s = storage_summary(&entries).unwrap();
    assert_eq!(s.total_bytes, 5696);
    assert_eq!(s.file_count, 1);
    assert_eq!(s.folder_count, 1);
    assert_eq!(s.items.len(), 2);
    assert_eq!(s.items[0].size_kb, 4);
    assert!(!s.items[0].is_folder);
    assert_eq!(s.items[1].name, "pics");
    assert_eq!(s.items[1].size_kb, 1);
    assert!(s.items[1].is_folder);
    let big = vec![
        StorageEntry { name: "x".to_string(), path: "x".to_string(), kind: EntryKind::File(u64::MAX) },
        StorageEntry { name: "y".to_string(), path: "y".to_string(), kind: EntryKind::File(1) },
    ];
    assert!(storage_summary(&big).is_none());
}

#[test]
fn adding_a_file_adds_its_length() {
    let before = DirTree::Dir(vec![
        DirTree::File(10),
        DirTree::Dir(vec![DirTree::File(5)]),
    ]);
    let after = DirTree::Dir(vec![
        DirTree::File(10),
        DirTree::Dir(vec![DirTree::File(5), DirTree::Dir(vec![DirTree::File(7)])]),
    ]);
    assert_eq!(get_folder_size(&before), Some(15));
    assert_eq!(get_folder_size(&after), Some(22));
    let top = DirTree::Dir(vec![DirTree::File(3), DirTree::File(10), DirTree::Dir(vec![DirTree::File(5)])]);
    assert_eq!(get_folder_size(&top), Some(18));
}
