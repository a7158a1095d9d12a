use s4u_storage::folders::{create_folder, delete_folder, list_folders, list_folders_reply, rename_folder, FolderEntry};
use s4u_storage::plan::{Failure, Plan, Step};
use s4u_storage::reply::{Body, Reply, Status};
use s4u_storage::strmap::StrMap;

fn query(pairs: &[(&str, &str)]) -> StrMap {
    let mut q = StrMap::new();
    for (k, v) in pairs {
        q.insert(k.to_string(), v.to_string());
    }
    q
}

fn text(r: &Reply) -> (Status, String) {
    match &r.body {
        Body::Text(t) => (r.status, t.clone()),
        other => panic!("not a text body: {:?}", other),
    }
}

fn answer_only(p: &Plan) -> (Status, String) {
    assert!(p.steps.is_empty());
    text(&p.done)
}

fn error_text(f: &Failure) -> (Status, String, bool) {
    match f {
        Failure::Answer { status, text, with_error } => (*status, text.clone(), *with_error),
        Failure::Abort => panic!("abort"),
    }
}

#[test]
fn create_folder_needs_email_and_folder() {
    assert_eq!(
        answer_only(&create_folder(&query(&[("folder", "docs")]))),
        (Status::BadRequest, "Missing email".to_string())
    );
    assert_eq!(
        answer_only(&create_folder(&query(&[("email", "a@b.c")]))),
        (Status::BadRequest, "Missing folder name".to_string())
    );
}

#[test]
fn create_folder_plans_the_directory() {
    let p = create_folder(&query(&[("email", "a@b.c"), ("folder", "docs")]));
    assert_eq!(p.steps.len(), 1);
    match &p.steps[0] {
        Step::CreateDirAll { path, on_error } => {
            assert_eq!(path, "./uploads//a@b.c/docs");
            assert_eq!(
                error_text(on_error),
                (Status::InternalServerError, "❌ Failed to create folder: ".to_string(), true)
            );
        }
        s => panic!("{:?}", s),
    }
    assert_eq!(text(&p.done), (Status::Success, "✅ Folder 'docs' created".to_string()));
}

#[test]
fn create_folder_failure_reply_carries_the_error() {
    let p = create_folder(&query(&[("email", "a@b.c"), ("folder", "docs")]));
    let r = p.failure_reply(0, "permission denied").unwrap();
    assert_eq!(
        text(&r),
        (Status::InternalServerError, "❌ Failed to create folder: permission denied".to_string())
    );
}

#[test]
fn delete_folder_plan() {
    assert_eq!(
        answer_only(&delete_folder(&query(&[]))),
        (Status::BadRequest, "❌ Missing email".to_string())
    );
    assert_eq!(
        answer_only(&delete_folder(&query(&[("email", "u")]))),
        (Status::BadRequest, "❌ Missing folder name".to_string())
    );
    let p = delete_folder(&query(&[("email", "u"), ("folder", "old")]));
    match &p.steps[0] {
        Step::RemoveDirAll { path, .. } => assert_eq!(path, "./uploads//u/old"),
        s => panic!("{:?}", s),
    }
    assert_eq!(text(&p.done), (Status::Success, "✅ Folder deleted".to_string()));
}

#[test]
fn rename_folder_requires_non_blank_parameters() {
    let p = rename_folder(&query(&[("email", "u"), ("old", "a"), ("new", "   ")]));
    assert_eq!(
        answer_only(&p),
        (Status::BadRequest, "❌ Missing required query parameters.".to_string())
    );
}

#[test]
fn rename_folder_checks_then_renames() {
    let p = rename_folder(&query(&[("email", " u "), ("old", "a"), ("new", " b")]));
    assert_eq!(p.steps.len(), 3);
    match &p.steps[0] {
        Step::Exists { path, expected, otherwise } => {
            assert_eq!(path, "./uploads//u/a");
            assert!(*expected);
            assert_eq!(text(otherwise), (Status::BadRequest, "❌ Old folder does not exist.".to_string()));
        }
        s => panic!("{:?}", s),
    }
    match &p.steps[1] {
        Step::Exists { path, expected, otherwise } => {
            assert_eq!(path, "./uploads//u/b");
            assert!(!*expected);
            assert_eq!(
                text(otherwise),
                (Status::BadRequest, "❌ New folder name already exists.".to_string())
            );
        }
        s => panic!("{:?}", s),
    }
    match &p.steps[2] {
        Step::Rename { from, to, .. } => {
            assert_eq!(from, "./uploads//u/a");
            assert_eq!(to, "./uploads//u/b");
        }
        s => panic!("{:?}", s),
    }
    assert_eq!(text(&p.done), (Status::Success, "✅ Folder renamed to 'b'".to_string()));
}

#[test]
fn list_folders_keeps_directories_with_names() {
    assert_eq!(list_folders(&query(&[("email", "u")])).unwrap(), "./uploads//u");
    assert!(list_folders(&query(&[])).is_err());
    let r = list_folders_reply(Ok(vec![
        FolderEntry { name: Some("docs".to_string()), is_dir: true },
        FolderEntry { name: Some("a.txt".to_string()), is_dir: false },
        FolderEntry { name: None, is_dir: true },
        FolderEntry { name: Some("pics".to_string()), is_dir: true },
    ]));
    assert_eq!(r.status, Status::Success);
    match r.body {
        Body::Names(n) => assert_eq!(n, vec!["docs".to_string(), "pics".to_string()]),
        b => panic!("{:?}", b),
    }
    let r = list_folders_reply(Err("no such directory".to_string()));
    assert_eq!(
        text(&r),
        (Status::InternalServerError, "❌ Failed to list folders: no such directory".to_string())
    );
}

fn within(p: &str, root: &str) -> bool {
    p == root || (p.starts_with(root) && p[root.len()..].starts_with('/'))
}

/// Runs the existence checks and renames of a plan on an in-memory tree.
fn run_plan(fs: &mut std::collections::BTreeMap<String, String>, p: &Plan) -> (Status, String) {
    for s in &p.steps {
        match s {
            Step::Exists { path, expected, otherwise } => {
                if fs.contains_key(path) != *expected {
                    return text(otherwise);
                }
            }
            Step::Rename { from, to, .. } => {
                let moved: Vec<(String, String)> = fs
                    .iter()
                    .filter(|(k, _)| within(k, from))
                    .map(|(k, v)| (format!("{}{}", to, &k[from.len()..]), v.clone()))
                    .collect();
                fs.retain(|k, _| !within(k, from) && !within(k, to));
                fs.extend(moved);
            }
            other => panic!("{:?}", other),
        }
    }
    text(&p.done)
}

#[test]
fn renaming_a_folder_back_restores_the_tree() {
    let mut fs = std::collections::BTreeMap::new();
    for (k, v) in [
        ("./uploads", ""),
        ("./uploads//u", ""),
        ("./uploads//u/a", ""),
        ("./uploads//u/a/x.txt", "hello"),
        ("./uploads//u/ab", ""),
    ] {
        fs.insert(k.to_string(), v.to_string());
    }
    let before = fs.clone();
    let first = run_plan(&mut fs, &rename_folder(&query(&[("email", "u"), ("old", "a"), ("new", "b")])));
    assert_eq!(first, (Status::Success, "✅ Folder renamed to 'b'".to_string()));
    assert_eq!(fs.get("./uploads//u/b/x.txt"), Some(&"hello".to_string()));
    assert!(fs.contains_key("./uploads//u/ab"));
    let back = run_plan(&mut fs, &rename_folder(&query(&[("email", "u"), ("old", " b "), ("new", "a")])));
    assert_eq!(back, (Status::Success, "✅ Folder renamed to 'a'".to_string()));
    assert_eq!(fs, before);
}
