use s4u_storage::files::{
    del_file_from_folder, delete_file, download_file, download_top_level, list_files_reply, share_file,
    share_folder,
};
use s4u_storage::pathname::{path_extension, path_parent};
use s4u_storage::plan::{Failure, Plan, Step};
use s4u_storage::reply::{Body, FileMeta, Reply, Status};
use s4u_storage::strmap::StrMap;

fn query(pairs: &[(&str, &str)]) -> StrMap {
    let mut q = StrMap::new();
    for (k, v) in pairs {
        q.insert(k.to_string(), v.to_string());
    }
    q
}

fn text(r: &Reply) -> (Status, String) {
    match &r.body {
        Body::Text(t) => (r.status, t.clone()),
        other => panic!("not a text body: {:?}", other),
    }
}

fn answer_only(p: &Plan) -> (Status, String) {
    assert!(p.steps.is_empty());
    text(&p.done)
}

#[test]
fn delete_file_checks_existence_first() {
    let p = delete_file("report.pdf");
    assert_eq!(p.steps.len(), 2);
    match &p.steps[0] {
        Step::Exists { path, expected, otherwise } => {
            assert_eq!(path, "./uploads//report.pdf");
            assert!(*expected);
            assert_eq!(text(otherwise), (Status::NotFound, "File not found".to_string()));
        }
        s => panic!("{:?}", s),
    }
    assert_eq!(text(&p.done), (Status::Success, "File deleted successfully".to_string()));
    let r = delete_file("report.pdf").failure_reply(1, "busy").unwrap();
    assert_eq!(text(&r), (Status::InternalServerError, "Failed to delete file.".to_string()));
}

#[test]
fn del_file_from_folder_plan() {
    assert_eq!(
        answer_only(&del_file_from_folder(&query(&[("email", "u")]))),
        (Status::BadRequest, "❌ Required: email and path".to_string())
    );
    let p = del_file_from_folder(&query(&[("email", "u"), ("path", " suraj/a.txt ")]));
    match &p.steps[1] {
        Step::RemoveFile { path, .. } => assert_eq!(path, "./uploads//u/suraj/a.txt"),
        s => panic!("{:?}", s),
    }
    assert_eq!(text(&p.done), (Status::Success, "✅ File 'suraj/a.txt' deleted".to_string()));
    let r = del_file_from_folder(&query(&[("email", "u"), ("path", "x")])).failure_reply(1, "denied").unwrap();
    assert_eq!(text(&r), (Status::InternalServerError, "❌ Failed to delete file: denied".to_string()));
}

#[test]
fn download_file_reads_from_the_user_directory() {
    assert_eq!(
        answer_only(&download_file("a.txt", &query(&[]))),
        (Status::BadRequest, "❌ Missing email query parameter".to_string())
    );
    let p = download_file("a.txt", &query(&[("email", " u ")]));
    match &p.steps[1] {
        Step::ReadFile { path, on_error } => {
            assert_eq!(path, "./uploads//u/a.txt");
            assert!(matches!(on_error, Failure::Answer { .. }));
        }
        s => panic!("{:?}", s),
    }
    assert_eq!(p.done.status, Status::Success);
    match &p.done.body {
        Body::Download(d) => assert_eq!(d, "attachment; filename=\"a.txt\""),
        b => panic!("{:?}", b),
    }
}

#[test]
fn top_level_download_unwraps_the_read() {
    let p = download_top_level("a.txt");
    match &p.steps[1] {
        Step::ReadFile { path, on_error } => {
            assert_eq!(path, "./uploads//a.txt");
            assert!(matches!(on_error, Failure::Abort));
        }
        s => panic!("{:?}", s),
    }
    assert!(download_top_level("a.txt").failure_reply(1, "gone").is_none());
}

#[test]
fn share_file_copies_into_shared_folder() {
    assert_eq!(
        answer_only(&share_file(&query(&[("from", "a"), ("to", "b")]))),
        (Status::BadRequest, "❌ Required: from, to, name".to_string())
    );
    let p = share_file(&query(&[("from", "a"), ("to", "b"), ("name", "n.txt")]));
    assert_eq!(p.steps.len(), 3);
    match &p.steps[1] {
        Step::CreateDirAll { path, .. } => assert_eq!(path, "./uploads//b/shared_from_a"),
        s => panic!("{:?}", s),
    }
    match &p.steps[2] {
        Step::CopyFile { from, to, .. } => {
            assert_eq!(from, "./uploads//a/n.txt");
            assert_eq!(to, "./uploads//b/shared_from_a/n.txt");
        }
        s => panic!("{:?}", s),
    }
    assert_eq!(text(&p.done), (Status::Success, "✅ File 'n.txt' shared".to_string()));
}

#[test]
fn share_folder_copies_into_the_target_parent() {
    let p = share_folder(&query(&[("from", "a"), ("to", "b"), ("folder", "pics")]));
    assert_eq!(p.steps.len(), 3);
    match &p.steps[1] {
        Step::CreateDirAll { path, .. } => assert_eq!(path, "./uploads//b"),
        s => panic!("{:?}", s),
    }
    match &p.steps[2] {
        Step::CopyDirInto { from, into, .. } => {
            assert_eq!(from, "./uploads//a/pics");
            assert_eq!(into, "./uploads//b");
        }
        s => panic!("{:?}", s),
    }
    assert_eq!(text(&p.done), (Status::Success, "✅ Folder shared successfully.".to_string()));
    assert_eq!(
        answer_only(&share_folder(&query(&[("from", "a"), ("to", ""), ("folder", "pics")]))),
        (Status::BadRequest, "❌ Missing required query parameters.".to_string())
    );
}

#[test]
fn path_parent_and_extension_follow_std() {
    assert_eq!(path_parent("./uploads//b/shared_from_a_pics"), Some("./uploads//b".to_string()));
    assert_eq!(path_parent("/"), None);
    assert_eq!(path_parent(""), None);
    assert_eq!(path_extension("photo.JPG"), Some("JPG".to_string()));
    assert_eq!(path_extension("archive.tar.gz"), Some("gz".to_string()));
    assert_eq!(path_extension(".bashrc"), None);
    assert_eq!(path_extension("README"), None);
    assert_eq!(path_extension("dir.v2/file"), None);
    assert_eq!(path_extension("../up/x.pdf"), Some("pdf".to_string()));
}

#[test]
fn list_files_reply_lists_or_fails() {
    let r = list_files_reply(Some(vec![FileMeta {
        filename: "a".to_string(),
        size: 3,
        path: "./uploads/a".to_string(),
    }]));
    assert_eq!(r.status, Status::Success);
    match r.body {
        Body::Files(f) => assert_eq!(f.len(), 1),
        b => panic!("{:?}", b),
    }
    assert_eq!(
        text(&list_files_reply(None)),
        (Status::InternalServerError, "Failed to read upload directory.".to_string())
    );
}
