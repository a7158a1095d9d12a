use s4u_storage::plan::Step;
use s4u_storage::reply::{Body, Status};
use s4u_storage::storage::MAX_STORAGE_BYTES;
use s4u_storage::strmap::StrMap;
use s4u_storage::upload::{new_upload_id, upload, upload_folder, UploadAction, UploadEvent, UploadSession};

fn query(pairs: &[(&str, &str)]) -> StrMap {
    let mut q = StrMap::new();
    for (k, v) in pairs {
        q.insert(k.to_string(), v.to_string());
    }
    q
}

fn answer(a: &UploadAction) -> (Status, String) {
    match a {
        UploadAction::Answer(r) => match &r.body {
            Body::Text(t) => (r.status, t.clone()),
            b => panic!("{:?}", b),
        },
        other => panic!("not an answer: {:?}", other),
    }
}

fn session(q: &StrMap) -> UploadSession {
    upload(q).unwrap().session
}

#[test]
fn upload_needs_email() {
    let e = upload(&query(&[])).unwrap_err();
    assert_eq!(e.status, Status::BadRequest);
    let start = upload(&query(&[("email", " u ")])).unwrap();
    assert_eq!(start.init_dir, "./uploads/u");
    assert!(start.steps.is_empty());
}

#[test]
fn upload_stores_the_first_field() {
    let mut s = session(&query(&[("email", "u")]));
    let a = s.step_with_id(UploadEvent::Field(Some("photo.png".to_string())), "id1");
    assert!(matches!(&a, UploadAction::MeasureFolder(p) if p == "./uploads//u"));
    let a = s.step_with_id(UploadEvent::FolderSize(1000), "unused");
    assert!(matches!(&a, UploadAction::CreateFile(p) if p == "./uploads//u/id1.png"));
    let a = s.step_with_id(UploadEvent::Created, "unused");
    assert!(matches!(a, UploadAction::ReadChunk));
    let a = s.step_with_id(UploadEvent::Chunk(10), "unused");
    assert!(matches!(a, UploadAction::WriteChunk));
    let a = s.step_with_id(UploadEvent::Written, "unused");
    assert!(matches!(a, UploadAction::ReadChunk));
    let a = s.step_with_id(UploadEvent::EndOfField, "unused");
    assert_eq!(answer(&a), (Status::Success, "✅ File uploaded to: ./uploads//u/id1.png".to_string()));
    assert!(s.is_done());
}

#[test]
fn upload_without_extension_is_bin() {
    let mut s = session(&query(&[("email", "u")]));
    s.step_with_id(UploadEvent::Field(Some("README".to_string())), "id2");
    let a = s.step_with_id(UploadEvent::FolderSize(0), "x");
    assert!(matches!(&a, UploadAction::CreateFile(p) if p == "./uploads//u/id2.bin"));
}

#[test]
fn upload_refuses_a_full_store() {
    let mut s = session(&query(&[("email", "u")]));
    s.step_with_id(UploadEvent::Field(Some("a.txt".to_string())), "id");
    let a = s.step_with_id(UploadEvent::FolderSize(MAX_STORAGE_BYTES), "x");
    assert_eq!(answer(&a), (Status::Forbidden, "❌ Storage limit (500MB) reached.".to_string()));
}

#[test]
fn upload_refuses_a_chunk_over_the_quota() {
    let mut s = session(&query(&[("email", "u")]));
    s.step_with_id(UploadEvent::Field(Some("a.txt".to_string())), "id");
    s.step_with_id(UploadEvent::FolderSize(MAX_STORAGE_BYTES - 100), "x");
    s.step_with_id(UploadEvent::Created, "x");
    assert!(matches!(s.step_with_id(UploadEvent::Chunk(60), "x"), UploadAction::WriteChunk));
    s.step_with_id(UploadEvent::Written, "x");
    assert!(matches!(s.step_with_id(UploadEvent::Chunk(40), "x"), UploadAction::WriteChunk));
    s.step_with_id(UploadEvent::Written, "x");
    match s.step_with_id(UploadEvent::Chunk(1), "x") {
        UploadAction::RemoveAndAnswer(path, r) => {
            assert_eq!(path, "./uploads//u/id.txt");
            assert_eq!(r.status, Status::Forbidden);
            assert!(matches!(&r.body, Body::Text(t) if t == "❌ Upload exceeds 500MB limit."));
        }
        a => panic!("{:?}", a),
    }
}

#[test]
fn upload_failures_are_answered() {
    let mut s = session(&query(&[("email", "u")]));
    assert_eq!(answer(&s.step_with_id(UploadEvent::NoField, "x")), (Status::BadRequest, "⚠️ No file uploaded.".to_string()));
    let mut s = session(&query(&[("email", "u")]));
    assert_eq!(answer(&s.step_with_id(UploadEvent::FieldError, "x")), (Status::BadRequest, "Error processing the file.".to_string()));
    let mut s = session(&query(&[("email", "u")]));
    assert_eq!(answer(&s.step_with_id(UploadEvent::Field(None), "x")), (Status::BadRequest, "❌ Missing filename.".to_string()));
    let mut s = session(&query(&[("email", "u")]));
    s.step_with_id(UploadEvent::Field(Some("a".to_string())), "i");
    s.step_with_id(UploadEvent::FolderSize(0), "x");
    assert_eq!(answer(&s.step_with_id(UploadEvent::CreateFailed, "x")), (Status::InternalServerError, "File creation failed.".to_string()));
    let mut s = session(&query(&[("email", "u")]));
    s.step_with_id(UploadEvent::Field(Some("a".to_string())), "i");
    s.step_with_id(UploadEvent::FolderSize(0), "x");
    s.step_with_id(UploadEvent::Created, "x");
    assert_eq!(answer(&s.step_with_id(UploadEvent::ChunkError, "x")), (Status::InternalServerError, "Error reading file.".to_string()));
    let mut s = session(&query(&[("email", "u")]));
    s.step_with_id(UploadEvent::Field(Some("a".to_string())), "i");
    s.step_with_id(UploadEvent::FolderSize(0), "x");
    s.step_with_id(UploadEvent::Created, "x");
    s.step_with_id(UploadEvent::Chunk(3), "x");
    assert_eq!(answer(&s.step_with_id(UploadEvent::WriteFailed, "x")), (Status::InternalServerError, "File upload failed.".to_string()));
}

#[test]
fn upload_folder_joins_paths() {
    let start = upload_folder(&query(&[("email", "u"), ("subfolder", " docs ")])).unwrap();
    match &start.steps[0] {
        Step::CreateDirAll { path, .. } => assert_eq!(path, "./uploads/u/docs"),
        s => panic!("{:?}", s),
    }
    let mut s = start.session;
    s.step_with_id(UploadEvent::Field(Some("a.pdf".to_string())), "id");
    let a = s.step_with_id(UploadEvent::FolderSize(0), "x");
    assert!(matches!(&a, UploadAction::CreateFile(p) if p == "./uploads/u/docs/id.pdf"));
    let start = upload_folder(&query(&[("email", "u")])).unwrap();
    match &start.steps[0] {
        Step::CreateDirAll { path, .. } => assert_eq!(path, "./uploads/u"),
        s => panic!("{:?}", s),
    }
    let start = upload_folder(&query(&[("email", "u"), ("subfolder", "/abs")])).unwrap();
    match &start.steps[0] {
        Step::CreateDirAll { path, .. } => assert_eq!(path, "/abs"),
        s => panic!("{:?}", s),
    }
}

#[test]
fn upload_folder_paths_match_pathbuf() {
    for (email, sub) in [("u", "docs"), ("u", ""), ("a/b", "c/"), ("u", "/x")] {
        let start = upload_folder(&query(&[("email", email), ("subfolder", sub)])).unwrap();
        let mut expected = std::path::PathBuf::from("./uploads/");
        expected.push(email);
        if !sub.is_empty() {
            expected.push(sub);
        }
        match &start.steps[0] {
            Step::CreateDirAll { path, .. } => assert_eq!(path, expected.to_str().unwrap()),
            s => panic!("{:?}", s),
        }
    }
}

#[test]
fn upload_ids_are_hyphenated_uuids() {
    let id = new_upload_id();
    assert_eq!(id.len(), 36);
    for (i, c) in id.chars().enumerate() {
        if [8, 13, 18, 23].contains(&i) {
            assert_eq!(c, '-');
        } else {
            assert!(c.is_ascii_digit() || ('a'..='f').contains(&c));
        }
    }
    assert_ne!(new_upload_id(), id);
}

#[test]
fn step_names_new_files_after_a_fresh_id() {
    let mut s = session(&query(&[("email", "u")]));
    s.step(UploadEvent::Field(Some("x.gif".to_string())));
    match s.step(UploadEvent::FolderSize(0)) {
        UploadAction::CreateFile(p) => {
            assert!(p.starts_with("./uploads//u/"));
            assert!(p.ends_with(".gif"));
            assert_eq!(p.len(), "./uploads//u/".len() + 36 + 4);
        }
        a => panic!("{:?}", a),
    }
}

#[test]
fn download_reads_the_uploaded_file() {
    let mut s = session(&query(&[("email", "u@x")]));
    s.step_with_id(UploadEvent::Field(Some("notes.txt".to_string())), "abc");
    let created = match s.step_with_id(UploadEvent::FolderSize(0), "x") {
        UploadAction::CreateFile(p) => p,
        a => panic!("{:?}", a),
    };
    let plan = s4u_storage::files::download_file("abc.txt", &query(&[("email", " u@x ")]));
    match &plan.steps[1] {
        Step::ReadFile { path, .. } => assert_eq!(path, &created),
        s => panic!("{:?}", s),
    }
}
