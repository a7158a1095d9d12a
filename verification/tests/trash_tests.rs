use s4u_storage::meta_json::{parse_string_map, render_string_map};
use s4u_storage::plan::{Plan, Step};
use s4u_storage::reply::{Body, Reply, Status};
use s4u_storage::strmap::StrMap;
use s4u_storage::trash::{
    finish_restore_file, finish_restore_folder, finish_trash, load_trash_index, move_file_to_trash,
    move_file_to_trash_at, restore_file, restore_folder, StoredMeta,
};

fn query(pairs: &[(&str, &str)]) -> StrMap {
    let mut q = StrMap::new();
    for (k, v) in pairs {
        q.insert(k.to_string(), v.to_string());
    }
    q
}

fn text(r: &Reply) -> (Status, String) {
    match &r.body {
        Body::Text(t) => (r.status, t.clone()),
        other => panic!("not a text body: {:?}", other),
    }
}

fn written(p: &Plan) -> (String, String) {
    match p.steps.last().unwrap() {
        Step::WriteFile { path, contents, .. } => (path.clone(), contents.clone()),
        s => panic!("{:?}", s),
    }
}

#[test]
fn trash_requires_email_and_name() {
    let r = move_file_to_trash_at(&query(&[("email", "u")]), 5).unwrap_err();
    assert_eq!(text(&r), (Status::BadRequest, "❌ Required: email and file name".to_string()));
}

#[test]
fn trash_moves_under_a_timestamped_name() {
    let mv = move_file_to_trash_at(&query(&[("email", "u"), ("name", "a.txt")]), 1700000000).unwrap();
    assert_eq!(mv.trashed_name, "a.txt_1700000000");
    assert_eq!(mv.original_name, "a.txt");
    assert_eq!(mv.meta_path, "./uploads//u/trash/.trash_meta.json");
    assert_eq!(mv.steps.len(), 3);
    match &mv.steps[1] {
        Step::CreateDirAll { path, .. } => assert_eq!(path, "./uploads//u/trash"),
        s => panic!("{:?}", s),
    }
    match &mv.steps[2] {
        Step::Rename { from, to, .. } => {
            assert_eq!(from, "./uploads//u/a.txt");
            assert_eq!(to, "./uploads//u/trash/a.txt_1700000000");
        }
        s => panic!("{:?}", s),
    }
}

#[test]
fn trash_now_uses_the_clock() {
    let mv = move_file_to_trash(&query(&[("email", "u"), ("name", "a.txt")])).unwrap();
    let stamp: i64 = mv.trashed_name["a.txt_".len()..].parse().unwrap();
    assert!((stamp - chrono::Utc::now().timestamp()).abs() < 60);
}

#[test]
fn finishing_a_trash_move_records_it() {
    let mv = move_file_to_trash_at(&query(&[("email", "u"), ("name", "a.txt")]), 42).unwrap();
    let p = finish_trash(mv, &StoredMeta::Text("{\"old_1\": \"old\"}".to_string()));
    let (path, contents) = written(&p);
    assert_eq!(path, "./uploads//u/trash/.trash_meta.json");
    let back: std::collections::HashMap<String, String> = serde_json::from_str(&contents).unwrap();
    assert_eq!(back.len(), 2);
    assert_eq!(back["a.txt_42"], "a.txt");
    assert_eq!(back["old_1"], "old");
    assert_eq!(text(&p.done), (Status::Success, "✅ File 'a.txt' moved to trash".to_string()));
}

#[test]
fn unreadable_or_broken_index_counts_as_empty() {
    assert_eq!(load_trash_index(&StoredMeta::Absent).len(), 0);
    assert_eq!(load_trash_index(&StoredMeta::Unreadable).len(), 0);
    assert_eq!(load_trash_index(&StoredMeta::Text("not json".to_string())).len(), 0);
    let m = load_trash_index(&StoredMeta::Text("{\"a_1\":\"a\",\"b_2\":\"b\"}".to_string()));
    assert_eq!(m.get("b_2"), Some("b".to_string()));
}

#[test]
fn json_index_round_trip() {
    let entries = parse_string_map("{\"x\": \"1\", \"y\": \"2\"}").unwrap();
    assert_eq!(entries.len(), 2);
    let text = render_string_map(&entries).unwrap();
    assert_eq!(text, "{\n  \"x\": \"1\",\n  \"y\": \"2\"\n}");
    assert!(parse_string_map("[1, 2]").is_none());
}

#[test]
fn restore_file_plan() {
    let e = restore_file(&query(&[("email", "u")])).unwrap_err();
    assert_eq!(text(&e), (Status::BadRequest, "❌ Required: email and name (trashed name)".to_string()));
    let rs = restore_file(&query(&[("email", "u"), ("name", "a.txt_42")])).unwrap();
    match &rs.steps[0] {
        Step::Exists { path, .. } => assert_eq!(path, "./uploads//u/trash/a.txt_42"),
        s => panic!("{:?}", s),
    }
    let p = finish_restore_file(rs, &StoredMeta::Text("{\"a.txt_42\":\"a.txt\",\"b_1\":\"b\"}".to_string()));
    match &p.steps[0] {
        Step::Rename { from, to, .. } => {
            assert_eq!(from, "./uploads//u/trash/a.txt_42");
            assert_eq!(to, "./uploads//u/a.txt");
        }
        s => panic!("{:?}", s),
    }
    let (_, contents) = written(&p);
    assert_eq!(contents, "{\n  \"b_1\": \"b\"\n}");
    assert_eq!(text(&p.done), (Status::Success, "✅ File 'a.txt' restored successfully".to_string()));
}

#[test]
fn restore_file_without_index_or_entry() {
    let rs = restore_file(&query(&[("email", "u"), ("name", "a")])).unwrap();
    let p = finish_restore_file(rs, &StoredMeta::Absent);
    assert!(p.steps.is_empty());
    assert_eq!(text(&p.done), (Status::InternalServerError, "❌ Trash metadata not found".to_string()));
    let rs = restore_file(&query(&[("email", "u"), ("name", "a")])).unwrap();
    let p = finish_restore_file(rs, &StoredMeta::Unreadable);
    assert_eq!(
        text(&p.done),
        (Status::BadRequest, "❌ Original filename not found in metadata".to_string())
    );
}

#[test]
fn restore_folder_plan() {
    let rs = restore_folder(&query(&[("email", "u"), ("name", "pics_9")])).unwrap();
    assert!(rs.steps.is_empty());
    let p = finish_restore_folder(rs, &StoredMeta::Text("{\"pics_9\":\"pics\"}".to_string()));
    match &p.steps[0] {
        Step::Rename { from, to, .. } => {
            assert_eq!(from, "./uploads//u/trash/pics_9");
            assert_eq!(to, "./uploads//u/pics");
        }
        s => panic!("{:?}", s),
    }
    let (_, contents) = written(&p);
    assert_eq!(contents, "{}");
    assert_eq!(text(&p.done), (Status::Success, "✅ Folder 'pics' restored".to_string()));
    let rs = restore_folder(&query(&[("email", "u"), ("name", "none")])).unwrap();
    let p = finish_restore_folder(rs, &StoredMeta::Absent);
    assert_eq!(text(&p.done), (Status::BadRequest, "❌ Folder not found in trash".to_string()));
    let e = restore_folder(&query(&[("name", "x")])).unwrap_err();
    assert_eq!(text(&e), (Status::BadRequest, "❌ Required: email and trashed folder name".to_string()));
}

#[test]
fn trash_then_restore_returns_the_file() {
    let mv = move_file_to_trash_at(&query(&[("email", "u"), ("name", "n.md")]), 7).unwrap();
    let trashed = mv.trashed_name.clone();
    let p = finish_trash(mv, &StoredMeta::Absent);
    let (_, index_text) = written(&p);
    let rs = restore_file(&query(&[("email", "u"), ("name", &trashed)])).unwrap();
    let p = finish_restore_file(rs, &StoredMeta::Text(index_text));
    match &p.steps[0] {
        Step::Rename { to, .. } => assert_eq!(to, "./uploads//u/n.md"),
        s => panic!("{:?}", s),
    }
    let (_, after) = written(&p);
    assert_eq!(after, "{}");
}

#[test]
fn trashing_at_different_times_gives_different_names() {
    let q = query(&[("email", "u"), ("name", "a")]);
    let a = move_file_to_trash_at(&q, 10).unwrap().trashed_name;
    let b = move_file_to_trash_at(&q, 1).unwrap().trashed_name;
    let c = move_file_to_trash_at(&q, -10).unwrap().trashed_name;
    assert_eq!(a, "a_10");
    assert_eq!(c, "a_-10");
    assert_ne!(a, b);
    assert_ne!(a, c);
}

#[test]
fn rendered_index_reads_back_with_escapes() {
    let entries = vec![
        ("q\"uote_1".to_string(), "back\\slash".to_string()),
        ("naïve 名前.txt_2".to_string(), "tab\there\nline".to_string()),
    ];
    let text = render_string_map(&entries).unwrap();
    let back = parse_string_map(&text).unwrap();
    let mut want = entries.clone();
    want.sort();
    assert_eq!(back, want);
}
