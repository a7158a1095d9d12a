use s4u_storage::plan::Step;
use s4u_storage::reply::{Body, JsonValue, Status};
use s4u_storage::search::{contains, search_files_and_folders, search_results, to_lowercase, WalkEntry};
use s4u_storage::strmap::StrMap;

fn query(pairs: &[(&str, &str)]) -> StrMap {
    let mut q = StrMap::new();
    for (k, v) in pairs {
        q.insert(k.to_string(), v.to_string());
    }
    q
}

#[test]
fn contains_matches_str_contains() {
    for (h, n) in [("report.pdf", "port"), ("abc", ""), ("", "a"), ("aaa", "aaaa"), ("héllo", "éll"), ("abab", "bab")] {
        assert_eq!(contains(h, n), h.contains(n));
    }
}

#[test]
fn lowercase_follows_std() {
    assert_eq!(to_lowercase("ReSuMé.PDF"), "resumé.pdf");
}

#[test]
fn search_requires_email_and_query() {
    let e = search_files_and_folders(&query(&[("email", "u")])).unwrap_err();
    assert_eq!(e.status, Status::BadRequest);
    let p = search_files_and_folders(&query(&[("email", "u"), ("query", " Rep ")])).unwrap();
    assert_eq!(p.root, "./uploads//u");
    assert_eq!(p.term, "Rep");
    match &p.steps[0] {
        Step::Exists { otherwise, .. } => assert_eq!(otherwise.status, Status::NotFound),
        s => panic!("{:?}", s),
    }
}

#[test]
fn search_results_match_names_ignoring_case() {
    let entries = vec![
        WalkEntry { name: "u".to_string(), relative: Some("".to_string()) },
        WalkEntry { name: "Report.PDF".to_string(), relative: Some("docs/Report.PDF".to_string()) },
        WalkEntry { name: "photo.png".to_string(), relative: Some("photo.png".to_string()) },
        WalkEntry { name: "reports".to_string(), relative: None },
    ];
    let r = search_results("rEP", &entries);
    assert_eq!(r.status, Status::Success);
    match &r.body {
        Body::Json(m) => {
            assert_eq!(m.len(), 1);
            assert_eq!(m[0].0, "results");
            match &m[0].1 {
                JsonValue::List(l) => assert_eq!(l, &vec!["docs/Report.PDF".to_string()]),
                v => panic!("{:?}", v),
            }
        }
        b => panic!("{:?}", b),
    }
    let r = search_results("zzz", &entries);
    match &r.body {
        Body::Json(m) => {
            assert_eq!(m[0].0, "message");
            assert!(matches!(&m[0].1, JsonValue::Text(t) if t == "🔍 No matching files or folders found"));
        }
        b => panic!("{:?}", b),
    }
}

fn walk() -> Vec<WalkEntry> {
    vec![
        WalkEntry { name: "u".to_string(), relative: Some("".to_string()) },
        WalkEntry { name: "Report.PDF".to_string(), relative: Some("docs/Report.PDF".to_string()) },
        WalkEntry { name: "old_report.txt".to_string(), relative: Some("old_report.txt".to_string()) },
        WalkEntry { name: "photo.png".to_string(), relative: Some("photo.png".to_string()) },
    ]
}

fn searched(raw_term: &str) -> String {
    let p = search_files_and_folders(&query(&[("email", "u"), ("query", raw_term)])).unwrap();
    format!("{:?}", search_results(&p.term, &walk()))
}

fn found(raw_term: &str) -> Vec<String> {
    let p = search_files_and_folders(&query(&[("email", "u"), ("query", raw_term)])).unwrap();
    match search_results(&p.term, &walk()).body {
        Body::Json(members) => match &members[0].1 {
            JsonValue::List(v) => v.clone(),
            _ => vec![],
        },
        _ => vec![],
    }
}

#[test]
fn search_ignores_ascii_case_and_padding() {
    let plain = searched("report");
    assert_eq!(searched("REPORT"), plain);
    assert_eq!(searched(" report "), plain);
    assert_eq!(searched("  RePoRt\t"), plain);
    assert_eq!(found("report"), vec!["docs/Report.PDF".to_string(), "old_report.txt".to_string()]);
}

#[test]
fn longer_term_finds_no_more() {
    let short = found("rep");
    let long = found("report.pdf");
    assert_eq!(long, vec!["docs/Report.PDF".to_string()]);
    assert_eq!(found(" my Report.PDF "), Vec::<String>::new());
    assert_eq!(found(" Report.PDF "), long);
    for p in &long {
        assert!(short.contains(p));
    }
    assert_eq!(short.len(), 2);
}
