//! Folders of a user: create, delete, rename and list them.

use vstd::prelude::*;
use crate::paths::{in_user_dir, in_user_dir_path, under_uploads, under_uploads_path};
use crate::plan::{
    Plan, PlanView, Step, StepView, answer_view, fail_with_error, fails_with_error,
    lemma_rename_back, parents_exist, run_checks_and_renames, within,
};
use crate::query::{param, param_or_empty};
use crate::reply::{Body, BodyView, Reply, ReplyView, Status, strings_view, text_reply};
use crate::strmap::StrMap;
use crate::text::concat3;

verus! {

/// The plan of `create_folder` for the query `q`.
pub open spec fn create_folder_plan(q: Map<Seq<char>, Seq<char>>) -> PlanView {
    if !q.contains_key("email"@) {
        answer_view(text_reply(Status::BadRequest, "Missing email"@))
    } else if !q.contains_key("folder"@) {
        answer_view(text_reply(Status::BadRequest, "Missing folder name"@))
    } else {
        let folder = q["folder"@];
        PlanView {
            steps: seq![
                StepView::CreateDirAll {
                    path: in_user_dir(q["email"@], folder),
                    on_error: fails_with_error(
                        Status::InternalServerError,
                        "❌ Failed to create folder: "@,
                    ),
                },
            ],
            done: text_reply(Status::Success, "✅ Folder '"@ + folder + "' created"@),
        }
    }
}

/// Creates the folder `folder` (with its parents) in the directory of the
/// user `email`.
pub fn create_folder(q: &StrMap) -> (p: Plan)
    ensures
        p@ == create_folder_plan(q@),
{
    let email = match q.get("email") {
        Some(e) => e,
        None => return Plan::answer(Reply::text(Status::BadRequest, "Missing email")),
    };
    let folder = match q.get("folder") {
        Some(f) => f,
        None => return Plan::answer(Reply::text(Status::BadRequest, "Missing folder name")),
    };
    let path = in_user_dir_path(email.as_str(), folder.as_str());
    let done = Reply::owned_text(Status::Success, concat3("✅ Folder '", folder.as_str(), "' created"));
    let mut steps: Vec<Step> = Vec::new();
    steps.push(
        Step::CreateDirAll {
            path,
            on_error: fail_with_error(Status::InternalServerError, "❌ Failed to create folder: "),
        },
    );
    let p = Plan { steps, done };
    assert(p@.steps =~= create_folder_plan(q@).steps);
    p
}

/// The plan of `delete_folder` for the query `q`.
pub open spec fn delete_folder_plan(q: Map<Seq<char>, Seq<char>>) -> PlanView {
    if !q.contains_key("email"@) {
        answer_view(text_reply(Status::BadRequest, "❌ Missing email"@))
    } else if !q.contains_key("folder"@) {
        answer_view(text_reply(Status::BadRequest, "❌ Missing folder name"@))
    } else {
        PlanView {
            steps: seq![
                StepView::RemoveDirAll {
                    path: in_user_dir(q["email"@], q["folder"@]),
                    on_error: fails_with_error(Status::InternalServerError, "❌ Delete failed: "@),
                },
            ],
            done: text_reply(Status::Success, "✅ Folder deleted"@),
        }
    }
}

/// Deletes the folder `folder` of the user `email`, with all it holds.
pub fn delete_folder(q: &StrMap) -> (p: Plan)
    ensures
        p@ == delete_folder_plan(q@),
{
    let email = match q.get("email") {
        Some(e) => e,
        None => return Plan::answer(Reply::text(Status::BadRequest, "❌ Missing email")),
    };
    let folder = match q.get("folder") {
        Some(f) => f,
        None => return Plan::answer(Reply::text(Status::BadRequest, "❌ Missing folder name")),
    };
    let path = in_user_dir_path(email.as_str(), folder.as_str());
    let mut steps: Vec<Step> = Vec::new();
    steps.push(
        Step::RemoveDirAll {
            path,
            on_error: fail_with_error(Status::InternalServerError, "❌ Delete failed: "),
        },
    );
    let p = Plan { steps, done: Reply::text(Status::Success, "✅ Folder deleted") };
    assert(p@.steps =~= delete_folder_plan(q@).steps);
    p
}

/// The plan of `rename_folder` for the query `q`.
pub open spec fn rename_folder_plan(q: Map<Seq<char>, Seq<char>>) -> PlanView {
    let email = param(q, "email"@);
    let old = param(q, "old"@);
    let new = param(q, "new"@);
    if email.len() == 0 || old.len() == 0 || new.len() == 0 {
        answer_view(text_reply(Status::BadRequest, "❌ Missing required query parameters."@))
    } else {
        let old_path = in_user_dir(email, old);
        let new_path = in_user_dir(email, new);
        PlanView {
            steps: seq![
                StepView::Exists {
                    path: old_path,
                    expected: true,
                    otherwise: text_reply(Status::BadRequest, "❌ Old folder does not exist."@),
                },
                StepView::Exists {
                    path: new_path,
                    expected: false,
                    otherwise: text_reply(
                        Status::BadRequest,
                        "❌ New folder name already exists."@,
                    ),
                },
                StepView::Rename {
                    from: old_path,
                    to: new_path,
                    on_error: fails_with_error(Status::InternalServerError, "❌ Rename failed: "@),
                },
            ],
            done: text_reply(Status::Success, "✅ Folder renamed to '"@ + new + "'"@),
        }
    }
}

/// Renames the folder `old` of the user `email` to `new`, where `old`
/// exists and `new` does not.
pub fn rename_folder(q: &StrMap) -> (p: Plan)
    ensures
        p@ == rename_folder_plan(q@),
{
    let email = param_or_empty(q, "email");
    let old = param_or_empty(q, "old");
    let new = param_or_empty(q, "new");
    if email.as_str().is_empty() || old.as_str().is_empty() || new.as_str().is_empty() {
        return Plan::answer(
            Reply::text(Status::BadRequest, "❌ Missing required query parameters."),
        );
    }
    let old_path = in_user_dir_path(email.as_str(), old.as_str());
    let new_path = in_user_dir_path(email.as_str(), new.as_str());
    let mut steps: Vec<Step> = Vec::new();
    steps.push(
        Step::Exists {
            path: old_path.clone(),
            expected: true,
            otherwise: Reply::text(Status::BadRequest, "❌ Old folder does not exist."),
        },
    );
    steps.push(
        Step::Exists {
            path: new_path.clone(),
            expected: false,
            otherwise: Reply::text(Status::BadRequest, "❌ New folder name already exists."),
        },
    );
    steps.push(
        Step::Rename {
            from: old_path,
            to: new_path,
            on_error: fail_with_error(Status::InternalServerError, "❌ Rename failed: "),
        },
    );
    let done = Reply::owned_text(Status::Success, concat3("✅ Folder renamed to '", new.as_str(), "'"));
    let p = Plan { steps, done };
    assert(p@.steps =~= rename_folder_plan(q@).steps);
    p
}

/// Law: renaming a folder back undoes the rename. Where `rename_folder`
/// for `q1` (user `e`, folder `a` renamed to `b`) answered 200 on `fs`, which
/// has the parents of every path it holds, and `b` does not lie inside `a`:
/// `rename_folder` for `q2`, the same user with `old` and `new` swapped, run
/// on what the first call left, passes both of its checks, renames `b` back
/// to `a`, answers 200 "✅ Folder renamed to 'a'", and leaves `fs` as it was.
pub proof fn lemma_rename_folder_back<V>(
    fs: Map<Seq<char>, V>,
    q1: Map<Seq<char>, Seq<char>>,
    q2: Map<Seq<char>, Seq<char>>,
)
    requires
        parents_exist(fs),
        param(q2, "email"@) == param(q1, "email"@),
        param(q2, "old"@) == param(q1, "new"@),
        param(q2, "new"@) == param(q1, "old"@),
        run_checks_and_renames(fs, rename_folder_plan(q1).steps, rename_folder_plan(q1).done) matches Some(
            (_, reply),
        ) && reply.status == Status::Success,
        !within(
            in_user_dir(param(q1, "email"@), param(q1, "new"@)),
            in_user_dir(param(q1, "email"@), param(q1, "old"@)),
        ),
    ensures
        ({
            let first = run_checks_and_renames(
                fs,
                rename_folder_plan(q1).steps,
                rename_folder_plan(q1).done,
            );
            match first {
                Some((fs1, _)) => run_checks_and_renames(
                    fs1,
                    rename_folder_plan(q2).steps,
                    rename_folder_plan(q2).done,
                ) == Some(
                    (
                        fs,
                        text_reply(
                            Status::Success,
                            "✅ Folder renamed to '"@ + param(q1, "old"@) + "'"@,
                        ),
                    ),
                ),
                None => false,
            }
        }),
{
    reveal_with_fuel(run_checks_and_renames, 4);
    let email = param(q1, "email"@);
    let a = in_user_dir(email, param(q1, "old"@));
    let b = in_user_dir(email, param(q1, "new"@));
    let p1 = rename_folder_plan(q1);
    let p2 = rename_folder_plan(q2);
    if email.len() == 0 || param(q1, "old"@).len() == 0 || param(q1, "new"@).len() == 0 {
        assert(p1.steps.len() == 0);
        assert(false);
    }
    assert(p1.steps.drop_first() =~= seq![p1.steps[1], p1.steps[2]]);
    assert(p1.steps.drop_first().drop_first() =~= seq![p1.steps[2]]);
    assert(p1.steps.drop_first().drop_first().drop_first() =~= Seq::<StepView>::empty());
    assert(fs.contains_key(a));
    assert(!fs.contains_key(b));
    lemma_rename_back(fs, a, b);
    let fs1 = crate::plan::renamed(fs, a, b);
    assert(p2.steps.drop_first() =~= seq![p2.steps[1], p2.steps[2]]);
    assert(p2.steps.drop_first().drop_first() =~= seq![p2.steps[2]]);
    assert(p2.steps.drop_first().drop_first().drop_first() =~= Seq::<StepView>::empty());
}

/// An entry of a directory listing, as `list_folders` sees it.
#[derive(Debug)]
pub struct FolderEntry {
    /// The entry's name, where it is valid UTF-8.
    pub name: Option<String>,
    /// Whether the entry is a directory.
    pub is_dir: bool,
}

/// An entry by the characters of its name.
pub open spec fn folder_entry_view(e: FolderEntry) -> (Option<Seq<char>>, bool) {
    (
        match e.name {
            Some(n) => Some(n@),
            None => None,
        },
        e.is_dir,
    )
}

/// The names of the entries that are directories with a UTF-8 name, in order.
pub open spec fn folder_names(entries: Seq<(Option<Seq<char>>, bool)>) -> Seq<Seq<char>>
    decreases entries.len(),
{
    if entries.len() == 0 {
        Seq::empty()
    } else {
        let rest = folder_names(entries.drop_last());
        let e = entries.last();
        if e.1 && e.0 is Some {
            rest.push(e.0->0)
        } else {
            rest
        }
    }
}

/// The directory that `list_folders` lists for the query `q`, or its answer
/// where the query has no `email`.
pub fn list_folders(q: &StrMap) -> (r: Result<String, Reply>)
    ensures
        match r {
            Ok(dir) => q@.contains_key("email"@) && dir@ == under_uploads(q@["email"@]),
            Err(reply) => !q@.contains_key("email"@) && reply@ == text_reply(
                Status::BadRequest,
                "Missing email"@,
            ),
        },
{
    match q.get("email") {
        Some(email) => Ok(under_uploads_path(email.as_str())),
        None => Err(Reply::text(Status::BadRequest, "Missing email")),
    }
}

/// The answer of `list_folders` to the listing of the user's directory: the
/// names of its folders, or the error where the directory could not be read.
pub fn list_folders_reply(listing: Result<Vec<FolderEntry>, String>) -> (r: Reply)
    ensures
        match listing {
            Ok(entries) => r@ == (ReplyView {
                status: Status::Success,
                body: BodyView::Names(
                    folder_names(entries@.map_values(|e: FolderEntry| folder_entry_view(e))),
                ),
            }),
            Err(e) => r@ == text_reply(
                Status::InternalServerError,
                "❌ Failed to list folders: "@ + e@,
            ),
        },
{
    match listing {
        Ok(entries) => {
            let ghost view = entries@.map_values(|e: FolderEntry| folder_entry_view(e));
            let mut names: Vec<String> = Vec::new();
            let mut i: usize = 0;
            while i < entries.len()
                invariant
                    i <= entries@.len(),
                    view == entries@.map_values(|e: FolderEntry| folder_entry_view(e)),
                    strings_view(names@) =~= folder_names(view.take(i as int)),
                decreases entries@.len() - i,
            {
                proof {
                    assert(view.take(i + 1).drop_last() =~= view.take(i as int));
                }
                let e = &entries[i];
                if e.is_dir {
                    match &e.name {
                        Some(n) => {
                            names.push(n.clone());
                        },
                        None => {},
                    }
                }
                i = i + 1;
            }
            proof {
                assert(view.take(entries@.len() as int) =~= view);
            }
            Reply { status: Status::Success, body: Body::Names(names) }
        },
        Err(e) => Reply::owned_text(
            Status::InternalServerError,
            crate::text::concat2("❌ Failed to list folders: ", e.as_str()),
        ),
    }
}

/// Law: renaming a folder looks before it moves. With `email`, `old` and
/// `new` given, on a file system where exactly the paths in `existing`
/// exist: where the old folder exists and the new name does not, no check
/// fails and the rename moves the old folder to the new name; where the old
/// folder is missing the answer is 400 "❌ Old folder does not exist.";
/// where both exist it is 400 "❌ New folder name already exists.".
pub proof fn lemma_rename_folder_checks(q: Map<Seq<char>, Seq<char>>, existing: Set<Seq<char>>)
    requires
        param(q, "email"@).len() > 0,
        param(q, "old"@).len() > 0,
        param(q, "new"@).len() > 0,
    ensures
        ({
            let a = in_user_dir(param(q, "email"@), param(q, "old"@));
            let b = in_user_dir(param(q, "email"@), param(q, "new"@));
            let steps = rename_folder_plan(q).steps;
            &&& existing.contains(a) && !existing.contains(b) ==> forall|i: int|
                0 <= i < steps.len() ==> (#[trigger] crate::plan::check_outcome(existing, steps[i]))
                    is None
            &&& !existing.contains(a) ==> crate::plan::check_outcome(existing, steps[0]) == Some(
                text_reply(Status::BadRequest, "❌ Old folder does not exist."@),
            )
            &&& existing.contains(a) && existing.contains(b) ==> crate::plan::check_outcome(
                existing,
                steps[0],
            ) is None && crate::plan::check_outcome(existing, steps[1]) == Some(
                text_reply(Status::BadRequest, "❌ New folder name already exists."@),
            )
            &&& steps.len() == 3
            &&& steps[2] matches StepView::Rename { from, to, .. } && from == a && to == b
        }),
{
    let steps = rename_folder_plan(q).steps;
    let a = in_user_dir(param(q, "email"@), param(q, "old"@));
    let b = in_user_dir(param(q, "email"@), param(q, "new"@));
    if existing.contains(a) && !existing.contains(b) {
        assert forall|i: int| 0 <= i < steps.len() implies (#[trigger] crate::plan::check_outcome(
            existing,
            steps[i],
        )) is None by {
            if i == 0 {
            } else if i == 1 {
            }
        }
    }
}

} // verus!
