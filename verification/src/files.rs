//! Files of a user: delete, download and share them, and list the upload
//! directory.

use vstd::prelude::*;
use crate::pathname::{parent_of, path_parent};
use crate::paths::{in_user_dir, in_user_dir_path, under_uploads, under_uploads_path, child_path, path4};
use crate::plan::{
    Failure,
    FailureView,
    Plan,
    PlanView,
    Step,
    StepView,
    answer_view,
    fail_with_error,
    fail_with_text,
    fails_with_error,
    fails_with_text,
};
use crate::query::{param, param_or_empty, trimmed_param};
use crate::reply::{Body, BodyView, FileMeta, Reply, ReplyView, Status, text_reply};
use crate::strmap::StrMap;
use crate::text::{concat3, trimmed};

verus! {

/// The `Content-Disposition` of a download of `filename`.
pub open spec fn attachment_header(filename: Seq<char>) -> Seq<char> {
    "attachment; filename=\""@ + filename + "\""@
}

/// The plan of `delete_file` for `filename`.
pub open spec fn delete_file_plan(filename: Seq<char>) -> PlanView {
    let path = under_uploads(filename);
    PlanView {
        steps: seq![
            StepView::Exists {
                path,
                expected: true,
                otherwise: text_reply(Status::NotFound, "File not found"@),
            },
            StepView::RemoveFile {
                path,
                on_error: fails_with_text(Status::InternalServerError, "Failed to delete file."@),
            },
        ],
        done: text_reply(Status::Success, "File deleted successfully"@),
    }
}

/// Deletes the file `filename` right under the upload directory, where it exists.
pub fn delete_file(filename: &str) -> (p: Plan)
    ensures
        p@ == delete_file_plan(filename@),
{
    let path = under_uploads_path(filename);
    let mut steps: Vec<Step> = Vec::new();
    steps.push(
        Step::Exists {
            path: path.clone(),
            expected: true,
            otherwise: Reply::text(Status::NotFound, "File not found"),
        },
    );
    steps.push(
        Step::RemoveFile {
            path,
            on_error: fail_with_text(Status::InternalServerError, "Failed to delete file."),
        },
    );
    let p = Plan { steps, done: Reply::text(Status::Success, "File deleted successfully") };
    assert(p@.steps =~= delete_file_plan(filename@).steps);
    p
}

/// The plan of `del_file_from_folder` for the query `q`.
pub open spec fn del_file_from_folder_plan(q: Map<Seq<char>, Seq<char>>) -> PlanView {
    let email = param(q, "email"@);
    let rel = param(q, "path"@);
    if email.len() == 0 || rel.len() == 0 {
        answer_view(text_reply(Status::BadRequest, "❌ Required: email and path"@))
    } else {
        let full = in_user_dir(email, rel);
        PlanView {
            steps: seq![
                StepView::Exists {
                    path: full,
                    expected: true,
                    otherwise: text_reply(Status::BadRequest, "❌ File does not exist"@),
                },
                StepView::RemoveFile {
                    path: full,
                    on_error: fails_with_error(
                        Status::InternalServerError,
                        "❌ Failed to delete file: "@,
                    ),
                },
            ],
            done: text_reply(Status::Success, "✅ File '"@ + rel + "' deleted"@),
        }
    }
}

/// Deletes the file at `path` (relative to the directory of the user
/// `email`), where it exists.
pub fn del_file_from_folder(q: &StrMap) -> (p: Plan)
    ensures
        p@ == del_file_from_folder_plan(q@),
{
    let email = param_or_empty(q, "email");
    let rel = param_or_empty(q, "path");
    if email.as_str().is_empty() || rel.as_str().is_empty() {
        return Plan::answer(Reply::text(Status::BadRequest, "❌ Required: email and path"));
    }
    let full = in_user_dir_path(email.as_str(), rel.as_str());
    let mut steps: Vec<Step> = Vec::new();
    steps.push(
        Step::Exists {
            path: full.clone(),
            expected: true,
            otherwise: Reply::text(Status::BadRequest, "❌ File does not exist"),
        },
    );
    steps.push(
        Step::RemoveFile {
            path: full,
            on_error: fail_with_error(Status::InternalServerError, "❌ Failed to delete file: "),
        },
    );
    let done = Reply::owned_text(Status::Success, concat3("✅ File '", rel.as_str(), "' deleted"));
    let p = Plan { steps, done };
    assert(p@.steps =~= del_file_from_folder_plan(q@).steps);
    p
}

/// The reply that hands out the bytes read, as a download of `filename`.
pub open spec fn download_reply(filename: Seq<char>) -> ReplyView {
    ReplyView { status: Status::Success, body: BodyView::Download(attachment_header(filename)) }
}

fn download_done(filename: &str) -> (r: Reply)
    ensures
        r@ == download_reply(filename@),
{
    Reply {
        status: Status::Success,
        body: Body::Download(concat3("attachment; filename=\"", filename, "\"")),
    }
}

/// The plan of `download_file` for `filename` and the query `q`.
pub open spec fn download_file_plan(filename: Seq<char>, q: Map<Seq<char>, Seq<char>>) -> PlanView {
    if !q.contains_key("email"@) {
        answer_view(text_reply(Status::BadRequest, "❌ Missing email query parameter"@))
    } else {
        let path = in_user_dir(trimmed(q["email"@]), filename);
        PlanView {
            steps: seq![
                StepView::Exists {
                    path,
                    expected: true,
                    otherwise: text_reply(Status::NotFound, "File not found"@),
                },
                StepView::ReadFile {
                    path,
                    on_error: fails_with_text(Status::InternalServerError, "Failed to read file"@),
                },
            ],
            done: download_reply(filename),
        }
    }
}

/// Hands out the file `filename` of the user `email`, where it exists.
pub fn download_file(filename: &str, q: &StrMap) -> (p: Plan)
    ensures
        p@ == download_file_plan(filename@, q@),
{
    let email = match trimmed_param(q, "email") {
        Some(e) => e,
        None => return Plan::answer(
            Reply::text(Status::BadRequest, "❌ Missing email query parameter"),
        ),
    };
    let path = in_user_dir_path(email.as_str(), filename);
    let mut steps: Vec<Step> = Vec::new();
    steps.push(
        Step::Exists {
            path: path.clone(),
            expected: true,
            otherwise: Reply::text(Status::NotFound, "File not found"),
        },
    );
    steps.push(
        Step::ReadFile {
            path,
            on_error: fail_with_text(Status::InternalServerError, "Failed to read file"),
        },
    );
    let p = Plan { steps, done: download_done(filename) };
    assert(p@.steps =~= download_file_plan(filename@, q@).steps);
    p
}

/// The plan of the download of `filename` right under the upload directory.
pub open spec fn download_top_level_plan(filename: Seq<char>) -> PlanView {
    let path = under_uploads(filename);
    PlanView {
        steps: seq![
            StepView::Exists {
                path,
                expected: true,
                otherwise: text_reply(Status::NotFound, "File not found"@),
            },
            StepView::ReadFile { path, on_error: FailureView::Abort },
        ],
        done: download_reply(filename),
    }
}

/// Hands out the file `filename` right under the upload directory, where it
/// exists; a failure to read it is not answered (the read is unwrapped).
pub fn download_top_level(filename: &str) -> (p: Plan)
    ensures
        p@ == download_top_level_plan(filename@),
{
    let path = under_uploads_path(filename);
    let mut steps: Vec<Step> = Vec::new();
    steps.push(
        Step::Exists {
            path: path.clone(),
            expected: true,
            otherwise: Reply::text(Status::NotFound, "File not found"),
        },
    );
    steps.push(Step::ReadFile { path, on_error: Failure::Abort });
    let p = Plan { steps, done: download_done(filename) };
    assert(p@.steps =~= download_top_level_plan(filename@).steps);
    p
}

/// The plan of `share_file` for the query `q`.
pub open spec fn share_file_plan(q: Map<Seq<char>, Seq<char>>) -> PlanView {
    let from = param(q, "from"@);
    let to = param(q, "to"@);
    let file = param(q, "name"@);
    if from.len() == 0 || to.len() == 0 || file.len() == 0 {
        answer_view(text_reply(Status::BadRequest, "❌ Required: from, to, name"@))
    } else {
        let src = in_user_dir(from, file);
        let dst_folder = under_uploads(to) + "/shared_from_"@ + from;
        PlanView {
            steps: seq![
                StepView::Exists {
                    path: src,
                    expected: true,
                    otherwise: text_reply(Status::BadRequest, "❌ File does not exist"@),
                },
                StepView::CreateDirAll {
                    path: dst_folder,
                    on_error: fails_with_text(
                        Status::InternalServerError,
                        "❌ Folder creation failed"@,
                    ),
                },
                StepView::CopyFile {
                    from: src,
                    to: dst_folder + "/"@ + file,
                    on_error: fails_with_text(Status::InternalServerError, "❌ Failed to share file"@),
                },
            ],
            done: text_reply(Status::Success, "✅ File '"@ + file + "' shared"@),
        }
    }
}

/// Copies the file `name` of the user `from` into the folder
/// `shared_from_<from>` of the user `to`.
pub fn share_file(q: &StrMap) -> (p: Plan)
    ensures
        p@ == share_file_plan(q@),
{
    let from = param_or_empty(q, "from");
    let to = param_or_empty(q, "to");
    let file = param_or_empty(q, "name");
    if from.as_str().is_empty() || to.as_str().is_empty() || file.as_str().is_empty() {
        return Plan::answer(Reply::text(Status::BadRequest, "❌ Required: from, to, name"));
    }
    let src = in_user_dir_path(from.as_str(), file.as_str());
    let to_root = under_uploads_path(to.as_str());
    let dst_folder = crate::text::concat3(to_root.as_str(), "/shared_from_", from.as_str());
    let dst = child_path(dst_folder.as_str(), file.as_str());
    let mut steps: Vec<Step> = Vec::new();
    steps.push(
        Step::Exists {
            path: src.clone(),
            expected: true,
            otherwise: Reply::text(Status::BadRequest, "❌ File does not exist"),
        },
    );
    steps.push(
        Step::CreateDirAll {
            path: dst_folder,
            on_error: fail_with_text(Status::InternalServerError, "❌ Folder creation failed"),
        },
    );
    steps.push(
        Step::CopyFile {
            from: src,
            to: dst,
            on_error: fail_with_text(Status::InternalServerError, "❌ Failed to share file"),
        },
    );
    let done = Reply::owned_text(Status::Success, concat3("✅ File '", file.as_str(), "' shared"));
    let p = Plan { steps, done };
    assert(p@.steps =~= share_file_plan(q@).steps);
    p
}

/// The path that `share_folder` names as its target.
pub open spec fn share_folder_target(to: Seq<char>, from: Seq<char>, folder: Seq<char>) -> Seq<
    char,
> {
    under_uploads(to) + "/shared_from_"@ + from + "_"@ + folder
}

/// The plan of `share_folder` for the query `q`.
pub open spec fn share_folder_plan(q: Map<Seq<char>, Seq<char>>) -> PlanView {
    let from = param(q, "from"@);
    let to = param(q, "to"@);
    let folder = param(q, "folder"@);
    if from.len() == 0 || to.len() == 0 || folder.len() == 0 {
        answer_view(text_reply(Status::BadRequest, "❌ Missing required query parameters."@))
    } else {
        let source = in_user_dir(from, folder);
        let into = parent_of(share_folder_target(to, from, folder))->0;
        PlanView {
            steps: seq![
                StepView::Exists {
                    path: source,
                    expected: true,
                    otherwise: text_reply(Status::BadRequest, "❌ Source folder does not exist."@),
                },
                StepView::CreateDirAll {
                    path: into,
                    on_error: fails_with_error(
                        Status::InternalServerError,
                        "❌ Failed to prepare target: "@,
                    ),
                },
                StepView::CopyDirInto {
                    from: source,
                    into,
                    on_error: fails_with_error(
                        Status::InternalServerError,
                        "❌ Failed to share folder: "@,
                    ),
                },
            ],
            done: text_reply(Status::Success, "✅ Folder shared successfully."@),
        }
    }
}

/// Copies the folder `folder` of the user `from` into the parent of its
/// target path `shared_from_<from>_<folder>` in the directory of the user
/// `to` (the copy keeps the folder's own name).
pub fn share_folder(q: &StrMap) -> (p: Plan)
    ensures
        p@ == share_folder_plan(q@),
{
    let from = param_or_empty(q, "from");
    let to = param_or_empty(q, "to");
    let folder = param_or_empty(q, "folder");
    if from.as_str().is_empty() || to.as_str().is_empty() || folder.as_str().is_empty() {
        return Plan::answer(
            Reply::text(Status::BadRequest, "❌ Missing required query parameters."),
        );
    }
    let to_root = under_uploads_path(to.as_str());
    let target = path4(to_root.as_str(), "/shared_from_", from.as_str(), "_");
    let target = crate::text::concat2(target.as_str(), folder.as_str());
    proof {
        reveal_strlit("./uploads/");
        assert(target@[0] == '.');
    }
    let into = path_parent(target.as_str()).unwrap();
    let source = in_user_dir_path(from.as_str(), folder.as_str());
    let mut steps: Vec<Step> = Vec::new();
    steps.push(
        Step::Exists {
            path: source.clone(),
            expected: true,
            otherwise: Reply::text(Status::BadRequest, "❌ Source folder does not exist."),
        },
    );
    steps.push(
        Step::CreateDirAll {
            path: into.clone(),
            on_error: fail_with_error(Status::InternalServerError, "❌ Failed to prepare target: "),
        },
    );
    steps.push(
        Step::CopyDirInto {
            from: source,
            into,
            on_error: fail_with_error(Status::InternalServerError, "❌ Failed to share folder: "),
        },
    );
    let p = Plan { steps, done: Reply::text(Status::Success, "✅ Folder shared successfully.") };
    assert(p@.steps =~= share_folder_plan(q@).steps);
    p
}

/// The answer of `list_files` to the listing of the upload directory, or to
/// the failure to read it.
pub fn list_files_reply(listing: Option<Vec<FileMeta>>) -> (r: Reply)
    ensures
        match listing {
            Some(files) => r@ == (ReplyView {
                status: Status::Success,
                body: BodyView::Files(files@.map_values(|f: FileMeta| f@)),
            }),
            None => r@ == text_reply(
                Status::InternalServerError,
                "Failed to read upload directory."@,
            ),
        },
{
    match listing {
        Some(files) => Reply { status: Status::Success, body: Body::Files(files) },
        None => Reply::text(Status::InternalServerError, "Failed to read upload directory."),
    }
}

/// Law: sharing a file checks that the file is there before copying it.
/// With `from`, `to` and `name` given: where the file `name` of `from`
/// exists, no check of the share fails and the share goes on to copy that
/// file into the folder `shared_from_<from>` of `to`, under its own name,
/// and answers 200; where it does not, the share refuses at once with 400
/// "❌ File does not exist".
pub proof fn lemma_share_file_needs_the_file(q: Map<Seq<char>, Seq<char>>)
    requires
        param(q, "from"@).len() > 0,
        param(q, "to"@).len() > 0,
        param(q, "name"@).len() > 0,
    ensures
        crate::plan::looks_before_acting(
            share_file_plan(q).steps,
            in_user_dir(param(q, "from"@), param(q, "name"@)),
            text_reply(Status::BadRequest, "❌ File does not exist"@),
        ),
        share_file_plan(q).steps[2] matches StepView::CopyFile { from, to, .. } && from
            == in_user_dir(param(q, "from"@), param(q, "name"@)) && to == under_uploads(
            param(q, "to"@),
        ) + "/shared_from_"@ + param(q, "from"@) + "/"@ + param(q, "name"@),
        share_file_plan(q).done == text_reply(
            Status::Success,
            "✅ File '"@ + param(q, "name"@) + "' shared"@,
        ),
{
    let steps = share_file_plan(q).steps;
    let src = in_user_dir(param(q, "from"@), param(q, "name"@));
    assert forall|existing: Set<Seq<char>>, i: int|
        existing.contains(src) && 0 <= i < steps.len() implies (#[trigger] crate::plan::check_outcome(
        existing,
        steps[i],
    )) is None by {
        if i == 0 {
        }
    }
    assert(crate::plan::step_source(steps[steps.len() - 1]) == Some(src));
}

/// Law: sharing a folder checks that the folder is there before copying
/// it. With `from`, `to` and `folder` given: where the folder of `from`
/// exists, no check of the share fails and the share goes on to copy that
/// folder; where it does not, the share refuses at once with 400
/// "❌ Source folder does not exist.".
pub proof fn lemma_share_folder_needs_the_folder(q: Map<Seq<char>, Seq<char>>)
    requires
        param(q, "from"@).len() > 0,
        param(q, "to"@).len() > 0,
        param(q, "folder"@).len() > 0,
    ensures
        crate::plan::looks_before_acting(
            share_folder_plan(q).steps,
            in_user_dir(param(q, "from"@), param(q, "folder"@)),
            text_reply(Status::BadRequest, "❌ Source folder does not exist."@),
        ),
{
    let steps = share_folder_plan(q).steps;
    let src = in_user_dir(param(q, "from"@), param(q, "folder"@));
    assert forall|existing: Set<Seq<char>>, i: int|
        existing.contains(src) && 0 <= i < steps.len() implies (#[trigger] crate::plan::check_outcome(
        existing,
        steps[i],
    )) is None by {
        if i == 0 {
        }
    }
    assert(crate::plan::step_source(steps[steps.len() - 1]) == Some(src));
}

/// Law: deleting a file of a user checks that it is there before removing
/// it. With `email` and `path` given: where the file exists, no check fails
/// and the file is removed; where it does not, the deletion refuses at once
/// with 400 "❌ File does not exist".
pub proof fn lemma_delete_from_folder_needs_the_file(q: Map<Seq<char>, Seq<char>>)
    requires
        param(q, "email"@).len() > 0,
        param(q, "path"@).len() > 0,
    ensures
        crate::plan::looks_before_acting(
            del_file_from_folder_plan(q).steps,
            in_user_dir(param(q, "email"@), param(q, "path"@)),
            text_reply(Status::BadRequest, "❌ File does not exist"@),
        ),
{
    let steps = del_file_from_folder_plan(q).steps;
    let src = in_user_dir(param(q, "email"@), param(q, "path"@));
    assert forall|existing: Set<Seq<char>>, i: int|
        existing.contains(src) && 0 <= i < steps.len() implies (#[trigger] crate::plan::check_outcome(
        existing,
        steps[i],
    )) is None by {
        if i == 0 {
        }
    }
    assert(crate::plan::step_source(steps[steps.len() - 1]) == Some(src));
}

/// Law: deleting a file under the upload directory checks that it is there
/// before removing it; where it is not, the answer is 404 "File not found".
pub proof fn lemma_delete_file_needs_the_file(filename: Seq<char>)
    ensures
        crate::plan::looks_before_acting(
            delete_file_plan(filename).steps,
            under_uploads(filename),
            text_reply(Status::NotFound, "File not found"@),
        ),
{
    let steps = delete_file_plan(filename).steps;
    let src = under_uploads(filename);
    assert forall|existing: Set<Seq<char>>, i: int|
        existing.contains(src) && 0 <= i < steps.len() implies (#[trigger] crate::plan::check_outcome(
        existing,
        steps[i],
    )) is None by {
        if i == 0 {
        }
    }
    assert(crate::plan::step_source(steps[steps.len() - 1]) == Some(src));
}

/// Law: a download of a user's file checks that it is there before reading
/// it. With `email` given: where the file exists, no check fails and the
/// file is read; where it does not, the answer is 404 "File not found".
pub proof fn lemma_download_needs_the_file(filename: Seq<char>, q: Map<Seq<char>, Seq<char>>)
    requires
        q.contains_key("email"@),
    ensures
        crate::plan::looks_before_acting(
            download_file_plan(filename, q).steps,
            in_user_dir(trimmed(q["email"@]), filename),
            text_reply(Status::NotFound, "File not found"@),
        ),
{
    let steps = download_file_plan(filename, q).steps;
    let src = in_user_dir(trimmed(q["email"@]), filename);
    assert forall|existing: Set<Seq<char>>, i: int|
        existing.contains(src) && 0 <= i < steps.len() implies (#[trigger] crate::plan::check_outcome(
        existing,
        steps[i],
    )) is None by {
        if i == 0 {
        }
    }
    assert(crate::plan::step_source(steps[steps.len() - 1]) == Some(src));
}

/// Law: a download under the upload directory checks that the file is
/// there before reading it; where it is not, the answer is 404
/// "File not found".
pub proof fn lemma_top_level_download_needs_the_file(filename: Seq<char>)
    ensures
        crate::plan::looks_before_acting(
            download_top_level_plan(filename).steps,
            under_uploads(filename),
            text_reply(Status::NotFound, "File not found"@),
        ),
{
    let steps = download_top_level_plan(filename).steps;
    let src = under_uploads(filename);
    assert forall|existing: Set<Seq<char>>, i: int|
        existing.contains(src) && 0 <= i < steps.len() implies (#[trigger] crate::plan::check_outcome(
        existing,
        steps[i],
    )) is None by {
        if i == 0 {
        }
    }
    assert(crate::plan::step_source(steps[steps.len() - 1]) == Some(src));
}

} // verus!
