//! The trash of a user: files moved into `<user>/trash`, and the index
//! `.trash_meta.json` there that maps each trashed name to the name the
//! file had before.

use vstd::prelude::*;
use crate::clock::unix_now;
use crate::meta_json::{
    json_string_map,
    parse_string_map,
    pretty_json_of,
    render_string_map,
    written_reads_back,
};
use crate::paths::{in_user_dir, in_user_dir_path, under_uploads, under_uploads_path, child_path};
use crate::plan::{
    Plan,
    PlanView,
    Step,
    StepView,
    answer_view,
    fail_with_error,
    fails_with_error,
};
use crate::query::{param, param_or_empty};
use crate::reply::{Reply, ReplyView, Status, text_reply};
use crate::strmap::{StrMap, entries_view, map_of};
use crate::text::{concat2, concat3, decimal, i64_to_decimal};

verus! {

/// `format!("{}/{}/trash", UPLOAD_DIR, email)`.
pub open spec fn trash_dir(email: Seq<char>) -> Seq<char> {
    under_uploads(email) + "/trash"@
}

/// `format!("{}/.trash_meta.json", trash_dir)`.
pub open spec fn trash_meta_path(email: Seq<char>) -> Seq<char> {
    trash_dir(email) + "/.trash_meta.json"@
}

/// `format!("{}_{}", file, timestamp)`: the name of a file in the trash.
pub open spec fn trashed_name(file: Seq<char>, timestamp: int) -> Seq<char> {
    file + "_"@ + decimal(timestamp)
}

/// The trash index file as the handler finds it.
#[derive(Debug)]
pub enum StoredMeta {
    /// There is no index file.
    Absent,
    /// The index file exists but could not be read as text.
    Unreadable,
    /// The index file holds this text.
    Text(String),
}

/// A stored index file by the characters of its text.
pub enum StoredMetaView {
    Absent,
    Unreadable,
    Text(Seq<char>),
}

impl View for StoredMeta {
    type V = StoredMetaView;

    open spec fn view(&self) -> StoredMetaView {
        match self {
            StoredMeta::Absent => StoredMetaView::Absent,
            StoredMeta::Unreadable => StoredMetaView::Unreadable,
            StoredMeta::Text(t) => StoredMetaView::Text(t@),
        }
    }
}

/// The index that a stored index file holds: what it parses to, and the
/// empty index where it is absent, unreadable or not a JSON object of strings.
pub open spec fn stored_index(stored: StoredMetaView) -> Map<Seq<char>, Seq<char>> {
    match stored {
        StoredMetaView::Text(t) => match json_string_map(t) {
            Some(m) => m,
            None => Map::empty(),
        },
        _ => Map::empty(),
    }
}

/// The index after `trashed` was recorded as the trashed name of `original`.
pub open spec fn index_after_trash(
    index: Map<Seq<char>, Seq<char>>,
    trashed: Seq<char>,
    original: Seq<char>,
) -> Map<Seq<char>, Seq<char>> {
    index.insert(trashed, original)
}

/// The index after the entry of `trashed` was restored.
pub open spec fn index_after_restore(index: Map<Seq<char>, Seq<char>>, trashed: Seq<char>) -> Map<
    Seq<char>,
    Seq<char>,
> {
    index.remove(trashed)
}

/// The name that `index` records for the trashed name `trashed`.
pub open spec fn original_name(index: Map<Seq<char>, Seq<char>>, trashed: Seq<char>) -> Option<
    Seq<char>,
> {
    if index.contains_key(trashed) {
        Some(index[trashed])
    } else {
        None
    }
}

/// The trash index that a stored index file holds.
pub fn load_trash_index(stored: &StoredMeta) -> (r: StrMap)
    ensures
        r@ == stored_index(stored@),
{
    match stored {
        StoredMeta::Text(t) => match parse_string_map(t.as_str()) {
            Some(entries) => StrMap::from_distinct(entries),
            None => StrMap::new(),
        },
        _ => StrMap::new(),
    }
}

/// The steps that write `index` to `meta_path` (none where it cannot be
/// rendered), with `on_error_text` as the answer to a failed write.
pub open spec fn save_index_steps(
    meta_path: Seq<char>,
    index: Map<Seq<char>, Seq<char>>,
    on_error_text: Seq<char>,
) -> Seq<StepView> {
    match pretty_json_of(index) {
        Some(text) => seq![
            StepView::WriteFile {
                path: meta_path,
                contents: text,
                on_error: fails_with_error(Status::InternalServerError, on_error_text),
            },
        ],
        None => Seq::empty(),
    }
}

fn save_index(steps: &mut Vec<Step>, meta_path: &str, index: &StrMap, on_error_text: &str)
    ensures
        final(steps)@.map_values(|s: Step| s@) == old(steps)@.map_values(|s: Step| s@)
            + save_index_steps(meta_path@, index@, on_error_text@),
        written_reads_back(index@),
{
    let entries = index.entries();
    let ghost before = steps@;
    match render_string_map(&entries) {
        Some(text) => {
            steps.push(
                Step::WriteFile {
                    path: String::from_str(meta_path),
                    contents: text,
                    on_error: fail_with_error(Status::InternalServerError, on_error_text),
                },
            );
            assert(steps@.map_values(|s: Step| s@) =~= before.map_values(|s: Step| s@)
                + save_index_steps(meta_path@, index@, on_error_text@));
        },
        None => {},
    }
}

/// A move into the trash whose file system steps are `steps`; once they
/// succeed, `trashed_name` is recorded in the index at `meta_path` as the
/// trashed name of `original_name`.
#[derive(Debug)]
pub struct TrashMove {
    pub steps: Vec<Step>,
    pub meta_path: String,
    pub trashed_name: String,
    pub original_name: String,
}

/// The steps that move the file `file` of the user `email` into the trash
/// under the name `trashed`.
pub open spec fn trash_file_steps(email: Seq<char>, file: Seq<char>, trashed: Seq<char>) -> Seq<
    StepView,
> {
    let original = in_user_dir(email, file);
    seq![
        StepView::Exists {
            path: original,
            expected: true,
            otherwise: text_reply(Status::BadRequest, "❌ File does not exist"@),
        },
        StepView::CreateDirAll {
            path: trash_dir(email),
            on_error: fails_with_error(
                Status::InternalServerError,
                "❌ Could not create trash folder: "@,
            ),
        },
        StepView::Rename {
            from: original,
            to: trash_dir(email) + "/"@ + trashed,
            on_error: fails_with_error(
                Status::InternalServerError,
                "❌ Failed to move file to trash: "@,
            ),
        },
    ]
}

/// Moves the file `name` of the user `email` into the trash, under its
/// name followed by `_` and the UNIX time `timestamp`.
pub fn move_file_to_trash_at(q: &StrMap, timestamp: i64) -> (r: Result<TrashMove, Reply>)
    ensures
        ({
            let email = param(q@, "email"@);
            let file = param(q@, "name"@);
            match r {
                Err(reply) => (email.len() == 0 || file.len() == 0) && reply@ == text_reply(
                    Status::BadRequest,
                    "❌ Required: email and file name"@,
                ),
                Ok(mv) => email.len() > 0 && file.len() > 0 && mv.steps@.map_values(
                    |s: Step| s@,
                ) == trash_file_steps(email, file, trashed_name(file, timestamp as int))
                    && mv.meta_path@ == trash_meta_path(email) && mv.trashed_name@
                    == trashed_name(file, timestamp as int) && mv.original_name@ == file,
            }
        }),
{
    let email = param_or_empty(q, "email");
    let file = param_or_empty(q, "name");
    if email.as_str().is_empty() || file.as_str().is_empty() {
        return Err(Reply::text(Status::BadRequest, "❌ Required: email and file name"));
    }
    let original = in_user_dir_path(email.as_str(), file.as_str());
    let stamp = i64_to_decimal(timestamp);
    let trashed = concat3(file.as_str(), "_", stamp.as_str());
    let root = under_uploads_path(email.as_str());
    let trash = concat2(root.as_str(), "/trash");
    let trashed_path = child_path(trash.as_str(), trashed.as_str());
    let meta_path = concat2(trash.as_str(), "/.trash_meta.json");
    let mut steps: Vec<Step> = Vec::new();
    steps.push(
        Step::Exists {
            path: original.clone(),
            expected: true,
            otherwise: Reply::text(Status::BadRequest, "❌ File does not exist"),
        },
    );
    steps.push(
        Step::CreateDirAll {
            path: trash,
            on_error: fail_with_error(Status::InternalServerError, "❌ Could not create trash folder: "),
        },
    );
    steps.push(
        Step::Rename {
            from: original,
            to: trashed_path,
            on_error: fail_with_error(Status::InternalServerError, "❌ Failed to move file to trash: "),
        },
    );
    assert(steps@.map_values(|s: Step| s@) =~= trash_file_steps(
        email@,
        file@,
        trashed_name(file@, timestamp as int),
    ));
    Ok(TrashMove { steps, meta_path, trashed_name: trashed, original_name: file })
}

/// `move_file_to_trash` at the current time, read from the clock.
pub fn move_file_to_trash(q: &StrMap) -> (r: Result<TrashMove, Reply>)
    ensures
        ({
            let email = param(q@, "email"@);
            let file = param(q@, "name"@);
            match r {
                Err(reply) => (email.len() == 0 || file.len() == 0) && reply@ == text_reply(
                    Status::BadRequest,
                    "❌ Required: email and file name"@,
                ),
                Ok(mv) => email.len() > 0 && file.len() > 0 && exists|t: int|
                    0 <= t && mv.trashed_name@ == trashed_name(file, t) && mv.steps@.map_values(
                        |s: Step| s@,
                    ) == trash_file_steps(email, file, trashed_name(file, t)) && mv.meta_path@
                        == trash_meta_path(email) && mv.original_name@ == file,
            }
        }),
{
    let now: i64 = unix_now();
    move_file_to_trash_at(q, now)
}

/// What the move into the trash answers once the file is in the trash,
/// given the stored index.
pub open spec fn finish_trash_plan(
    meta_path: Seq<char>,
    trashed: Seq<char>,
    original: Seq<char>,
    stored: StoredMetaView,
) -> PlanView {
    PlanView {
        steps: save_index_steps(
            meta_path,
            index_after_trash(stored_index(stored), trashed, original),
            "❌ Failed to write trash metadata: "@,
        ),
        done: text_reply(Status::Success, "✅ File '"@ + original + "' moved to trash"@),
    }
}

/// Records the move in the trash index that was stored, and answers.
pub fn finish_trash(mv: TrashMove, stored: &StoredMeta) -> (p: Plan)
    ensures
        p@ == finish_trash_plan(mv.meta_path@, mv.trashed_name@, mv.original_name@, stored@),
        written_reads_back(
            index_after_trash(stored_index(stored@), mv.trashed_name@, mv.original_name@),
        ),
{
    let mut index = load_trash_index(stored);
    let done = Reply::owned_text(
        Status::Success,
        concat3("✅ File '", mv.original_name.as_str(), "' moved to trash"),
    );
    index.insert(mv.trashed_name, mv.original_name);
    let mut steps: Vec<Step> = Vec::new();
    save_index(&mut steps, mv.meta_path.as_str(), &index, "❌ Failed to write trash metadata: ");
    assert(steps@.map_values(|s: Step| s@) =~= Seq::<StepView>::empty() + steps@.map_values(
        |s: Step| s@,
    ));
    Plan { steps, done }
}

/// A restore from the trash of the user `email` of the entry `trashed_name`,
/// whose index is at `meta_path`; `steps` are the checks made before the
/// index is read.
#[derive(Debug)]
pub struct TrashRestore {
    pub steps: Vec<Step>,
    pub email: String,
    pub trashed_name: String,
    pub meta_path: String,
}

/// Restores the trashed file `name` of the user `email`: first checks that
/// it is in the trash.
pub fn restore_file(q: &StrMap) -> (r: Result<TrashRestore, Reply>)
    ensures
        ({
            let email = param(q@, "email"@);
            let name = param(q@, "name"@);
            match r {
                Err(reply) => (email.len() == 0 || name.len() == 0) && reply@ == text_reply(
                    Status::BadRequest,
                    "❌ Required: email and name (trashed name)"@,
                ),
                Ok(rs) => email.len() > 0 && name.len() > 0 && rs.email@ == email
                    && rs.trashed_name@ == name && rs.meta_path@ == trash_meta_path(email)
                    && rs.steps@.map_values(|s: Step| s@) == seq![
                    StepView::Exists {
                        path: trash_dir(email) + "/"@ + name,
                        expected: true,
                        otherwise: text_reply(Status::BadRequest, "❌ Trashed file does not exist"@),
                    },
                ],
            }
        }),
{
    let email = param_or_empty(q, "email");
    let name = param_or_empty(q, "name");
    if email.as_str().is_empty() || name.as_str().is_empty() {
        return Err(
            Reply::text(Status::BadRequest, "❌ Required: email and name (trashed name)"),
        );
    }
    let root = under_uploads_path(email.as_str());
    let trash = concat2(root.as_str(), "/trash");
    let trashed_path = child_path(trash.as_str(), name.as_str());
    let meta_path = concat2(trash.as_str(), "/.trash_meta.json");
    let mut steps: Vec<Step> = Vec::new();
    steps.push(
        Step::Exists {
            path: trashed_path,
            expected: true,
            otherwise: Reply::text(Status::BadRequest, "❌ Trashed file does not exist"),
        },
    );
    let r = TrashRestore { steps, email, trashed_name: name, meta_path };
    assert(r.steps@.map_values(|s: Step| s@) =~= seq![
        StepView::Exists {
            path: trash_dir(r.email@) + "/"@ + r.trashed_name@,
            expected: true,
            otherwise: text_reply(Status::BadRequest, "❌ Trashed file does not exist"@),
        },
    ]);
    Ok(r)
}

/// What restoring the trashed file `trashed` of `email` does, given the
/// stored index.
pub open spec fn finish_restore_file_plan(
    email: Seq<char>,
    trashed: Seq<char>,
    meta_path: Seq<char>,
    stored: StoredMetaView,
) -> PlanView {
    let index = stored_index(stored);
    if stored is Absent {
        answer_view(text_reply(Status::InternalServerError, "❌ Trash metadata not found"@))
    } else if original_name(index, trashed) is None {
        answer_view(
            text_reply(Status::BadRequest, "❌ Original filename not found in metadata"@),
        )
    } else {
        let original = index[trashed];
        PlanView {
            steps: seq![
                StepView::Rename {
                    from: trash_dir(email) + "/"@ + trashed,
                    to: in_user_dir(email, original),
                    on_error: fails_with_error(
                        Status::InternalServerError,
                        "❌ Failed to restore file: "@,
                    ),
                },
            ] + save_index_steps(
                meta_path,
                index_after_restore(index, trashed),
                "❌ Failed to update trash metadata: "@,
            ),
            done: text_reply(
                Status::Success,
                "✅ File '"@ + original + "' restored successfully"@,
            ),
        }
    }
}

/// Moves the trashed file back to the name the index records for it, and
/// takes its entry out of the index.
pub fn finish_restore_file(rs: TrashRestore, stored: &StoredMeta) -> (p: Plan)
    ensures
        p@ == finish_restore_file_plan(rs.email@, rs.trashed_name@, rs.meta_path@, stored@),
        !(stored@ is Absent) && original_name(stored_index(stored@), rs.trashed_name@) is Some
            ==> written_reads_back(index_after_restore(stored_index(stored@), rs.trashed_name@)),
{
    if let StoredMeta::Absent = stored {
        return Plan::answer(Reply::text(Status::InternalServerError, "❌ Trash metadata not found"));
    }
    let mut index = load_trash_index(stored);
    let ghost before = index@;
    let original = match index.remove(rs.trashed_name.as_str()) {
        Some(o) => o,
        None => return Plan::answer(
            Reply::text(Status::BadRequest, "❌ Original filename not found in metadata"),
        ),
    };
    let root = under_uploads_path(rs.email.as_str());
    let trash = concat2(root.as_str(), "/trash");
    let trashed_path = child_path(trash.as_str(), rs.trashed_name.as_str());
    let restore_path = in_user_dir_path(rs.email.as_str(), original.as_str());
    let mut steps: Vec<Step> = Vec::new();
    steps.push(
        Step::Rename {
            from: trashed_path,
            to: restore_path,
            on_error: fail_with_error(Status::InternalServerError, "❌ Failed to restore file: "),
        },
    );
    save_index(&mut steps, rs.meta_path.as_str(), &index, "❌ Failed to update trash metadata: ");
    let done = Reply::owned_text(
        Status::Success,
        concat3("✅ File '", original.as_str(), "' restored successfully"),
    );
    let p = Plan { steps, done };
    assert(p@.steps =~= finish_restore_file_plan(
        rs.email@,
        rs.trashed_name@,
        rs.meta_path@,
        stored@,
    ).steps);
    p
}

/// Restores the trashed folder `name` of the user `email`; nothing is
/// checked before the index is read.
pub fn restore_folder(q: &StrMap) -> (r: Result<TrashRestore, Reply>)
    ensures
        ({
            let email = param(q@, "email"@);
            let name = param(q@, "name"@);
            match r {
                Err(reply) => (email.len() == 0 || name.len() == 0) && reply@ == text_reply(
                    Status::BadRequest,
                    "❌ Required: email and trashed folder name"@,
                ),
                Ok(rs) => email.len() > 0 && name.len() > 0 && rs.email@ == email
                    && rs.trashed_name@ == name && rs.meta_path@ == trash_meta_path(email)
                    && rs.steps@.len() == 0,
            }
        }),
{
    let email = param_or_empty(q, "email");
    let name = param_or_empty(q, "name");
    if email.as_str().is_empty() || name.as_str().is_empty() {
        return Err(
            Reply::text(Status::BadRequest, "❌ Required: email and trashed folder name"),
        );
    }
    let root = under_uploads_path(email.as_str());
    let trash = concat2(root.as_str(), "/trash");
    let meta_path = concat2(trash.as_str(), "/.trash_meta.json");
    Ok(TrashRestore { steps: Vec::new(), email, trashed_name: name, meta_path })
}

/// What restoring the trashed folder `trashed` of `email` does, given the
/// stored index (an absent index is an empty one).
pub open spec fn finish_restore_folder_plan(
    email: Seq<char>,
    trashed: Seq<char>,
    meta_path: Seq<char>,
    stored: StoredMetaView,
) -> PlanView {
    let index = stored_index(stored);
    if original_name(index, trashed) is None {
        answer_view(text_reply(Status::BadRequest, "❌ Folder not found in trash"@))
    } else {
        let original = index[trashed];
        PlanView {
            steps: seq![
                StepView::Rename {
                    from: trash_dir(email) + "/"@ + trashed,
                    to: in_user_dir(email, original),
                    on_error: fails_with_error(
                        Status::InternalServerError,
                        "❌ Failed to restore folder: "@,
                    ),
                },
            ] + save_index_steps(
                meta_path,
                index_after_restore(index, trashed),
                "❌ Failed to update trash metadata: "@,
            ),
            done: text_reply(Status::Success, "✅ Folder '"@ + original + "' restored"@),
        }
    }
}

/// Moves the trashed folder back to the name the index records for it, and
/// takes its entry out of the index.
pub fn finish_restore_folder(rs: TrashRestore, stored: &StoredMeta) -> (p: Plan)
    ensures
        p@ == finish_restore_folder_plan(rs.email@, rs.trashed_name@, rs.meta_path@, stored@),
        original_name(stored_index(stored@), rs.trashed_name@) is Some ==> written_reads_back(
            index_after_restore(stored_index(stored@), rs.trashed_name@),
        ),
{
    let mut index = load_trash_index(stored);
    let original = match index.remove(rs.trashed_name.as_str()) {
        Some(o) => o,
        None => return Plan::answer(Reply::text(Status::BadRequest, "❌ Folder not found in trash")),
    };
    let root = under_uploads_path(rs.email.as_str());
    let trash = concat2(root.as_str(), "/trash");
    let trashed_path = child_path(trash.as_str(), rs.trashed_name.as_str());
    let restore_path = in_user_dir_path(rs.email.as_str(), original.as_str());
    let mut steps: Vec<Step> = Vec::new();
    steps.push(
        Step::Rename {
            from: trashed_path,
            to: restore_path,
            on_error: fail_with_error(Status::InternalServerError, "❌ Failed to restore folder: "),
        },
    );
    save_index(&mut steps, rs.meta_path.as_str(), &index, "❌ Failed to update trash metadata: ");
    let done = Reply::owned_text(Status::Success, concat3("✅ Folder '", original.as_str(), "' restored"));
    let p = Plan { steps, done };
    assert(p@.steps =~= finish_restore_folder_plan(
        rs.email@,
        rs.trashed_name@,
        rs.meta_path@,
        stored@,
    ).steps);
    p
}

/// Law: restoring a trashed entry finds the name it was trashed from, and,
/// where the trashed name was new to the index, leaves the index as it was
/// before the move into the trash.
pub proof fn lemma_restore_undoes_trash(
    index: Map<Seq<char>, Seq<char>>,
    trashed: Seq<char>,
    original: Seq<char>,
)
    ensures
        original_name(index_after_trash(index, trashed, original), trashed) == Some(original),
        !index.contains_key(trashed) ==> index_after_restore(
            index_after_trash(index, trashed, original),
            trashed,
        ) == index,
{
    if !index.contains_key(trashed) {
        assert(index.insert(trashed, original).remove(trashed) =~= index);
    }
}

} // verus!

verus! {

/// Law: restoring a file that was moved into the trash moves it back where
/// it came from. Where the stored index is the text that the move wrote
/// (`finish_trash` writes the index with the move recorded, and that text
/// reads back, see its `ensures`), and the trashed name was new to the index
/// before the move: the restore reads the move back, its first step renames
/// the trashed file from where the move put it to where the move took it
/// from, it then writes the index as it was before the move, and it answers
/// that the file was restored under its old name.
pub proof fn lemma_restore_reverses_trash_move(
    email: Seq<char>,
    file: Seq<char>,
    timestamp: int,
    index: Map<Seq<char>, Seq<char>>,
)
    requires
        !index.contains_key(trashed_name(file, timestamp)),
        written_reads_back(index_after_trash(index, trashed_name(file, timestamp), file)),
    ensures
        ({
            let trashed = trashed_name(file, timestamp);
            let after_move = index_after_trash(index, trashed, file);
            let stored = StoredMetaView::Text(pretty_json_of(after_move)->0);
            let moved = trash_file_steps(email, file, trashed)[2];
            let plan = finish_restore_file_plan(email, trashed, trash_meta_path(email), stored);
            let restored = plan.steps[0];
            &&& stored_index(stored) == after_move
            &&& moved is Rename
            &&& restored is Rename
            &&& restored->Rename_from == moved->Rename_to
            &&& restored->Rename_to == moved->Rename_from
            &&& plan.steps.drop_first() == save_index_steps(
                trash_meta_path(email),
                index,
                "❌ Failed to update trash metadata: "@,
            )
            &&& plan.done == text_reply(
                Status::Success,
                "✅ File '"@ + file + "' restored successfully"@,
            )
        }),
{
    let trashed = trashed_name(file, timestamp);
    lemma_restore_undoes_trash(index, trashed, file);
    let after_move = index_after_trash(index, trashed, file);
    let stored = StoredMetaView::Text(pretty_json_of(after_move)->0);
    assert(stored_index(stored) == after_move);
    let plan = finish_restore_file_plan(email, trashed, trash_meta_path(email), stored);
    assert(plan.steps.drop_first() =~= save_index_steps(
        trash_meta_path(email),
        index,
        "❌ Failed to update trash metadata: "@,
    ));
}

} // verus!

verus! {

/// Law: moving the same file into the trash at two different times gives
/// two different trashed names.
pub proof fn lemma_trashed_names_distinct(file: Seq<char>, t1: int, t2: int)
    requires
        t1 != t2,
    ensures
        trashed_name(file, t1) != trashed_name(file, t2),
{
    if trashed_name(file, t1) == trashed_name(file, t2) {
        let prefix = file + "_"@;
        assert(trashed_name(file, t1).skip(prefix.len() as int) =~= decimal(t1));
        assert(trashed_name(file, t2).skip(prefix.len() as int) =~= decimal(t2));
        crate::text::lemma_decimal_injective(t1, t2);
    }
}

/// Law: a move into the trash checks that the file is there before moving
/// it. Where the user's file exists, none of the checks of the move fails
/// and the move goes on to rename that very file into the trash under the
/// trashed name; where it does not, the move refuses at once with 400
/// "❌ File does not exist".
pub proof fn lemma_trash_move_needs_the_file(email: Seq<char>, file: Seq<char>, trashed: Seq<char>)
    ensures
        crate::plan::looks_before_acting(
            trash_file_steps(email, file, trashed),
            in_user_dir(email, file),
            text_reply(Status::BadRequest, "❌ File does not exist"@),
        ),
        trash_file_steps(email, file, trashed)[2] matches StepView::Rename { from, to, .. } && from
            == in_user_dir(email, file) && to == trash_dir(email) + "/"@ + trashed,
{
    let steps = trash_file_steps(email, file, trashed);
    let src = in_user_dir(email, file);
    assert forall|existing: Set<Seq<char>>, i: int|
        existing.contains(src) && 0 <= i < steps.len() implies (#[trigger] crate::plan::check_outcome(
        existing,
        steps[i],
    )) is None by {
        if i == 0 {
        } else if i == 1 {
        } else {
        }
    }
    assert(crate::plan::step_source(steps[2]) == Some(src));
}

} // verus!
