//! Uploads into a user's storage: a session that decides, event by event,
//! what the upload handlers do, and keeps each user under the quota.

use vstd::prelude::*;
use crate::pathname::{extension_of, path_extension, push_path, pushed};
use crate::files::download_file_plan;
use crate::paths::{in_user_dir, under_uploads, under_uploads_path, upload_dir, upload_subdir_path};
use crate::plan::{Step, StepView, fail_with_text, fails_with_text};
use crate::query::{param, param_or_empty, trimmed_param};
use crate::reply::{Reply, ReplyView, Status, text_reply};
use crate::storage::MAX_STORAGE_BYTES;
use crate::strmap::StrMap;
use crate::text::{concat2, concat3, trimmed};

verus! {

/// What the handler observed since the last action.
#[derive(Debug)]
pub enum UploadEvent {
    /// The multipart payload has no (more) fields.
    NoField,
    /// Reading the next field failed.
    FieldError,
    /// A field arrived, with the file name of its content disposition, if any.
    Field(Option<String>),
    /// The bytes already stored in the upload directory.
    FolderSize(u64),
    /// The file was created.
    Created,
    /// The file could not be created.
    CreateFailed,
    /// A chunk of this many bytes arrived.
    Chunk(u64),
    /// Reading the next chunk failed.
    ChunkError,
    /// The field has no more chunks.
    EndOfField,
    /// The last chunk was written to the file.
    Written,
    /// Writing the last chunk failed.
    WriteFailed,
}

/// An event by the characters of its file name.
pub enum UploadEventView {
    NoField,
    FieldError,
    Field(Option<Seq<char>>),
    FolderSize(u64),
    Created,
    CreateFailed,
    Chunk(u64),
    ChunkError,
    EndOfField,
    Written,
    WriteFailed,
}

impl View for UploadEvent {
    type V = UploadEventView;

    open spec fn view(&self) -> UploadEventView {
        match self {
            UploadEvent::NoField => UploadEventView::NoField,
            UploadEvent::FieldError => UploadEventView::FieldError,
            UploadEvent::Field(name) => UploadEventView::Field(
                match name {
                    Some(n) => Some(n@),
                    None => None,
                },
            ),
            UploadEvent::FolderSize(n) => UploadEventView::FolderSize(*n),
            UploadEvent::Created => UploadEventView::Created,
            UploadEvent::CreateFailed => UploadEventView::CreateFailed,
            UploadEvent::Chunk(n) => UploadEventView::Chunk(*n),
            UploadEvent::ChunkError => UploadEventView::ChunkError,
            UploadEvent::EndOfField => UploadEventView::EndOfField,
            UploadEvent::Written => UploadEventView::Written,
            UploadEvent::WriteFailed => UploadEventView::WriteFailed,
        }
    }
}

/// What the handler does next.
#[derive(Debug)]
pub enum UploadAction {
    /// Read the next field of the payload.
    ReadField,
    /// Measure the bytes stored under this directory.
    MeasureFolder(String),
    /// Create the file at this path.
    CreateFile(String),
    /// Read the next chunk of the field.
    ReadChunk,
    /// Write the chunk just read to the file.
    WriteChunk,
    /// Answer this, and stop.
    Answer(Reply),
    /// Remove the file at this path (ignoring failure), answer this, and stop.
    RemoveAndAnswer(String, Reply),
}

/// An action by the characters of its paths and reply.
pub enum UploadActionView {
    ReadField,
    MeasureFolder(Seq<char>),
    CreateFile(Seq<char>),
    ReadChunk,
    WriteChunk,
    Answer(ReplyView),
    RemoveAndAnswer(Seq<char>, ReplyView),
}

impl View for UploadAction {
    type V = UploadActionView;

    open spec fn view(&self) -> UploadActionView {
        match self {
            UploadAction::ReadField => UploadActionView::ReadField,
            UploadAction::MeasureFolder(p) => UploadActionView::MeasureFolder(p@),
            UploadAction::CreateFile(p) => UploadActionView::CreateFile(p@),
            UploadAction::ReadChunk => UploadActionView::ReadChunk,
            UploadAction::WriteChunk => UploadActionView::WriteChunk,
            UploadAction::Answer(r) => UploadActionView::Answer(r@),
            UploadAction::RemoveAndAnswer(p, r) => UploadActionView::RemoveAndAnswer(p@, r@),
        }
    }
}

#[derive(Debug)]
enum Phase {
    AwaitingField,
    Measuring(String),
    Creating(String, u64),
    Receiving(String, u64, u64),
    Writing(String, u64, u64),
    Done,
}

/// Where an upload session stands: waiting for a field; measuring the
/// directory for the file at a path; creating that file, with the bytes
/// already stored; receiving or writing its chunks, with the bytes already
/// stored and the bytes received; or done.
pub enum PhaseView {
    AwaitingField,
    Measuring(Seq<char>),
    Creating(Seq<char>, u64),
    Receiving(Seq<char>, u64, u64),
    Writing(Seq<char>, u64, u64),
    Done,
}

/// An upload into the directory `dir`.
#[derive(Debug)]
pub struct UploadSession {
    dir: String,
    into_folder: bool,
    phase: Phase,
}

/// A session by its directory, by how file paths are made in it (by
/// `PathBuf::join` where `into_folder` holds, by `format!("{}/{}")`
/// otherwise), and by its phase.
pub struct SessionView {
    pub dir: Seq<char>,
    pub into_folder: bool,
    pub phase: PhaseView,
}

impl View for UploadSession {
    type V = SessionView;

    closed spec fn view(&self) -> SessionView {
        SessionView {
            dir: self.dir@,
            into_folder: self.into_folder,
            phase: match self.phase {
                Phase::AwaitingField => PhaseView::AwaitingField,
                Phase::Measuring(p) => PhaseView::Measuring(p@),
                Phase::Creating(p, c) => PhaseView::Creating(p@, c),
                Phase::Receiving(p, c, w) => PhaseView::Receiving(p@, c, w),
                Phase::Writing(p, c, w) => PhaseView::Writing(p@, c, w),
                Phase::Done => PhaseView::Done,
            },
        }
    }
}

/// Whether `id` is a UUID in the lower-case hyphenated form.
pub open spec fn is_uuid_text(id: Seq<char>) -> bool {
    &&& id.len() == 36
    &&& forall|i: int|
        0 <= i < 36 ==> if i == 8 || i == 13 || i == 18 || i == 23 {
            id[i] == '-'
        } else {
            ('0' <= #[trigger] id[i] <= '9') || ('a' <= id[i] <= 'f')
        }
}

/// `Uuid::new_v4().to_string()`: a random UUID, in the lower-case
/// hyphenated form that `Uuid`'s `Display` writes; which one is left open.
#[verifier::external_body]
pub fn new_upload_id() -> (id: String)
    ensures
        is_uuid_text(id@),
{
    uuid::Uuid::new_v4().to_string()
}

/// The name a file is stored under: the upload id, a dot, and the
/// extension of the name it was sent with (`bin` where it has none).
pub open spec fn stored_name(id: Seq<char>, original: Seq<char>) -> Seq<char> {
    id + "."@ + match extension_of(original) {
        Some(e) => e,
        None => "bin"@,
    }
}

/// The path of the file `name` in the session's directory.
pub open spec fn file_path_in(s: SessionView, name: Seq<char>) -> Seq<char> {
    if s.into_folder {
        pushed(s.dir, name)
    } else {
        s.dir + "/"@ + name
    }
}

/// Whether the session can take the event `e` now: each phase takes the
/// outcomes of the action it asked for, and a chunk is no longer than a
/// slice can be.
pub open spec fn takes(s: SessionView, e: UploadEventView) -> bool {
    match s.phase {
        PhaseView::AwaitingField => e is NoField || e is FieldError || e is Field,
        PhaseView::Measuring(_) => e is FolderSize,
        PhaseView::Creating(_, _) => e is Created || e is CreateFailed,
        PhaseView::Receiving(_, _, _) => (e is Chunk && e->Chunk_0 <= 0x7fff_ffff_ffff_ffffu64)
            || e is ChunkError || e is EndOfField,
        PhaseView::Writing(_, _, _) => e is Written || e is WriteFailed,
        PhaseView::Done => false,
    }
}

/// The quota holds: a file is only created below the quota, and the bytes
/// stored and received together never exceed it.
pub open spec fn within_quota(s: SessionView) -> bool {
    match s.phase {
        PhaseView::Creating(_, c) => c < MAX_STORAGE_BYTES,
        PhaseView::Receiving(_, c, w) => c < MAX_STORAGE_BYTES && c + w <= MAX_STORAGE_BYTES,
        PhaseView::Writing(_, c, w) => c < MAX_STORAGE_BYTES && c + w <= MAX_STORAGE_BYTES,
        _ => true,
    }
}

/// The session `s` in the phase `phase`.
pub open spec fn with_phase(s: SessionView, phase: PhaseView) -> SessionView {
    SessionView { dir: s.dir, into_folder: s.into_folder, phase }
}

/// The session `s` done, answering `reply`.
pub open spec fn finish(s: SessionView, reply: ReplyView) -> (SessionView, UploadActionView) {
    (with_phase(s, PhaseView::Done), UploadActionView::Answer(reply))
}

/// The session's next state and action after the event `e`, where a new
/// file is named after the upload id `id`.
pub open spec fn upload_next(s: SessionView, e: UploadEventView, id: Seq<char>) -> (
    SessionView,
    UploadActionView,
) {
    match s.phase {
        PhaseView::AwaitingField => match e {
            UploadEventView::Field(Some(name)) => {
                let path = file_path_in(s, stored_name(id, name));
                (with_phase(s, PhaseView::Measuring(path)), UploadActionView::MeasureFolder(s.dir))
            },
            UploadEventView::Field(None) => finish(
                s,
                text_reply(Status::BadRequest, "❌ Missing filename."@),
            ),
            UploadEventView::FieldError => finish(
                s,
                text_reply(Status::BadRequest, "Error processing the file."@),
            ),
            _ => finish(s, text_reply(Status::BadRequest, "⚠️ No file uploaded."@)),
        },
        PhaseView::Measuring(path) => {
            let current = e->FolderSize_0;
            if current >= MAX_STORAGE_BYTES {
                finish(s, text_reply(Status::Forbidden, "❌ Storage limit (500MB) reached."@))
            } else {
                (with_phase(s, PhaseView::Creating(path, current)), UploadActionView::CreateFile(path))
            }
        },
        PhaseView::Creating(path, current) => if e is Created {
            (with_phase(s, PhaseView::Receiving(path, current, 0)), UploadActionView::ReadChunk)
        } else {
            finish(s, text_reply(Status::InternalServerError, "File creation failed."@))
        },
        PhaseView::Receiving(path, current, written) => match e {
            UploadEventView::Chunk(len) => if current + written + len > MAX_STORAGE_BYTES {
                (
                    with_phase(s, PhaseView::Done),
                    UploadActionView::RemoveAndAnswer(
                        path,
                        text_reply(Status::Forbidden, "❌ Upload exceeds 500MB limit."@),
                    ),
                )
            } else {
                (
                    with_phase(s, PhaseView::Writing(path, current, (written + len) as u64)),
                    UploadActionView::WriteChunk,
                )
            },
            UploadEventView::ChunkError => finish(
                s,
                text_reply(Status::InternalServerError, "Error reading file."@),
            ),
            _ => finish(s, text_reply(Status::Success, "✅ File uploaded to: "@ + path)),
        },
        PhaseView::Writing(path, current, written) => if e is Written {
            (with_phase(s, PhaseView::Receiving(path, current, written)), UploadActionView::ReadChunk)
        } else {
            finish(s, text_reply(Status::InternalServerError, "File upload failed."@))
        },
        PhaseView::Done => (s, UploadActionView::ReadField),
    }
}

/// The start of an upload: the directory that `init_upload_dir` makes sure
/// of, the steps taken before the payload is read, and the session.
#[derive(Debug)]
pub struct UploadStart {
    pub init_dir: String,
    pub steps: Vec<Step>,
    pub session: UploadSession,
}

impl UploadSession {
    fn file_path(&self, name: &str) -> (r: String)
        ensures
            r@ == file_path_in(self@, name@),
    {
        if self.into_folder {
            let mut p = self.dir.clone();
            push_path(&mut p, name);
            p
        } else {
            concat3(self.dir.as_str(), "/", name)
        }
    }

    /// Takes the event `e`, where a new file is named after the upload id
    /// `id`, and says what to do next.
    pub fn step_with_id(&mut self, e: UploadEvent, id: &str) -> (a: UploadAction)
        requires
            takes(old(self)@, e@),
            within_quota(old(self)@),
        ensures
            (final(self)@, a@) == upload_next(old(self)@, e@, id@),
            within_quota(final(self)@),
            old(self)@.phase is AwaitingField ==> (e@ matches UploadEventView::Field(Some(name))
                ==> (!id@.contains('/') ==> !stored_name(id@, name).contains('/'))),
    {
        let mut phase = Phase::Done;
        std::mem::swap(&mut phase, &mut self.phase);
        match phase {
            Phase::AwaitingField => match e {
                UploadEvent::Field(Some(name)) => {
                    let ext = match path_extension(name.as_str()) {
                        Some(x) => x,
                        None => String::from_str("bin"),
                    };
                    let stored = concat3(id, ".", ext.as_str());
                    proof {
                        reveal_strlit(".");
                        reveal_strlit("bin");
                        if !id@.contains('/') {
                            assert(stored@ == stored_name(id@, name@));
                            assert forall|k: int| 0 <= k < stored@.len() implies stored@[k]
                                != '/' by {
                                if k < id@.len() {
                                    assert(stored@[k] == id@[k]);
                                } else if k > id@.len() {
                                    assert(stored@[k] == ext@[k - id@.len() - 1]);
                                }
                            }
                        }
                    }
                    let path = self.file_path(stored.as_str());
                    self.phase = Phase::Measuring(path);
                    UploadAction::MeasureFolder(self.dir.clone())
                },
                UploadEvent::Field(None) => UploadAction::Answer(
                    Reply::text(Status::BadRequest, "❌ Missing filename."),
                ),
                UploadEvent::FieldError => UploadAction::Answer(
                    Reply::text(Status::BadRequest, "Error processing the file."),
                ),
                _ => UploadAction::Answer(Reply::text(Status::BadRequest, "⚠️ No file uploaded.")),
            },
            Phase::Measuring(path) => {
                let current: u64 = match e {
                    UploadEvent::FolderSize(n) => n,
                    _ => 0,
                };
                if current >= MAX_STORAGE_BYTES {
                    UploadAction::Answer(
                        Reply::text(Status::Forbidden, "❌ Storage limit (500MB) reached."),
                    )
                } else {
                    self.phase = Phase::Creating(path.clone(), current);
                    UploadAction::CreateFile(path)
                }
            },
            Phase::Creating(path, current) => match e {
                UploadEvent::Created => {
                    self.phase = Phase::Receiving(path, current, 0);
                    UploadAction::ReadChunk
                },
                _ => UploadAction::Answer(
                    Reply::text(Status::InternalServerError, "File creation failed."),
                ),
            },
            Phase::Receiving(path, current, written) => match e {
                UploadEvent::Chunk(len) => {
                    if len > MAX_STORAGE_BYTES - current - written {
                        UploadAction::RemoveAndAnswer(
                            path,
                            Reply::text(Status::Forbidden, "❌ Upload exceeds 500MB limit."),
                        )
                    } else {
                        self.phase = Phase::Writing(path, current, written + len);
                        UploadAction::WriteChunk
                    }
                },
                UploadEvent::ChunkError => UploadAction::Answer(
                    Reply::text(Status::InternalServerError, "Error reading file."),
                ),
                _ => UploadAction::Answer(
                    Reply::owned_text(Status::Success, concat2("✅ File uploaded to: ", path.as_str())),
                ),
            },
            Phase::Writing(path, current, written) => match e {
                UploadEvent::Written => {
                    self.phase = Phase::Receiving(path, current, written);
                    UploadAction::ReadChunk
                },
                _ => UploadAction::Answer(
                    Reply::text(Status::InternalServerError, "File upload failed."),
                ),
            },
            Phase::Done => UploadAction::ReadField,
        }
    }

    /// Takes the event `e` and says what to do next; a new file is named
    /// after a fresh random upload id.
    pub fn step(&mut self, e: UploadEvent) -> (a: UploadAction)
        requires
            takes(old(self)@, e@),
            within_quota(old(self)@),
        ensures
            exists|id: Seq<char>|
                is_uuid_text(id) && (final(self)@, a@) == upload_next(old(self)@, e@, id) && (
                old(self)@.phase is AwaitingField ==> (e@ matches UploadEventView::Field(Some(name))
                    ==> !stored_name(id, name).contains('/'))),
            within_quota(final(self)@),
    {
        let id = new_upload_id();
        proof {
            assert forall|k: int| 0 <= k < id@.len() implies id@[k] != '/' by {
                assert(is_uuid_text(id@));
            }
        }
        self.step_with_id(e, id.as_str())
    }

    /// Whether the session is done.
    pub fn is_done(&self) -> (b: bool)
        ensures
            b == (self@.phase is Done),
    {
        match self.phase {
            Phase::Done => true,
            _ => false,
        }
    }
}

/// The session of `upload` for the query `q`.
pub open spec fn upload_session(email: Seq<char>) -> SessionView {
    SessionView { dir: under_uploads(email), into_folder: false, phase: PhaseView::AwaitingField }
}

/// `upload`: stores the first file of the payload in the directory of the
/// user `email`, under a fresh name.
pub fn upload(q: &StrMap) -> (r: Result<UploadStart, Reply>)
    ensures
        match r {
            Err(reply) => !q@.contains_key("email"@) && reply@ == text_reply(
                Status::BadRequest,
                "❌ Missing email query parameter"@,
            ),
            Ok(start) => q@.contains_key("email"@) && start.init_dir@ == upload_dir() + trimmed(
                q@["email"@],
            ) && start.steps@.len() == 0 && start.session@ == upload_session(
                trimmed(q@["email"@]),
            ),
        },
{
    let email = match trimmed_param(q, "email") {
        Some(e) => e,
        None => return Err(Reply::text(Status::BadRequest, "❌ Missing email query parameter")),
    };
    let init_dir = upload_subdir_path(Some(email.as_str()));
    let dir = under_uploads_path(email.as_str());
    Ok(
        UploadStart {
            init_dir,
            steps: Vec::new(),
            session: UploadSession { dir, into_folder: false, phase: Phase::AwaitingField },
        },
    )
}

/// The directory that `upload_folder` stores into: the user's directory,
/// then the subfolder where one is given, each added as `PathBuf::push` adds.
pub open spec fn upload_folder_dir(email: Seq<char>, sub: Seq<char>) -> Seq<char> {
    let user = pushed(upload_dir(), email);
    if sub.len() == 0 {
        user
    } else {
        pushed(user, sub)
    }
}

/// `upload_folder`: creates the directory `upload_folder_dir`, then stores
/// the first file of the payload there, under a fresh name.
pub fn upload_folder(q: &StrMap) -> (r: Result<UploadStart, Reply>)
    ensures
        match r {
            Err(reply) => !q@.contains_key("email"@) && reply@ == text_reply(
                Status::BadRequest,
                "❌ Missing email query parameter"@,
            ),
            Ok(start) => {
                let email = trimmed(q@["email"@]);
                let dir = upload_folder_dir(email, param(q@, "subfolder"@));
                &&& q@.contains_key("email"@)
                &&& start.init_dir@ == upload_dir() + email
                &&& start.steps@.map_values(|s: Step| s@) == seq![
                    StepView::CreateDirAll {
                        path: dir,
                        on_error: fails_with_text(
                            Status::InternalServerError,
                            "Failed to create user directory"@,
                        ),
                    },
                ]
                &&& start.session@ == SessionView {
                    dir,
                    into_folder: true,
                    phase: PhaseView::AwaitingField,
                }
            },
        },
{
    let email = match trimmed_param(q, "email") {
        Some(e) => e,
        None => return Err(Reply::text(Status::BadRequest, "❌ Missing email query parameter")),
    };
    let sub = param_or_empty(q, "subfolder");
    let init_dir = upload_subdir_path(Some(email.as_str()));
    let mut dir = String::from_str(crate::paths::UPLOAD_DIR);
    push_path(&mut dir, email.as_str());
    if !sub.as_str().is_empty() {
        push_path(&mut dir, sub.as_str());
    }
    let mut steps: Vec<Step> = Vec::new();
    steps.push(
        Step::CreateDirAll {
            path: dir.clone(),
            on_error: fail_with_text(Status::InternalServerError, "Failed to create user directory"),
        },
    );
    let start = UploadStart {
        init_dir,
        steps,
        session: UploadSession { dir, into_folder: true, phase: Phase::AwaitingField },
    };
    assert(start.steps@.map_values(|s: Step| s@) =~= seq![
        StepView::CreateDirAll {
            path: upload_folder_dir(email@, sub@),
            on_error: fails_with_text(
                Status::InternalServerError,
                "Failed to create user directory"@,
            ),
        },
    ]);
    Ok(start)
}

/// Law: every step of an upload keeps it within the quota: no file is
/// created once the stored bytes reach the quota, and no chunk is accepted
/// that would bring the stored and received bytes above it.
pub proof fn lemma_upload_within_quota(s: SessionView, e: UploadEventView, id: Seq<char>)
    requires
        within_quota(s),
        takes(s, e),
    ensures
        within_quota(upload_next(s, e, id).0),
{
}

/// Law: a chunk is refused exactly when the bytes stored, received and
/// arriving together exceed the quota; a refused upload removes its file.
pub proof fn lemma_chunk_refused_iff_over_quota(
    s: SessionView,
    path: Seq<char>,
    current: u64,
    written: u64,
    len: u64,
    id: Seq<char>,
)
    requires
        s.phase == PhaseView::Receiving(path, current, written),
    ensures
        (upload_next(s, UploadEventView::Chunk(len), id).1 is RemoveAndAnswer) <==> current
            + written + len > MAX_STORAGE_BYTES,
        upload_next(s, UploadEventView::Chunk(len), id).1 is RemoveAndAnswer
            ==> upload_next(s, UploadEventView::Chunk(len), id).1->RemoveAndAnswer_0 == path,
{
}

/// Law: the file that an upload of the user `email` creates is the file
/// that a download of its stored name for that user reads.
pub proof fn lemma_download_reads_uploaded_file(
    email: Seq<char>,
    original: Seq<char>,
    id: Seq<char>,
    current: u64,
    q: Map<Seq<char>, Seq<char>>,
)
    requires
        q.contains_key("email"@),
        trimmed(q["email"@]) == email,
        current < MAX_STORAGE_BYTES,
    ensures
        ({
            let name = stored_name(id, original);
            let measured = upload_next(
                upload_session(email),
                UploadEventView::Field(Some(original)),
                id,
            ).0;
            let created = upload_next(measured, UploadEventView::FolderSize(current), id).1;
            let read = download_file_plan(name, q).steps[1];
            &&& created == UploadActionView::CreateFile(in_user_dir(email, name))
            &&& read is ReadFile
            &&& read->ReadFile_path == in_user_dir(email, name)
        }),
{
}

/// Law: an upload measures the directory it stores into. When a field with
/// a file name arrives, whether the session uploads into the user's
/// directory or into a folder of it, the session asks for the size of its
/// directory `s.dir`, the one whose bytes count against the quota, and the
/// file it will create is named after the upload id and lies directly in
/// that directory.
pub proof fn lemma_upload_measures_its_directory(
    s: SessionView,
    name: Seq<char>,
    id: Seq<char>,
)
    requires
        s.phase is AwaitingField,
        id.len() == 0 || id[0] != '/',
    ensures
        upload_next(s, UploadEventView::Field(Some(name)), id).1 == UploadActionView::MeasureFolder(
            s.dir,
        ),
        upload_next(s, UploadEventView::Field(Some(name)), id).0.phase matches PhaseView::Measuring(
            path,
        ) && (path == s.dir + "/"@ + stored_name(id, name) || path == s.dir + stored_name(
            id,
            name,
        )),
{
    let st = stored_name(id, name);
    reveal_strlit(".");
    if id.len() > 0 {
        assert(st[0] == id[0]);
    } else {
        assert(st[0] == '.');
    }
}

/// Law: an upload is refused before it starts exactly when the directory
/// it stores into already holds the quota or more. Once the directory was
/// measured at `current` bytes, the session answers 403 "❌ Storage limit
/// (500MB) reached." where `current` is at least 500 MiB, and otherwise
/// creates the file it will store, counting `current` bytes as stored.
pub proof fn lemma_full_directory_refused(s: SessionView, path: Seq<char>, current: u64, id: Seq<char>)
    requires
        s.phase == PhaseView::Measuring(path),
    ensures
        current >= MAX_STORAGE_BYTES ==> upload_next(s, UploadEventView::FolderSize(current), id).1
            == UploadActionView::Answer(
            text_reply(Status::Forbidden, "❌ Storage limit (500MB) reached."@),
        ),
        current < MAX_STORAGE_BYTES ==> upload_next(s, UploadEventView::FolderSize(current), id).1
            == UploadActionView::CreateFile(path) && upload_next(
            s,
            UploadEventView::FolderSize(current),
            id,
        ).0.phase == PhaseView::Creating(path, current),
{
}

} // verus!
