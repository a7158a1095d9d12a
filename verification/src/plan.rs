//! A plan: the file system steps that a handler takes in order, what it
//! answers when one of them fails, and what it answers when all succeed.

use vstd::prelude::*;
use crate::reply::{Reply, ReplyView, Status, text_reply};
use crate::text::concat2;

verus! {

/// What a handler answers when a step fails with an error.
#[derive(Debug)]
pub enum Failure {
    /// The reply has this status, and this text, followed by the error's
    /// message where `with_error` holds.
    Answer { status: Status, text: String, with_error: bool },
    /// The handler does not answer: it unwraps the error and panics.
    Abort,
}

/// A failure answer by the characters of its text.
pub enum FailureView {
    Answer { status: Status, text: Seq<char>, with_error: bool },
    Abort,
}

/// One file system step.
#[derive(Debug)]
pub enum Step {
    /// Whether `path` exists must be `expected`; otherwise the handler
    /// answers `otherwise`.
    Exists { path: String, expected: bool, otherwise: Reply },
    /// `fs::create_dir_all(path)`.
    CreateDirAll { path: String, on_error: Failure },
    /// `fs::remove_file(path)`.
    RemoveFile { path: String, on_error: Failure },
    /// `fs::remove_dir_all(path)`.
    RemoveDirAll { path: String, on_error: Failure },
    /// `fs::rename(from, to)`.
    Rename { from: String, to: String, on_error: Failure },
    /// `fs::copy(from, to)`.
    CopyFile { from: String, to: String, on_error: Failure },
    /// Copies the directory `from` into the directory `into`, keeping its name.
    CopyDirInto { from: String, into: String, on_error: Failure },
    /// `fs::read(path)`; the bytes become the body of a download reply.
    ReadFile { path: String, on_error: Failure },
    /// `fs::write(path, contents)`.
    WriteFile { path: String, contents: String, on_error: Failure },
}

/// A step by the characters of its paths and texts.
pub enum StepView {
    Exists { path: Seq<char>, expected: bool, otherwise: ReplyView },
    CreateDirAll { path: Seq<char>, on_error: FailureView },
    RemoveFile { path: Seq<char>, on_error: FailureView },
    RemoveDirAll { path: Seq<char>, on_error: FailureView },
    Rename { from: Seq<char>, to: Seq<char>, on_error: FailureView },
    CopyFile { from: Seq<char>, to: Seq<char>, on_error: FailureView },
    CopyDirInto { from: Seq<char>, into: Seq<char>, on_error: FailureView },
    ReadFile { path: Seq<char>, on_error: FailureView },
    WriteFile { path: Seq<char>, contents: Seq<char>, on_error: FailureView },
}

/// The steps of a handler, and its reply when every step succeeds.
#[derive(Debug)]
pub struct Plan {
    pub steps: Vec<Step>,
    pub done: Reply,
}

/// A plan by the characters of its paths and texts.
pub struct PlanView {
    pub steps: Seq<StepView>,
    pub done: ReplyView,
}

impl View for Failure {
    type V = FailureView;

    open spec fn view(&self) -> FailureView {
        match self {
            Failure::Answer { status, text, with_error } => FailureView::Answer {
                status: *status,
                text: text@,
                with_error: *with_error,
            },
            Failure::Abort => FailureView::Abort,
        }
    }
}

impl View for Step {
    type V = StepView;

    open spec fn view(&self) -> StepView {
        match self {
            Step::Exists { path, expected, otherwise } => StepView::Exists {
                path: path@,
                expected: *expected,
                otherwise: otherwise@,
            },
            Step::CreateDirAll { path, on_error } => StepView::CreateDirAll {
                path: path@,
                on_error: on_error@,
            },
            Step::RemoveFile { path, on_error } => StepView::RemoveFile {
                path: path@,
                on_error: on_error@,
            },
            Step::RemoveDirAll { path, on_error } => StepView::RemoveDirAll {
                path: path@,
                on_error: on_error@,
            },
            Step::Rename { from, to, on_error } => StepView::Rename {
                from: from@,
                to: to@,
                on_error: on_error@,
            },
            Step::CopyFile { from, to, on_error } => StepView::CopyFile {
                from: from@,
                to: to@,
                on_error: on_error@,
            },
            Step::CopyDirInto { from, into, on_error } => StepView::CopyDirInto {
                from: from@,
                into: into@,
                on_error: on_error@,
            },
            Step::ReadFile { path, on_error } => StepView::ReadFile {
                path: path@,
                on_error: on_error@,
            },
            Step::WriteFile { path, contents, on_error } => StepView::WriteFile {
                path: path@,
                contents: contents@,
                on_error: on_error@,
            },
        }
    }
}

impl View for Plan {
    type V = PlanView;

    open spec fn view(&self) -> PlanView {
        PlanView { steps: self.steps@.map_values(|s: Step| s@), done: self.done@ }
    }
}

/// The answer `f` gives to a failure whose message is `error`.
pub open spec fn failure_reply(f: FailureView, error: Seq<char>) -> Option<ReplyView> {
    match f {
        FailureView::Answer { status, text, with_error } => Some(
            text_reply(
                status,
                if with_error {
                    text + error
                } else {
                    text
                },
            ),
        ),
        FailureView::Abort => None,
    }
}

/// What a handler answers when `step` fails with the message `error`
/// (an `Exists` step fails when the path's existence is not the expected one).
pub open spec fn step_failure_reply(step: StepView, error: Seq<char>) -> Option<ReplyView> {
    match step {
        StepView::Exists { otherwise, .. } => Some(otherwise),
        StepView::CreateDirAll { on_error, .. } => failure_reply(on_error, error),
        StepView::RemoveFile { on_error, .. } => failure_reply(on_error, error),
        StepView::RemoveDirAll { on_error, .. } => failure_reply(on_error, error),
        StepView::Rename { on_error, .. } => failure_reply(on_error, error),
        StepView::CopyFile { on_error, .. } => failure_reply(on_error, error),
        StepView::CopyDirInto { on_error, .. } => failure_reply(on_error, error),
        StepView::ReadFile { on_error, .. } => failure_reply(on_error, error),
        StepView::WriteFile { on_error, .. } => failure_reply(on_error, error),
    }
}

/// The answer to a failure that adds the error's message after `text`.
pub fn fail_with_error(status: Status, text: &str) -> (f: Failure)
    ensures
        f@ == (FailureView::Answer { status, text: text@, with_error: true }),
{
    Failure::Answer { status, text: String::from_str(text), with_error: true }
}

/// The answer to a failure that is `text` alone.
pub fn fail_with_text(status: Status, text: &str) -> (f: Failure)
    ensures
        f@ == (FailureView::Answer { status, text: text@, with_error: false }),
{
    Failure::Answer { status, text: String::from_str(text), with_error: false }
}

impl Failure {
    /// The reply to a failure whose message is `error`, or `None` where the
    /// handler panics.
    pub fn into_reply(self, error: &str) -> (r: Option<Reply>)
        ensures
            match r {
                Some(reply) => failure_reply(self@, error@) == Some(reply@),
                None => failure_reply(self@, error@) is None,
            },
    {
        match self {
            Failure::Answer { status, text, with_error } => {
                if with_error {
                    Some(Reply::owned_text(status, concat2(text.as_str(), error)))
                } else {
                    Some(Reply::owned_text(status, text))
                }
            },
            Failure::Abort => None,
        }
    }
}

impl Step {
    /// What the handler answers when this step fails with the message
    /// `error`, or `None` where it panics.
    pub fn into_failure_reply(self, error: &str) -> (r: Option<Reply>)
        ensures
            match r {
                Some(reply) => step_failure_reply(self@, error@) == Some(reply@),
                None => step_failure_reply(self@, error@) is None,
            },
    {
        match self {
            Step::Exists { otherwise, .. } => Some(otherwise),
            Step::CreateDirAll { on_error, .. } => on_error.into_reply(error),
            Step::RemoveFile { on_error, .. } => on_error.into_reply(error),
            Step::RemoveDirAll { on_error, .. } => on_error.into_reply(error),
            Step::Rename { on_error, .. } => on_error.into_reply(error),
            Step::CopyFile { on_error, .. } => on_error.into_reply(error),
            Step::CopyDirInto { on_error, .. } => on_error.into_reply(error),
            Step::ReadFile { on_error, .. } => on_error.into_reply(error),
            Step::WriteFile { on_error, .. } => on_error.into_reply(error),
        }
    }
}

impl Plan {
    /// A plan that answers `done` without touching the file system.
    pub fn answer(done: Reply) -> (p: Plan)
        ensures
            p@ == answer_view(done@),
    {
        let p = Plan { steps: Vec::new(), done };
        assert(p@.steps =~= Seq::<StepView>::empty());
        p
    }

    /// What the handler answers when step `i` fails with the message `error`,
    /// or `None` where it panics.
    pub fn failure_reply(self, i: usize, error: &str) -> (r: Option<Reply>)
        requires
            i < self@.steps.len(),
        ensures
            match r {
                Some(reply) => step_failure_reply(self@.steps[i as int], error@) == Some(reply@),
                None => step_failure_reply(self@.steps[i as int], error@) is None,
            },
    {
        let mut steps = self.steps;
        let step = steps.remove(i);
        step.into_failure_reply(error)
    }
}

} // verus!

verus! {

/// A plan that answers `done` without any step.
pub open spec fn answer_view(done: ReplyView) -> PlanView {
    PlanView { steps: Seq::empty(), done }
}

/// The failure that answers `text` followed by the error's message.
pub open spec fn fails_with_error(status: Status, text: Seq<char>) -> FailureView {
    FailureView::Answer { status, text, with_error: true }
}

/// The failure that answers `text` alone.
pub open spec fn fails_with_text(status: Status, text: Seq<char>) -> FailureView {
    FailureView::Answer { status, text, with_error: false }
}

/// Whether `path` is `root` or lies below it: `root` followed by nothing or
/// by `/` and more.
pub open spec fn within(path: Seq<char>, root: Seq<char>) -> bool {
    &&& path.len() >= root.len()
    &&& path.take(root.len() as int) == root
    &&& (path.len() == root.len() || path[root.len() as int] == '/')
}

/// Whether every path that exists in `fs` has all its ancestors existing
/// too, as on a real file system; `fs` maps each existing path to what is
/// there.
pub open spec fn parents_exist<V>(fs: Map<Seq<char>, V>) -> bool {
    forall|p: Seq<char>, r: Seq<char>|
        #![trigger fs.contains_key(p), within(p, r)]
        fs.contains_key(p) && within(p, r) ==> fs.contains_key(r)
}

/// `fs` after a successful `fs::rename(from, to)`: what was at `from` and
/// below it is now at `to` and below it, and the rest stays.
pub open spec fn renamed<V>(fs: Map<Seq<char>, V>, from: Seq<char>, to: Seq<char>) -> Map<
    Seq<char>,
    V,
> {
    Map::new(
        |p: Seq<char>|
            (within(p, to) && fs.contains_key(from + p.skip(to.len() as int))) || (!within(p, to)
                && !within(p, from) && fs.contains_key(p)),
        |p: Seq<char>|
            if within(p, to) {
                fs[from + p.skip(to.len() as int)]
            } else {
                fs[p]
            },
    )
}

/// What running `steps` and then answering `done` does to `fs`, where every
/// rename succeeds: the file system afterwards and the answer. An `Exists`
/// step that finds the path other than expected answers its reply and stops.
/// Only existence checks and renames are followed here; a plan with another
/// kind of step gives `None`.
pub open spec fn run_checks_and_renames<V>(
    fs: Map<Seq<char>, V>,
    steps: Seq<StepView>,
    done: ReplyView,
) -> Option<(Map<Seq<char>, V>, ReplyView)>
    decreases steps.len(),
{
    if steps.len() == 0 {
        Some((fs, done))
    } else {
        match steps[0] {
            StepView::Exists { path, expected, otherwise } => if fs.contains_key(path)
                == expected {
                run_checks_and_renames(fs, steps.drop_first(), done)
            } else {
                Some((fs, otherwise))
            },
            StepView::Rename { from, to, .. } => run_checks_and_renames(
                renamed(fs, from, to),
                steps.drop_first(),
                done,
            ),
            _ => None,
        }
    }
}

/// Where `path` is `root` followed by `tail`, `tail` is what follows
/// `root`, and `path` lies within `root` exactly when `tail` is empty or
/// starts with `/`.
pub proof fn lemma_within_concat(root: Seq<char>, tail: Seq<char>)
    ensures
        within(root + tail, root) == (tail.len() == 0 || tail[0] == '/'),
        (root + tail).skip(root.len() as int) == tail,
{
    assert((root + tail).take(root.len() as int) =~= root);
    assert((root + tail).skip(root.len() as int) =~= tail);
    if tail.len() > 0 {
        assert((root + tail)[root.len() as int] == tail[0]);
    }
}

/// A path within `root` is `root` followed by what follows it.
pub proof fn lemma_within_split(path: Seq<char>, root: Seq<char>)
    requires
        within(path, root),
    ensures
        path == root + path.skip(root.len() as int),
{
    assert(path =~= path.take(root.len() as int) + path.skip(root.len() as int));
}

/// Law: renaming back undoes a rename. Where `fs` has the parents of every
/// path it holds, `from` exists, `to` does not, and `to` is not below
/// `from`: after renaming `from` to `to`, `to` exists and `from` does not,
/// and renaming `to` back to `from` gives `fs` again.
pub proof fn lemma_rename_back<V>(fs: Map<Seq<char>, V>, from: Seq<char>, to: Seq<char>)
    requires
        parents_exist(fs),
        fs.contains_key(from),
        !fs.contains_key(to),
        !within(to, from),
    ensures
        renamed(fs, from, to).contains_key(to),
        !renamed(fs, from, to).contains_key(from),
        renamed(renamed(fs, from, to), to, from) == fs,
{
    let fs1 = renamed(fs, from, to);
    let empty = Seq::<char>::empty();
    lemma_within_concat(to, empty);
    assert(to + empty =~= to);
    assert(from + empty =~= from);
    assert(fs1.contains_key(to));
    if within(from, to) {
        assert(fs.contains_key(from) && within(from, to));
    }
    assert(!within(from, to));
    lemma_within_concat(from, empty);
    assert(!fs1.contains_key(from));
    let fs2 = renamed(fs1, to, from);
    assert forall|p: Seq<char>| #[trigger] fs2.contains_key(p) == fs.contains_key(p) && (
    fs.contains_key(p) ==> fs2[p] == fs[p]) by {
        if within(p, from) {
            let tail = p.skip(from.len() as int);
            lemma_within_split(p, from);
            lemma_within_concat(to, tail);
            lemma_within_concat(from, tail);
            assert(from + (to + tail).skip(to.len() as int) == p);
        } else if within(p, to) {
            if fs.contains_key(p) {
                assert(fs.contains_key(p) && within(p, to));
            }
        }
    }
    assert(fs2 =~= fs);
}

/// What an existence check answers on a file system where exactly the
/// paths in `existing` exist: nothing where it passes, its reply where it
/// fails. A step of another kind checks nothing.
pub open spec fn check_outcome(existing: Set<Seq<char>>, step: StepView) -> Option<ReplyView> {
    match step {
        StepView::Exists { path, expected, otherwise } => if existing.contains(path) == expected {
            None
        } else {
            Some(otherwise)
        },
        _ => None,
    }
}

/// The path that a step removes, moves, copies or reads, if any.
pub open spec fn step_source(step: StepView) -> Option<Seq<char>> {
    match step {
        StepView::RemoveFile { path, .. } => Some(path),
        StepView::RemoveDirAll { path, .. } => Some(path),
        StepView::Rename { from, .. } => Some(from),
        StepView::CopyFile { from, .. } => Some(from),
        StepView::CopyDirInto { from, .. } => Some(from),
        StepView::ReadFile { path, .. } => Some(path),
        _ => None,
    }
}

/// Whether `steps` look before they act on `src`: on every file system
/// where `src` exists, no existence check among them fails; where it does
/// not exist, the first step refuses with `refusal`; and a later step does
/// act on `src`.
pub open spec fn looks_before_acting(
    steps: Seq<StepView>,
    src: Seq<char>,
    refusal: ReplyView,
) -> bool {
    &&& forall|existing: Set<Seq<char>>, i: int|
        existing.contains(src) && 0 <= i < steps.len() ==> (#[trigger] check_outcome(
            existing,
            steps[i],
        )) is None
    &&& forall|existing: Set<Seq<char>>|
        !existing.contains(src) ==> steps.len() > 0 && #[trigger] check_outcome(
            existing,
            steps[0],
        ) == Some(refusal)
    &&& exists|j: int| 0 < j < steps.len() && #[trigger] step_source(steps[j]) == Some(src)
}

} // verus!
