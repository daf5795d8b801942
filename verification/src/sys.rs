//! The boundary to the operating system. A procedure of this library
//! never performs a system call: it hands its caller a [`Request`], the
//! caller performs it and hands back a [`Reply`], and the procedure
//! decides from that what comes next.

use crate::error::{Error, ErrorView};
use crate::mount::MountFlags;
use vstd::prelude::*;

verus! {

/// A file descriptor that a loop attachment holds open, by its role.
#[derive(Clone, Copy, Debug, PartialEq, Eq, Structural)]
pub enum Handle {
    /// The image file that backs the loop device.
    Backing,
    /// The loop-control device.
    Control,
    /// The loop device itself.
    Loop,
}

/// The third argument of a control operation.
#[derive(Clone, Debug, PartialEq, Eq)]
pub enum IoctlArg {
    /// No argument.
    Nothing,
    /// The raw descriptor behind a handle.
    Descriptor { handle: Handle },
    /// A loop-device status record that is zero but for its 64-byte file
    /// name field, which holds these bytes.
    LoopStatus { file_name: Vec<u8> },
}

/// The mathematical content of an [`IoctlArg`].
pub enum IoctlArgView {
    Nothing,
    Descriptor { handle: Handle },
    LoopStatus { file_name: Seq<u8> },
}

impl View for IoctlArg {
    type V = IoctlArgView;

    open spec fn view(&self) -> IoctlArgView {
        match self {
            IoctlArg::Nothing => IoctlArgView::Nothing,
            IoctlArg::Descriptor { handle } => IoctlArgView::Descriptor { handle: *handle },
            IoctlArg::LoopStatus { file_name } => IoctlArgView::LoopStatus { file_name: file_name@ },
        }
    }
}

/// One operation that the caller is asked to perform.
#[derive(Clone, Debug, PartialEq, Eq)]
pub enum Request {
    /// Create the directory and its missing parents; an existing
    /// directory is no failure. Answered by `Done` or `Failed`.
    CreateDirAll { path: String },
    /// Mount `source` on `target`. Answered by `Returned` with what
    /// `mount(2)` returned, or by `Failed` where the arguments were
    /// rejected before the call.
    Mount { source: String, target: String, fstype: Option<String>, flags: MountFlags },
    /// Detach the mount at `target`, busy or not. Answered as `Mount` is.
    Unmount { target: String },
    /// Tell whether the path exists. Answered by `Exists`.
    PathExists { path: String },
    /// Change the working directory. Answered by `Done` or `Failed`.
    ChangeDir { path: String },
    /// Change the filesystem root of the process. Answered by `Returned`
    /// with what `chroot(2)` returned.
    ChangeRoot { path: String },
    /// Read a whole file as text. Answered by `Text` or `Failed`.
    ReadFile { path: String },
    /// List the directory `root` and read the `uevent` file under each
    /// of its entries, in the order of the listing. Answered by
    /// `Uevents`, with `None` for an entry whose file cannot be read,
    /// or by `Failed` where the directory cannot be listed. The order
    /// is that of the directory and is not stable across boots.
    ReadUevents { root: String },
    /// Open `path` close-on-exec, for reading, and for writing too where
    /// `write` is set, and keep the descriptor under `handle`.
    /// Answered by `Done` or `Failed`.
    Open { handle: Handle, path: String, write: bool },
    /// Issue the control operation `code` on the descriptor under
    /// `handle`. Answered by `Returned` with what `ioctl(2)` returned.
    Ioctl { handle: Handle, code: u64, arg: IoctlArg },
    /// Close the descriptor under `handle`. Answered by `Done`.
    Close { handle: Handle },
}

/// The mathematical content of a [`Request`].
pub enum RequestView {
    CreateDirAll { path: Seq<char> },
    Mount { source: Seq<char>, target: Seq<char>, fstype: Option<Seq<char>>, flags: MountFlags },
    Unmount { target: Seq<char> },
    PathExists { path: Seq<char> },
    ChangeDir { path: Seq<char> },
    ChangeRoot { path: Seq<char> },
    ReadFile { path: Seq<char> },
    ReadUevents { root: Seq<char> },
    Open { handle: Handle, path: Seq<char>, write: bool },
    Ioctl { handle: Handle, code: u64, arg: IoctlArgView },
    Close { handle: Handle },
}

impl View for Request {
    type V = RequestView;

    open spec fn view(&self) -> RequestView {
        match self {
            Request::CreateDirAll { path } => RequestView::CreateDirAll { path: path@ },
            Request::Mount { source, target, fstype, flags } => RequestView::Mount {
                source: source@,
                target: target@,
                fstype: match fstype {
                    Some(t) => Some(t@),
                    None => None,
                },
                flags: *flags,
            },
            Request::Unmount { target } => RequestView::Unmount { target: target@ },
            Request::PathExists { path } => RequestView::PathExists { path: path@ },
            Request::ChangeDir { path } => RequestView::ChangeDir { path: path@ },
            Request::ChangeRoot { path } => RequestView::ChangeRoot { path: path@ },
            Request::ReadFile { path } => RequestView::ReadFile { path: path@ },
            Request::ReadUevents { root } => RequestView::ReadUevents { root: root@ },
            Request::Open { handle, path, write } => RequestView::Open {
                handle: *handle,
                path: path@,
                write: *write,
            },
            Request::Ioctl { handle, code, arg } => RequestView::Ioctl {
                handle: *handle,
                code: *code,
                arg: arg@,
            },
            Request::Close { handle } => RequestView::Close { handle: *handle },
        }
    }
}

impl RequestView {
    /// Whether the request mounts, moves or detaches a filesystem.
    pub open spec fn is_mount_operation(self) -> bool {
        self is Mount || self is Unmount
    }

    /// Whether the request is a control operation.
    pub open spec fn is_control_operation(self) -> bool {
        self is Ioctl
    }
}

/// What came of a [`Request`].
#[derive(Clone, Debug, PartialEq, Eq)]
pub enum Reply {
    /// The operation succeeded and has nothing to report.
    Done,
    /// Whether the path exists.
    Exists { exists: bool },
    /// The text that was read.
    Text { contents: String },
    /// What was read of each block device, in the order of the listing.
    Uevents { entries: Vec<Option<String>> },
    /// What the system call returned, and `errno` as it stood then.
    Returned { value: i32, errno: i32 },
    /// The operation failed.
    Failed { error: Error },
}

/// The mathematical content of a [`Reply`].
pub enum ReplyView {
    Done,
    Exists { exists: bool },
    Text { contents: Seq<char> },
    Uevents { entries: Seq<Option<Seq<char>>> },
    Returned { value: i32, errno: i32 },
    Failed { error: ErrorView },
}

/// The contents of each entry, as sequences of characters.
pub open spec fn entries_view(entries: Seq<Option<String>>) -> Seq<Option<Seq<char>>> {
    Seq::new(
        entries.len(),
        |i: int|
            match entries[i] {
                Some(s) => Some(s@),
                None => None,
            },
    )
}

impl View for Reply {
    type V = ReplyView;

    open spec fn view(&self) -> ReplyView {
        match self {
            Reply::Done => ReplyView::Done,
            Reply::Exists { exists } => ReplyView::Exists { exists: *exists },
            Reply::Text { contents } => ReplyView::Text { contents: contents@ },
            Reply::Uevents { entries } => ReplyView::Uevents { entries: entries_view(entries@) },
            Reply::Returned { value, errno } => ReplyView::Returned {
                value: *value,
                errno: *errno,
            },
            Reply::Failed { error } => ReplyView::Failed { error: error@ },
        }
    }
}

impl ReplyView {
    /// How an operation without a result ended: `Done` is success, a
    /// system call succeeded where it returned zero and failed with
    /// `errno` otherwise, and a failure is handed on as it is.
    pub open spec fn completion(self) -> Result<(), ErrorView> {
        match self {
            ReplyView::Done => Ok(()),
            ReplyView::Returned { value, errno } => if value == 0 {
                Ok(())
            } else {
                Err(ErrorView::Os { code: errno })
            },
            ReplyView::Failed { error } => Err(error),
            _ => Err(ErrorView::UnexpectedReply),
        }
    }

    /// What a control operation returned: a negative value is a failure
    /// with `errno`, any other value is its result.
    pub open spec fn control_value(self) -> Result<i32, ErrorView> {
        match self {
            ReplyView::Returned { value, errno } => if value < 0 {
                Err(ErrorView::Os { code: errno })
            } else {
                Ok(value)
            },
            ReplyView::Failed { error } => Err(error),
            _ => Err(ErrorView::UnexpectedReply),
        }
    }

    /// Whether the path asked about exists.
    pub open spec fn existence(self) -> Result<bool, ErrorView> {
        match self {
            ReplyView::Exists { exists } => Ok(exists),
            ReplyView::Failed { error } => Err(error),
            _ => Err(ErrorView::UnexpectedReply),
        }
    }

    /// The text that was read.
    pub open spec fn text(self) -> Result<Seq<char>, ErrorView> {
        match self {
            ReplyView::Text { contents } => Ok(contents),
            ReplyView::Failed { error } => Err(error),
            _ => Err(ErrorView::UnexpectedReply),
        }
    }
}

impl Reply {
    /// How an operation without a result ended.
    pub fn completion(self) -> (r: Result<(), Error>)
        ensures
            match r {
                Ok(_) => self@.completion() is Ok,
                Err(e) => self@.completion() == Err::<(), ErrorView>(e@),
            },
    {
        match self {
            Reply::Done => Ok(()),
            Reply::Returned { value, errno } => if value == 0 {
                Ok(())
            } else {
                Err(Error::Os { code: errno })
            },
            Reply::Failed { error } => Err(error),
            _ => Err(Error::UnexpectedReply),
        }
    }

    /// What a control operation returned.
    pub fn control_value(self) -> (r: Result<i32, Error>)
        ensures
            match r {
                Ok(v) => self@.control_value() == Ok::<i32, ErrorView>(v),
                Err(e) => self@.control_value() == Err::<i32, ErrorView>(e@),
            },
    {
        match self {
            Reply::Returned { value, errno } => if value < 0 {
                Err(Error::Os { code: errno })
            } else {
                Ok(value)
            },
            Reply::Failed { error } => Err(error),
            _ => Err(Error::UnexpectedReply),
        }
    }

    /// Whether the path asked about exists.
    pub fn existence(self) -> (r: Result<bool, Error>)
        ensures
            match r {
                Ok(v) => self@.existence() == Ok::<bool, ErrorView>(v),
                Err(e) => self@.existence() == Err::<bool, ErrorView>(e@),
            },
    {
        match self {
            Reply::Exists { exists } => Ok(exists),
            Reply::Failed { error } => Err(error),
            _ => Err(Error::UnexpectedReply),
        }
    }

    /// The text that was read.
    pub fn text(self) -> (r: Result<String, Error>)
        ensures
            match r {
                Ok(v) => self@.text() == Ok::<Seq<char>, ErrorView>(v@),
                Err(e) => self@.text() == Err::<Seq<char>, ErrorView>(e@),
            },
    {
        match self {
            Reply::Text { contents } => Ok(contents),
            Reply::Failed { error } => Err(error),
            _ => Err(Error::UnexpectedReply),
        }
    }
}

/// What a procedure wants next: an operation performed, or nothing more,
/// because it has ended with a result or an error.
#[derive(Debug, PartialEq, Eq)]
pub enum Step<T> {
    Call { request: Request },
    Done { result: Result<T, Error> },
}

/// The mathematical content of a [`Step`].
pub enum StepView<V> {
    Call { request: RequestView },
    Done { result: Result<V, ErrorView> },
}

impl<T: View> View for Step<T> {
    type V = StepView<T::V>;

    open spec fn view(&self) -> StepView<T::V> {
        match self {
            Step::Call { request } => StepView::Call { request: request@ },
            Step::Done { result } => StepView::Done {
                result: match result {
                    Ok(v) => Ok(v@),
                    Err(e) => Err(e@),
                },
            },
        }
    }
}

/// What a procedure does when it is fed a sequence of replies: the
/// requests it makes, in order, and its result if it reaches one.
pub struct Run<V> {
    pub requests: Seq<RequestView>,
    pub outcome: Option<Result<V, ErrorView>>,
}

/// Runs the procedure with transition function `next` from `stage`,
/// where it has just answered `step`, and feeds it `replies` one by one.
/// Replies that are left when the procedure ends are not read.
pub open spec fn run<S, V>(
    next: spec_fn(S, ReplyView) -> (S, StepView<V>),
    stage: S,
    step: StepView<V>,
    replies: Seq<ReplyView>,
) -> Run<V>
    decreases replies.len(),
{
    match step {
        StepView::Done { result } => Run { requests: Seq::empty(), outcome: Some(result) },
        StepView::Call { request } => if replies.len() == 0 {
            Run { requests: seq![request], outcome: None }
        } else {
            let after = next(stage, replies[0]);
            let rest = run(next, after.0, after.1, replies.drop_first());
            Run { requests: seq![request] + rest.requests, outcome: rest.outcome }
        },
    }
}

/// A procedure that has ended has read one reply for each request it
/// made; one that has not ended has made one request more than it has
/// read replies, and has read them all.
pub proof fn lemma_run_length<S, V>(
    next: spec_fn(S, ReplyView) -> (S, StepView<V>),
    stage: S,
    step: StepView<V>,
    replies: Seq<ReplyView>,
)
    ensures
        run(next, stage, step, replies).outcome is Some ==> run(
            next,
            stage,
            step,
            replies,
        ).requests.len() <= replies.len(),
        run(next, stage, step, replies).outcome is None ==> run(
            next,
            stage,
            step,
            replies,
        ).requests.len() == replies.len() + 1,
    decreases replies.len(),
{
    match step {
        StepView::Done { result } => {},
        StepView::Call { request } => {
            if replies.len() > 0 {
                let after = next(stage, replies[0]);
                lemma_run_length(next, after.0, after.1, replies.drop_first());
            }
        },
    }
}

/// Where a procedure stands once it has read `replies`: its stage and
/// the step it has answered last.
pub open spec fn after<S, V>(
    next: spec_fn(S, ReplyView) -> (S, StepView<V>),
    stage: S,
    step: StepView<V>,
    replies: Seq<ReplyView>,
) -> (S, StepView<V>)
    decreases replies.len(),
{
    match step {
        StepView::Done { result } => (stage, step),
        StepView::Call { request } => if replies.len() == 0 {
            (stage, step)
        } else {
            let moved = next(stage, replies[0]);
            after(next, moved.0, moved.1, replies.drop_first())
        },
    }
}

/// A run can be cut in two: to feed a procedure `first + second` is to
/// feed it `first`, and then to feed `second` to the procedure where it
/// stands by then. The request that is pending between the two parts
/// is counted once.
pub proof fn lemma_run_in_parts<S, V>(
    next: spec_fn(S, ReplyView) -> (S, StepView<V>),
    stage: S,
    step: StepView<V>,
    first: Seq<ReplyView>,
    second: Seq<ReplyView>,
)
    ensures
        ({
            let head = run(next, stage, step, first);
            let mid = after(next, stage, step, first);
            let tail = run(next, mid.0, mid.1, second);
            let whole = run(next, stage, step, first + second);
            &&& whole.outcome == tail.outcome
            &&& head.outcome is None ==> {
                &&& mid.1 is Call
                &&& head.requests.len() == first.len() + 1
                &&& head.requests.last() == mid.1->request
                &&& whole.requests == head.requests.drop_last() + tail.requests
            }
            &&& head.outcome is Some ==> {
                &&& mid.1 is Done
                &&& whole.requests == head.requests
                &&& whole.outcome == head.outcome
            }
        }),
    decreases first.len(),
{
    let head = run(next, stage, step, first);
    let mid = after(next, stage, step, first);
    let tail = run(next, mid.0, mid.1, second);
    let whole = run(next, stage, step, first + second);
    match step {
        StepView::Done { result } => {},
        StepView::Call { request } => {
            if first.len() == 0 {
                assert(first + second =~= second);
                assert(head.requests.drop_last() + tail.requests =~= tail.requests);
            } else {
                let moved = next(stage, first[0]);
                assert((first + second)[0] == first[0]);
                assert((first + second).drop_first() =~= first.drop_first() + second);
                lemma_run_in_parts(next, moved.0, moved.1, first.drop_first(), second);
                lemma_run_length(next, moved.0, moved.1, first.drop_first());
                let head1 = run(next, moved.0, moved.1, first.drop_first());
                if head.outcome is None {
                    assert(head.requests.drop_last() =~= seq![request]
                        + head1.requests.drop_last());
                    assert(whole.requests =~= head.requests.drop_last() + tail.requests);
                }
            }
        },
    }
}

} // verus!
