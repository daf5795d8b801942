//! The handle on the process-information filesystem. A [`Proc`] stands
//! for "`/proc` is mounted and can be read": it comes into being when
//! the mount has succeeded, and reading a file under `/proc` takes one.

use crate::error::{Error, ErrorView};
use crate::mount::MountFlags;
use crate::sys::{Reply, ReplyView, Request, RequestView, Step, StepView};
use crate::text::{trim, trimmed};
use vstd::prelude::*;

verus! {

/// The capability to read files under `/proc`. It owns the mount for as
/// long as the process runs; nothing here unmounts it.
#[derive(Debug, PartialEq, Eq)]
pub struct Proc {
    _private: (),
}

impl View for Proc {
    type V = ();

    /// A handle holds no data.
    open spec fn view(&self) -> () {
        ()
    }
}

/// How far the opening of `/proc` has come: the operation whose reply
/// is awaited.
#[derive(Clone, Copy, Debug, PartialEq, Eq, Structural)]
pub enum ProcStage {
    /// Creating the mountpoint.
    CreatingMountpoint,
    /// Mounting the filesystem.
    Mounting,
    /// The opening has ended.
    Finished,
}

/// Where the process-information filesystem is mounted.
pub open spec fn proc_root() -> Seq<char> {
    "/proc"@
}

/// The request that mounts the process-information filesystem.
pub open spec fn proc_mount_request() -> RequestView {
    RequestView::Mount {
        source: "proc"@,
        target: proc_root(),
        fstype: Some("proc"@),
        flags: MountFlags::of(0),
    }
}

/// The first request of the opening: to create the mountpoint.
pub open spec fn proc_first() -> (ProcStage, RequestView) {
    (ProcStage::CreatingMountpoint, RequestView::CreateDirAll { path: proc_root() })
}

/// What the opening does when `reply` answers the operation it awaited
/// in `stage`: the mountpoint is created, then the filesystem mounted
/// on it, and a failure of either ends the opening with that error.
pub open spec fn proc_next(stage: ProcStage, reply: ReplyView) -> (ProcStage, StepView<()>) {
    match stage {
        ProcStage::CreatingMountpoint => match reply.completion() {
            Ok(_) => (ProcStage::Mounting, StepView::Call { request: proc_mount_request() }),
            Err(e) => (ProcStage::Finished, StepView::Done { result: Err(e) }),
        },
        ProcStage::Mounting => match reply.completion() {
            Ok(_) => (ProcStage::Finished, StepView::Done { result: Ok(()) }),
            Err(e) => (ProcStage::Finished, StepView::Done { result: Err(e) }),
        },
        ProcStage::Finished => (
            ProcStage::Finished,
            StepView::Done { result: Err(ErrorView::UnexpectedReply) },
        ),
    }
}

/// The path of the file `path` under `/proc`.
pub open spec fn proc_path(path: Seq<char>) -> Seq<char> {
    "/proc/"@ + path
}

/// The command line that a reply to the reading of `/proc/cmdline`
/// gives: the text that was read, without the whitespace around it, or
/// the error of the reading.
pub open spec fn spec_read_cmdline(reply: ReplyView) -> Result<Seq<char>, ErrorView> {
    match reply.text() {
        Ok(contents) => Ok(trim(contents)),
        Err(e) => Err(e),
    }
}

impl Proc {
    /// Starts the opening: the first thing asked for is the mountpoint.
    pub fn open() -> (r: (ProcStage, Request))
        ensures
            (r.0, r.1@) == proc_first(),
    {
        (ProcStage::CreatingMountpoint, Request::CreateDirAll { path: "/proc".to_string() })
    }

    /// Carries the opening on from `stage` with the reply to the request
    /// that was pending, and returns the stage it is in now with the
    /// next request, or the handle or error it ended with.
    pub fn new(stage: ProcStage, reply: Reply) -> (r: (ProcStage, Step<Proc>))
        ensures
            (r.0, r.1@) == proc_next(stage, reply@),
    {
        match stage {
            ProcStage::CreatingMountpoint => match reply.completion() {
                Ok(_) => (
                    ProcStage::Mounting,
                    Step::Call {
                        request: Request::Mount {
                            source: "proc".to_string(),
                            target: "/proc".to_string(),
                            fstype: Some("proc".to_string()),
                            flags: MountFlags::empty(),
                        },
                    },
                ),
                Err(e) => (ProcStage::Finished, Step::Done { result: Err(e) }),
            },
            ProcStage::Mounting => match reply.completion() {
                Ok(_) => (ProcStage::Finished, Step::Done { result: Ok(Proc { _private: () }) }),
                Err(e) => (ProcStage::Finished, Step::Done { result: Err(e) }),
            },
            ProcStage::Finished => (
                ProcStage::Finished,
                Step::Done { result: Err(Error::UnexpectedReply) },
            ),
        }
    }

    /// The request that reads the file `path` under `/proc`. Each call
    /// asks the kernel anew: nothing is kept from one reading to the
    /// next.
    pub fn read_file(&self, path: &str) -> (r: Request)
        ensures
            r@ == (RequestView::ReadFile { path: proc_path(path@) }),
    {
        let mut full_path = "/proc/".to_string();
        full_path.append(path);
        Request::ReadFile { path: full_path }
    }

    /// The kernel command line out of the reply to
    /// `self.read_file("cmdline")`: the text without the whitespace
    /// around it.
    pub fn read_cmdline(&self, reply: Reply) -> (r: Result<String, Error>)
        ensures
            match r {
                Ok(cmdline) => spec_read_cmdline(reply@) == Ok::<Seq<char>, ErrorView>(cmdline@),
                Err(e) => spec_read_cmdline(reply@) == Err::<Seq<char>, ErrorView>(e@),
            },
    {
        match reply.text() {
            Ok(contents) => Ok(trimmed(contents.as_str())),
            Err(e) => Err(e),
        }
    }
}

} // verus!
