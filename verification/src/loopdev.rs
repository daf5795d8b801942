//! The loop device manager: attaches a regular file, a filesystem image,
//! to a kernel loop device. The attachment is a procedure of eight
//! operations; [`LoopDevice::attach`] starts it and [`LoopDevice::new`]
//! carries it on from each reply.

use crate::error::{Error, ErrorView};
use crate::sys::{Handle, IoctlArg, IoctlArgView, Reply, ReplyView, Request, RequestView, Step, StepView, run, Run};
use crate::text::{decimal, decimal_string};
use vstd::prelude::*;
use vstd::utf8::encode_utf8;

verus! {

/// `LOOP_SET_FD`: bind a backing file to a loop device.
pub const LOOP_SET_FD: u64 = 0x4C00;

/// `LOOP_CLR_FD`: release the backing file of a loop device.
pub const LOOP_CLR_FD: u64 = 0x4C01;

/// `LOOP_SET_STATUS64`: set the status record of a loop device.
pub const LOOP_SET_STATUS64: u64 = 0x4C04;

/// `LOOP_CTL_GET_FREE`: ask loop-control for the number of a free device.
pub const LOOP_CTL_GET_FREE: u64 = 0x4C82;

/// The length in bytes of the file name field of a loop status record.
pub const LOOP_NAME_SIZE: usize = 64;

/// The path of the loop-control device.
pub open spec fn loop_control_path() -> Seq<char> {
    "/dev/loop-control"@
}

/// The path of the loop device with the given number.
pub open spec fn loop_device_path(number: nat) -> Seq<char> {
    "/dev/loop"@ + decimal(number)
}

/// The file name field that labels a loop device with the path of its
/// backing file: the first 63 bytes of the path, then zeros up to 64.
pub open spec fn loop_file_name(path: Seq<char>) -> Seq<u8> {
    let bytes = encode_utf8(path);
    Seq::new(
        64,
        |i: int|
            if i < 63 && i < bytes.len() {
                bytes[i]
            } else {
                0u8
            },
    )
}

/// Computes the file name field for the backing file at `path`.
pub fn file_name_field(path: &str) -> (field: Vec<u8>)
    ensures
        field@ == loop_file_name(path@),
{
    let bytes = path.as_bytes();
    let mut field: Vec<u8> = Vec::new();
    let mut i: usize = 0;
    while i < LOOP_NAME_SIZE
        invariant
            i <= 64,
            field@.len() == i,
            bytes@ == encode_utf8(path@),
            forall|j: int| 0 <= j < i ==> field@[j] == loop_file_name(path@)[j],
        decreases 64 - i,
    {
        let b: u8 = if i < LOOP_NAME_SIZE - 1 && i < bytes.len() {
            bytes[i]
        } else {
            0
        };
        field.push(b);
        i += 1;
    }
    assert(field@ =~= loop_file_name(path@));
    field
}

/// Composes the path of the loop device with the given number.
pub fn device_path(number: u32) -> (path: String)
    ensures
        path@ == loop_device_path(number as nat),
{
    let mut path = "/dev/loop".to_string();
    let digits = decimal_string(number as u64);
    path.append(digits.as_str());
    path
}

/// How far an attachment has come: the operation whose reply is awaited.
#[derive(Clone, Copy, Debug, PartialEq, Eq, Structural)]
pub enum AttachStage {
    /// Asked whether the backing file exists.
    CheckingBackingFile,
    /// Opening the backing file for reading.
    OpeningBackingFile,
    /// Opening the loop-control device.
    OpeningControl,
    /// Asked loop-control for a free device number.
    FindingFreeLoop,
    /// Opening the loop device with this number.
    OpeningLoop { number: u32 },
    /// Binding the backing file to the loop device.
    Binding { number: u32 },
    /// Labelling the loop device with the backing file's path.
    Labelling { number: u32 },
    /// Closing the loop-control device.
    ReleasingControl { number: u32 },
    /// The attachment has ended.
    Finished,
}

/// A live association between a backing file and a loop device. A value
/// exists only where an attachment has run to its end. It owns the
/// association: the descriptor under [`Handle::Loop`] stays open for as
/// long as the value lives, and [`LoopDevice::detach`] consumes the
/// value, so that a device is released at most once. A filesystem
/// mounted through the device needs it for good; the owner then keeps
/// the value until the process ends and never calls `detach`.
#[derive(Debug, PartialEq, Eq)]
pub struct LoopDevice {
    loop_path: String,
}

impl View for LoopDevice {
    type V = Seq<char>;

    /// A loop device is known by its path.
    closed spec fn view(&self) -> Seq<char> {
        self.loop_path@
    }
}

/// The first request of an attachment of the file at `backing`.
pub open spec fn attach_first(backing: Seq<char>) -> (AttachStage, RequestView) {
    (AttachStage::CheckingBackingFile, RequestView::PathExists { path: backing })
}

/// The attachment goes on with `request`, and awaits its reply in `stage`.
pub open spec fn attach_go(stage: AttachStage, request: RequestView) -> (
    AttachStage,
    StepView<Seq<char>>,
) {
    (stage, StepView::Call { request })
}

/// The attachment ends with `result`.
pub open spec fn attach_end(result: Result<Seq<char>, ErrorView>) -> (
    AttachStage,
    StepView<Seq<char>>,
) {
    (AttachStage::Finished, StepView::Done { result })
}

/// What an attachment of the file at `backing` does when `reply` answers
/// the operation it awaited in `stage`.
///
/// The operations follow one another in a fixed order: existence check,
/// open the backing file, open loop-control, get a free number, open the
/// loop device, bind, label, close loop-control. The first failure ends
/// the attachment with that error, but for the label, which is for
/// people only: whatever comes of it, the attachment goes on.
pub open spec fn attach_next(backing: Seq<char>, stage: AttachStage, reply: ReplyView) -> (
    AttachStage,
    StepView<Seq<char>>,
) {
    match stage {
        AttachStage::CheckingBackingFile => match reply.existence() {
            Ok(exists) => if exists {
                attach_go(
                    AttachStage::OpeningBackingFile,
                    RequestView::Open { handle: Handle::Backing, path: backing, write: false },
                )
            } else {
                attach_end(Err(ErrorView::BackingFileNotFound { path: backing }))
            },
            Err(e) => attach_end(Err(e)),
        },
        AttachStage::OpeningBackingFile => match reply.completion() {
            Ok(_) => attach_go(
                AttachStage::OpeningControl,
                RequestView::Open {
                    handle: Handle::Control,
                    path: loop_control_path(),
                    write: false,
                },
            ),
            Err(e) => attach_end(Err(e)),
        },
        AttachStage::OpeningControl => match reply.completion() {
            Ok(_) => attach_go(
                AttachStage::FindingFreeLoop,
                RequestView::Ioctl {
                    handle: Handle::Control,
                    code: LOOP_CTL_GET_FREE,
                    arg: IoctlArgView::Nothing,
                },
            ),
            Err(e) => attach_end(Err(e)),
        },
        AttachStage::FindingFreeLoop => match reply.control_value() {
            Ok(value) => attach_go(
                AttachStage::OpeningLoop { number: value as u32 },
                RequestView::Open {
                    handle: Handle::Loop,
                    path: loop_device_path(value as nat),
                    write: true,
                },
            ),
            Err(e) => attach_end(Err(e)),
        },
        AttachStage::OpeningLoop { number } => match reply.completion() {
            Ok(_) => attach_go(
                AttachStage::Binding { number },
                RequestView::Ioctl {
                    handle: Handle::Loop,
                    code: LOOP_SET_FD,
                    arg: IoctlArgView::Descriptor { handle: Handle::Backing },
                },
            ),
            Err(e) => attach_end(Err(e)),
        },
        AttachStage::Binding { number } => match reply.control_value() {
            Ok(_) => attach_go(
                AttachStage::Labelling { number },
                RequestView::Ioctl {
                    handle: Handle::Loop,
                    code: LOOP_SET_STATUS64,
                    arg: IoctlArgView::LoopStatus { file_name: loop_file_name(backing) },
                },
            ),
            Err(e) => attach_end(Err(e)),
        },
        AttachStage::Labelling { number } => attach_go(
            AttachStage::ReleasingControl { number },
            RequestView::Close { handle: Handle::Control },
        ),
        AttachStage::ReleasingControl { number } => attach_end(
            Ok(loop_device_path(number as nat)),
        ),
        AttachStage::Finished => attach_end(Err(ErrorView::UnexpectedReply)),
    }
}

impl LoopDevice {
    /// Starts the attachment of `backing_file`: the first thing asked is
    /// whether the file exists, before anything is opened or controlled.
    pub fn attach(backing_file: &str) -> (r: (AttachStage, Request))
        ensures
            (r.0, r.1@) == attach_first(backing_file@),
    {
        (AttachStage::CheckingBackingFile, Request::PathExists { path: backing_file.to_string() })
    }

    /// Carries the attachment of `backing_file` on from `stage` with the
    /// reply to the request that was pending, and returns the stage it
    /// is in now with the next request, or the device or error it ended
    /// with. When it has ended, the caller keeps the descriptor under
    /// [`Handle::Loop`] open for the device that was returned, and
    /// closes every other descriptor of the attachment.
    pub fn new(backing_file: &str, stage: AttachStage, reply: Reply) -> (r: (
        AttachStage,
        Step<LoopDevice>,
    ))
        ensures
            (r.0, r.1@) == attach_next(backing_file@, stage, reply@),
    {
        match stage {
            AttachStage::CheckingBackingFile => match reply.existence() {
                Ok(exists) => if exists {
                    (
                        AttachStage::OpeningBackingFile,
                        Step::Call {
                            request: Request::Open {
                                handle: Handle::Backing,
                                path: backing_file.to_string(),
                                write: false,
                            },
                        },
                    )
                } else {
                    (
                        AttachStage::Finished,
                        Step::Done {
                            result: Err(
                                Error::BackingFileNotFound { path: backing_file.to_string() },
                            ),
                        },
                    )
                },
                Err(e) => (AttachStage::Finished, Step::Done { result: Err(e) }),
            },
            AttachStage::OpeningBackingFile => match reply.completion() {
                Ok(_) => (
                    AttachStage::OpeningControl,
                    Step::Call {
                        request: Request::Open {
                            handle: Handle::Control,
                            path: "/dev/loop-control".to_string(),
                            write: false,
                        },
                    },
                ),
                Err(e) => (AttachStage::Finished, Step::Done { result: Err(e) }),
            },
            AttachStage::OpeningControl => match reply.completion() {
                Ok(_) => (
                    AttachStage::FindingFreeLoop,
                    Step::Call {
                        request: Request::Ioctl {
                            handle: Handle::Control,
                            code: LOOP_CTL_GET_FREE,
                            arg: IoctlArg::Nothing,
                        },
                    },
                ),
                Err(e) => (AttachStage::Finished, Step::Done { result: Err(e) }),
            },
            AttachStage::FindingFreeLoop => match reply.control_value() {
                Ok(value) => {
                    let number: u32 = value as u32;
                    (
                        AttachStage::OpeningLoop { number },
                        Step::Call {
                            request: Request::Open {
                                handle: Handle::Loop,
                                path: device_path(number),
                                write: true,
                            },
                        },
                    )
                },
                Err(e) => (AttachStage::Finished, Step::Done { result: Err(e) }),
            },
            AttachStage::OpeningLoop { number } => match reply.completion() {
                Ok(_) => (
                    AttachStage::Binding { number },
                    Step::Call {
                        request: Request::Ioctl {
                            handle: Handle::Loop,
                            code: LOOP_SET_FD,
                            arg: IoctlArg::Descriptor { handle: Handle::Backing },
                        },
                    },
                ),
                Err(e) => (AttachStage::Finished, Step::Done { result: Err(e) }),
            },
            AttachStage::Binding { number } => match reply.control_value() {
                Ok(_) => (
                    AttachStage::Labelling { number },
                    Step::Call {
                        request: Request::Ioctl {
                            handle: Handle::Loop,
                            code: LOOP_SET_STATUS64,
                            arg: IoctlArg::LoopStatus { file_name: file_name_field(backing_file) },
                        },
                    },
                ),
                Err(e) => (AttachStage::Finished, Step::Done { result: Err(e) }),
            },
            AttachStage::Labelling { number } => (
                AttachStage::ReleasingControl { number },
                Step::Call { request: Request::Close { handle: Handle::Control } },
            ),
            AttachStage::ReleasingControl { number } => (
                AttachStage::Finished,
                Step::Done { result: Ok(LoopDevice { loop_path: device_path(number) }) },
            ),
            AttachStage::Finished => (
                AttachStage::Finished,
                Step::Done { result: Err(Error::UnexpectedReply) },
            ),
        }
    }

    /// The path of the device, such as `/dev/loop0`.
    pub fn path(&self) -> (r: &str)
        ensures
            r@ == self@,
    {
        self.loop_path.as_str()
    }

    /// Gives the association up: the request that releases the backing
    /// file from the device. The value is consumed, so a device cannot
    /// be detached twice.
    pub fn detach(self) -> (r: Request)
        ensures
            r@ == (RequestView::Ioctl {
                handle: Handle::Loop,
                code: LOOP_CLR_FD,
                arg: IoctlArgView::Nothing,
            }),
    {
        Request::Ioctl { handle: Handle::Loop, code: LOOP_CLR_FD, arg: IoctlArg::Nothing }
    }
}

} // verus!

verus! {

/// The requests an attachment makes when nothing fails, for the file at
/// `backing` and the free device number `number`.
pub open spec fn attach_requests(backing: Seq<char>, number: nat) -> Seq<RequestView> {
    seq![
        RequestView::PathExists { path: backing },
        RequestView::Open { handle: Handle::Backing, path: backing, write: false },
        RequestView::Open { handle: Handle::Control, path: loop_control_path(), write: false },
        RequestView::Ioctl {
            handle: Handle::Control,
            code: LOOP_CTL_GET_FREE,
            arg: IoctlArgView::Nothing,
        },
        RequestView::Open { handle: Handle::Loop, path: loop_device_path(number), write: true },
        RequestView::Ioctl {
            handle: Handle::Loop,
            code: LOOP_SET_FD,
            arg: IoctlArgView::Descriptor { handle: Handle::Backing },
        },
        RequestView::Ioctl {
            handle: Handle::Loop,
            code: LOOP_SET_STATUS64,
            arg: IoctlArgView::LoopStatus { file_name: loop_file_name(backing) },
        },
        RequestView::Close { handle: Handle::Control },
    ]
}

/// The course of an attachment of the file at `backing` that is fed
/// `replies`: what it asks for, and how it ends if it does.
pub open spec fn attach_run(backing: Seq<char>, replies: Seq<ReplyView>) -> Run<Seq<char>> {
    run(
        attach_step(backing),
        attach_first(backing).0,
        StepView::Call { request: attach_first(backing).1 },
        replies,
    )
}

/// The transition function of an attachment of the file at `backing`.
pub open spec fn attach_step(backing: Seq<char>) -> spec_fn(AttachStage, ReplyView) -> (
    AttachStage,
    StepView<Seq<char>>,
) {
    |stage: AttachStage, reply: ReplyView| attach_next(backing, stage, reply)
}

/// Whether `replies` let an attachment through to its end: the file
/// exists, both files and the device open, a free number comes back and
/// the binding succeeds. What comes of the label and of the close is
/// not asked.
pub open spec fn attach_succeeds(replies: Seq<ReplyView>) -> bool {
    &&& replies.len() >= 8
    &&& replies[0].existence() == Ok::<bool, ErrorView>(true)
    &&& replies[1].completion() is Ok
    &&& replies[2].completion() is Ok
    &&& replies[3].control_value() is Ok
    &&& replies[4].completion() is Ok
    &&& replies[5].control_value() is Ok
}

/// Without a backing file nothing is touched: where the first reply does
/// not say that the file exists, the attachment ends in an error having
/// asked only that question. No file is opened and no control operation
/// is issued. Where the reply says that the file does not exist, the
/// error is the not-found error that names the path.
pub proof fn lemma_attach_needs_backing_file(backing: Seq<char>, replies: Seq<ReplyView>)
    requires
        replies.len() > 0,
        replies[0].existence() != Ok::<bool, ErrorView>(true),
    ensures
        attach_run(backing, replies).requests == seq![RequestView::PathExists { path: backing }],
        forall|i: int|
            0 <= i < attach_run(backing, replies).requests.len() ==> !(#[trigger] attach_run(
                backing,
                replies,
            ).requests[i]).is_control_operation(),
        attach_run(backing, replies).outcome matches Some(Err(_)),
        replies[0] == (ReplyView::Exists { exists: false }) ==> attach_run(
            backing,
            replies,
        ).outcome == Some(
            Err::<Seq<char>, ErrorView>(ErrorView::BackingFileNotFound { path: backing }),
        ),
{
    reveal_with_fuel(run, 3);
    assert(attach_run(backing, replies).requests =~= seq![
        RequestView::PathExists { path: backing },
    ]);
}

/// An attachment yields a device exactly when the replies let it
/// through, and the device is then the one whose number loop-control
/// returned: its path is `/dev/loop` followed by that number. The eight
/// operations were then asked for in their order, each once.
pub proof fn lemma_attach_outcome(backing: Seq<char>, replies: Seq<ReplyView>)
    ensures
        attach_run(backing, replies).outcome matches Some(Ok(_)) <==> attach_succeeds(replies),
        attach_succeeds(replies) ==> {
            let number = replies[3].control_value()->Ok_0 as nat;
            &&& attach_run(backing, replies).outcome == Some(
                Ok::<Seq<char>, ErrorView>(loop_device_path(number)),
            )
            &&& attach_run(backing, replies).requests == attach_requests(backing, number)
        },
{
    reveal_with_fuel(run, 10);
    if attach_succeeds(replies) {
        let number = replies[3].control_value()->Ok_0 as nat;
        assert(attach_run(backing, replies).requests =~= attach_requests(backing, number));
    }
}

} // verus!
