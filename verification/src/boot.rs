//! The boot sequencer: the one fixed order in which the other parts
//! are used, from the first mount to the root switch. [`begin`] starts
//! the sequence and [`advance`] carries it on from each reply. A step
//! that fails ends the sequence; nothing that was done is undone.

use crate::error::{Error, ErrorView};
use crate::kernel_args::{spec_bare_uuid, spec_parse, Args, ArgsView};
use crate::loopdev::{
    attach_first, attach_next, attach_requests, attach_succeeds, loop_device_path,
    AttachStage, LoopDevice,
};
use crate::mount::{MountFlags, MS_NODEV, MS_NOEXEC, MS_RDONLY};
use crate::proc::{
    proc_first, proc_mount_request, proc_next, proc_path, proc_root, spec_read_cmdline, Proc,
    ProcStage,
};
use crate::resolve::{resolve_uuid, spec_resolve_uuid};
use crate::switch::{
    begin_switch_root, switch_first, switch_next, switch_root, switch_run, switch_step,
    SwitchStage,
};
use crate::sys::{
    after, lemma_run_in_parts, run, Reply, ReplyView, Request, RequestView, Run, Step, StepView,
};
use crate::text::{join_path, path_join};
use vstd::prelude::*;

verus! {

/// Where the system data partition is mounted.
pub open spec fn system_partition_root() -> Seq<char> {
    "/systemp"@
}

/// Where the image is mounted, which becomes the new root.
pub open spec fn system_root() -> Seq<char> {
    "/system"@
}

/// Where the kernel tells of its block devices.
pub open spec fn block_device_root() -> Seq<char> {
    "/sys/class/block"@
}

/// The path of the image on the system data partition.
pub open spec fn image_path() -> Seq<char> {
    path_join(system_partition_root(), "system.squashfs"@)
}

/// The request that mounts a pseudo-filesystem of the kernel on
/// `target`, with no flag set.
pub open spec fn pseudo_mount_request(kind: Seq<char>, target: Seq<char>) -> RequestView {
    RequestView::Mount { source: kind, target, fstype: Some(kind), flags: MountFlags::of(0) }
}

/// The request that mounts the system data partition from its device.
pub open spec fn partition_mount_request(device: Seq<char>) -> RequestView {
    RequestView::Mount {
        source: device,
        target: system_partition_root(),
        fstype: Some("btrfs"@),
        flags: MountFlags::of(0),
    }
}

/// The flags under which the image is mounted: read-only, and neither
/// device files nor programs on it are honoured.
pub open spec fn image_flags() -> MountFlags {
    MountFlags::of(MS_RDONLY).union(MountFlags::of(MS_NODEV)).union(MountFlags::of(MS_NOEXEC))
}

/// The request that mounts the image from its loop device.
pub open spec fn image_mount_request(device: Seq<char>) -> RequestView {
    RequestView::Mount {
        source: device,
        target: system_root(),
        fstype: Some("squashfs"@),
        flags: image_flags(),
    }
}

/// What a boot that succeeded hands over: the boot arguments, and the
/// loop device under the new root. The filesystem of the new root lives
/// on that device, so the receiver keeps the device, and the descriptor
/// that belongs to it, until the process ends, and never detaches it.
#[derive(Debug, PartialEq, Eq)]
pub struct Booted {
    pub args: Args,
    pub loop_device: LoopDevice,
}

/// The mathematical content of [`Booted`].
pub struct BootedView {
    pub args: ArgsView,
    pub loop_device: Seq<char>,
}

impl View for Booted {
    type V = BootedView;

    open spec fn view(&self) -> BootedView {
        BootedView { args: self.args@, loop_device: self.loop_device@ }
    }
}

/// How far a boot has come: the operation whose reply is awaited, with
/// what the sequence has gained so far and still needs.
#[derive(Debug, PartialEq, Eq)]
pub enum BootStage {
    /// Creating `/dev`.
    CreatingDev,
    /// Mounting the device filesystem.
    MountingDev,
    /// Creating `/sys`.
    CreatingSys,
    /// Mounting the system-information filesystem.
    MountingSys,
    /// Opening the process-information filesystem.
    OpeningProc { opening: ProcStage },
    /// Reading the kernel command line.
    ReadingCmdline { proc: Proc },
    /// Creating the mountpoint of the system data partition.
    CreatingSystemPartition { args: Args },
    /// Reading what the kernel tells of its block devices.
    ScanningBlockDevices { args: Args },
    /// Mounting the system data partition.
    MountingSystemPartition { args: Args },
    /// Attaching the image to a loop device.
    Attaching { args: Args, attaching: AttachStage },
    /// Creating the mountpoint of the image.
    CreatingSystemRoot { args: Args, loop_device: LoopDevice },
    /// Mounting the image.
    MountingImage { args: Args, loop_device: LoopDevice },
    /// Switching the root to the image.
    Switching { args: Args, loop_device: LoopDevice, switching: SwitchStage },
    /// The boot has ended.
    Finished,
}

/// The mathematical content of a [`BootStage`].
pub enum BootStageView {
    CreatingDev,
    MountingDev,
    CreatingSys,
    MountingSys,
    OpeningProc { opening: ProcStage },
    ReadingCmdline,
    CreatingSystemPartition { args: ArgsView },
    ScanningBlockDevices { args: ArgsView },
    MountingSystemPartition { args: ArgsView },
    Attaching { args: ArgsView, attaching: AttachStage },
    CreatingSystemRoot { args: ArgsView, loop_device: Seq<char> },
    MountingImage { args: ArgsView, loop_device: Seq<char> },
    Switching { args: ArgsView, loop_device: Seq<char>, switching: SwitchStage },
    Finished,
}

impl View for BootStage {
    type V = BootStageView;

    open spec fn view(&self) -> BootStageView {
        match self {
            BootStage::CreatingDev => BootStageView::CreatingDev,
            BootStage::MountingDev => BootStageView::MountingDev,
            BootStage::CreatingSys => BootStageView::CreatingSys,
            BootStage::MountingSys => BootStageView::MountingSys,
            BootStage::OpeningProc { opening } => BootStageView::OpeningProc { opening: *opening },
            BootStage::ReadingCmdline { proc } => BootStageView::ReadingCmdline,
            BootStage::CreatingSystemPartition { args } => BootStageView::CreatingSystemPartition {
                args: args@,
            },
            BootStage::ScanningBlockDevices { args } => BootStageView::ScanningBlockDevices {
                args: args@,
            },
            BootStage::MountingSystemPartition { args } => BootStageView::MountingSystemPartition {
                args: args@,
            },
            BootStage::Attaching { args, attaching } => BootStageView::Attaching {
                args: args@,
                attaching: *attaching,
            },
            BootStage::CreatingSystemRoot { args, loop_device } => BootStageView::CreatingSystemRoot {
                args: args@,
                loop_device: loop_device@,
            },
            BootStage::MountingImage { args, loop_device } => BootStageView::MountingImage {
                args: args@,
                loop_device: loop_device@,
            },
            BootStage::Switching { args, loop_device, switching } => BootStageView::Switching {
                args: args@,
                loop_device: loop_device@,
                switching: *switching,
            },
            BootStage::Finished => BootStageView::Finished,
        }
    }
}

/// The first request of a boot: to create `/dev`.
pub open spec fn boot_first() -> (BootStageView, RequestView) {
    (BootStageView::CreatingDev, RequestView::CreateDirAll { path: "/dev"@ })
}

/// The boot goes on with `request`, and awaits its reply in `stage`.
pub open spec fn boot_go(stage: BootStageView, request: RequestView) -> (
    BootStageView,
    StepView<BootedView>,
) {
    (stage, StepView::Call { request })
}

/// The boot ends with `result`.
pub open spec fn boot_end(result: Result<BootedView, ErrorView>) -> (
    BootStageView,
    StepView<BootedView>,
) {
    (BootStageView::Finished, StepView::Done { result })
}

/// What the boot does once the operation it awaited has succeeded: it
/// goes on with `request` in `stage`; and once it has failed: it ends
/// with that error.
pub open spec fn boot_then(reply: ReplyView, stage: BootStageView, request: RequestView) -> (
    BootStageView,
    StepView<BootedView>,
) {
    match reply.completion() {
        Ok(_) => boot_go(stage, request),
        Err(e) => boot_end(Err(e)),
    }
}

/// What a boot does when `reply` answers the operation it awaited in
/// `stage`. The sequence is fixed: mount the device filesystem, mount
/// the system-information filesystem, open `/proc`, read and parse the
/// command line, find the system data partition by its UUID and mount
/// it, attach the image on it to a loop device, mount the image
/// read-only, and switch the root to it. Each mountpoint is created
/// before its mount. The first step that fails ends the boot with its
/// error.
pub open spec fn boot_next(stage: BootStageView, reply: ReplyView) -> (
    BootStageView,
    StepView<BootedView>,
) {
    match stage {
        BootStageView::CreatingDev => boot_then(
            reply,
            BootStageView::MountingDev,
            pseudo_mount_request("devtmpfs"@, "/dev"@),
        ),
        BootStageView::MountingDev => boot_then(
            reply,
            BootStageView::CreatingSys,
            RequestView::CreateDirAll { path: "/sys"@ },
        ),
        BootStageView::CreatingSys => boot_then(
            reply,
            BootStageView::MountingSys,
            pseudo_mount_request("sysfs"@, "/sys"@),
        ),
        BootStageView::MountingSys => boot_then(
            reply,
            BootStageView::OpeningProc { opening: proc_first().0 },
            proc_first().1,
        ),
        BootStageView::OpeningProc { opening } => match proc_next(opening, reply).1 {
            StepView::Call { request } => boot_go(
                BootStageView::OpeningProc { opening: proc_next(opening, reply).0 },
                request,
            ),
            StepView::Done { result } => match result {
                Ok(_) => boot_go(
                    BootStageView::ReadingCmdline,
                    RequestView::ReadFile { path: proc_path("cmdline"@) },
                ),
                Err(e) => boot_end(Err(e)),
            },
        },
        BootStageView::ReadingCmdline => match spec_read_cmdline(reply) {
            Ok(cmdline) => match spec_parse(cmdline) {
                Ok(args) => boot_go(
                    BootStageView::CreatingSystemPartition { args },
                    RequestView::CreateDirAll { path: system_partition_root() },
                ),
                Err(e) => boot_end(Err(e)),
            },
            Err(e) => boot_end(Err(e)),
        },
        BootStageView::CreatingSystemPartition { args } => boot_then(
            reply,
            BootStageView::ScanningBlockDevices { args },
            RequestView::ReadUevents { root: block_device_root() },
        ),
        BootStageView::ScanningBlockDevices { args } => match reply {
            ReplyView::Uevents { entries } => match spec_resolve_uuid(
                entries,
                spec_bare_uuid(args.system_data_partition),
            ) {
                Ok(device) => boot_go(
                    BootStageView::MountingSystemPartition { args },
                    partition_mount_request(device),
                ),
                Err(e) => boot_end(Err(e)),
            },
            ReplyView::Failed { error } => boot_end(Err(error)),
            _ => boot_end(Err(ErrorView::UnexpectedReply)),
        },
        BootStageView::MountingSystemPartition { args } => boot_then(
            reply,
            BootStageView::Attaching { args, attaching: attach_first(image_path()).0 },
            attach_first(image_path()).1,
        ),
        BootStageView::Attaching { args, attaching } => match attach_next(
            image_path(),
            attaching,
            reply,
        ).1 {
            StepView::Call { request } => boot_go(
                BootStageView::Attaching {
                    args,
                    attaching: attach_next(image_path(), attaching, reply).0,
                },
                request,
            ),
            StepView::Done { result } => match result {
                Ok(loop_device) => boot_go(
                    BootStageView::CreatingSystemRoot { args, loop_device },
                    RequestView::CreateDirAll { path: system_root() },
                ),
                Err(e) => boot_end(Err(e)),
            },
        },
        BootStageView::CreatingSystemRoot { args, loop_device } => boot_then(
            reply,
            BootStageView::MountingImage { args, loop_device },
            image_mount_request(loop_device),
        ),
        BootStageView::MountingImage { args, loop_device } => boot_then(
            reply,
            BootStageView::Switching {
                args,
                loop_device,
                switching: switch_first(system_root()).0,
            },
            switch_first(system_root()).1,
        ),
        BootStageView::Switching { args, loop_device, switching } => match switch_next(
            system_root(),
            switching,
            reply,
        ).1 {
            StepView::Call { request } => boot_go(
                BootStageView::Switching {
                    args,
                    loop_device,
                    switching: switch_next(system_root(), switching, reply).0,
                },
                request,
            ),
            StepView::Done { result } => match result {
                Ok(_) => boot_end(Ok(BootedView { args, loop_device })),
                Err(e) => boot_end(Err(e)),
            },
        },
        BootStageView::Finished => boot_end(Err(ErrorView::UnexpectedReply)),
    }
}

/// Builds the request that mounts a pseudo-filesystem.
fn pseudo_mount(kind: &str, target: &str) -> (r: Request)
    ensures
        r@ == pseudo_mount_request(kind@, target@),
{
    Request::Mount {
        source: kind.to_string(),
        target: target.to_string(),
        fstype: Some(kind.to_string()),
        flags: MountFlags::empty(),
    }
}

/// The boot ends with `error`.
fn fail(error: Error) -> (r: (BootStage, Step<Booted>))
    ensures
        (r.0@, r.1@) == boot_end(Err(error@)),
{
    (BootStage::Finished, Step::Done { result: Err(error) })
}

/// Goes on with `request` in `stage` once the awaited operation has
/// succeeded.
fn proceed(reply: Reply, stage: BootStage, request: Request) -> (r: (BootStage, Step<Booted>))
    ensures
        (r.0@, r.1@) == boot_then(reply@, stage@, request@),
{
    match reply.completion() {
        Ok(_) => (stage, Step::Call { request }),
        Err(e) => fail(e),
    }
}

/// Starts the boot: the first thing asked for is the directory `/dev`.
pub fn begin() -> (r: (BootStage, Request))
    ensures
        (r.0@, r.1@) == boot_first(),
{
    (BootStage::CreatingDev, Request::CreateDirAll { path: "/dev".to_string() })
}

/// Carries the boot on from `stage` with the reply to the request that
/// was pending, and returns the stage it is in now with the next
/// request, or what it ended with.
pub fn advance(stage: BootStage, reply: Reply) -> (r: (BootStage, Step<Booted>))
    ensures
        (r.0@, r.1@) == boot_next(stage@, reply@),
{
    match stage {
        BootStage::CreatingDev => proceed(reply, BootStage::MountingDev, pseudo_mount("devtmpfs", "/dev")),
        BootStage::MountingDev => proceed(
            reply,
            BootStage::CreatingSys,
            Request::CreateDirAll { path: "/sys".to_string() },
        ),
        BootStage::CreatingSys => proceed(reply, BootStage::MountingSys, pseudo_mount("sysfs", "/sys")),
        BootStage::MountingSys => {
            let first = Proc::open();
            proceed(reply, BootStage::OpeningProc { opening: first.0 }, first.1)
        },
        BootStage::OpeningProc { opening } => {
            let next = Proc::new(opening, reply);
            match next.1 {
                Step::Call { request } => (
                    BootStage::OpeningProc { opening: next.0 },
                    Step::Call { request },
                ),
                Step::Done { result } => match result {
                    Ok(proc) => {
                        let request = proc.read_file("cmdline");
                        (BootStage::ReadingCmdline { proc }, Step::Call { request })
                    },
                    Err(e) => fail(e),
                },
            }
        },
        BootStage::ReadingCmdline { proc } => match proc.read_cmdline(reply) {
            Ok(cmdline) => match Args::parse(cmdline.as_str()) {
                Ok(args) => (
                    BootStage::CreatingSystemPartition { args },
                    Step::Call { request: Request::CreateDirAll { path: "/systemp".to_string() } },
                ),
                Err(e) => fail(e),
            },
            Err(e) => fail(e),
        },
        BootStage::CreatingSystemPartition { args } => proceed(
            reply,
            BootStage::ScanningBlockDevices { args },
            Request::ReadUevents { root: "/sys/class/block".to_string() },
        ),
        BootStage::ScanningBlockDevices { args } => match reply {
            Reply::Uevents { entries } => {
                let uuid = args.system_partition_uuid();
                match resolve_uuid(&entries, uuid.as_str()) {
                    Ok(device) => (
                        BootStage::MountingSystemPartition { args },
                        Step::Call {
                            request: Request::Mount {
                                source: device,
                                target: "/systemp".to_string(),
                                fstype: Some("btrfs".to_string()),
                                flags: MountFlags::empty(),
                            },
                        },
                    ),
                    Err(e) => fail(e),
                }
            },
            Reply::Failed { error } => fail(error),
            _ => fail(Error::UnexpectedReply),
        },
        BootStage::MountingSystemPartition { args } => {
            let image = join_path("/systemp", "system.squashfs");
            let first = LoopDevice::attach(image.as_str());
            proceed(reply, BootStage::Attaching { args, attaching: first.0 }, first.1)
        },
        BootStage::Attaching { args, attaching } => {
            let image = join_path("/systemp", "system.squashfs");
            let next = LoopDevice::new(image.as_str(), attaching, reply);
            match next.1 {
                Step::Call { request } => (
                    BootStage::Attaching { args, attaching: next.0 },
                    Step::Call { request },
                ),
                Step::Done { result } => match result {
                    Ok(loop_device) => (
                        BootStage::CreatingSystemRoot { args, loop_device },
                        Step::Call { request: Request::CreateDirAll { path: "/system".to_string() } },
                    ),
                    Err(e) => fail(e),
                },
            }
        },
        BootStage::CreatingSystemRoot { args, loop_device } => {
            let request = Request::Mount {
                source: loop_device.path().to_string(),
                target: "/system".to_string(),
                fstype: Some("squashfs".to_string()),
                flags: MountFlags::RDONLY() | MountFlags::NODEV() | MountFlags::NOEXEC(),
            };
            proceed(reply, BootStage::MountingImage { args, loop_device }, request)
        },
        BootStage::MountingImage { args, loop_device } => {
            let first = begin_switch_root("/system");
            proceed(reply, BootStage::Switching { args, loop_device, switching: first.0 }, first.1)
        },
        BootStage::Switching { args, loop_device, switching } => {
            let next = switch_root("/system", switching, reply);
            match next.1 {
                Step::Call { request } => (
                    BootStage::Switching { args, loop_device, switching: next.0 },
                    Step::Call { request },
                ),
                Step::Done { result } => match result {
                    Ok(_) => (
                        BootStage::Finished,
                        Step::Done { result: Ok(Booted { args, loop_device }) },
                    ),
                    Err(e) => fail(e),
                },
            }
        },
        BootStage::Finished => fail(Error::UnexpectedReply),
    }
}

} // verus!

verus! {

/// The transition function of a boot.
pub open spec fn boot_step() -> spec_fn(BootStageView, ReplyView) -> (
    BootStageView,
    StepView<BootedView>,
) {
    |stage: BootStageView, reply: ReplyView| boot_next(stage, reply)
}

/// The course of a boot that is fed `replies`: what it asks for, and
/// how it ends if it does.
pub open spec fn boot_run(replies: Seq<ReplyView>) -> Run<BootedView> {
    run(boot_step(), boot_first().0, StepView::Call { request: boot_first().1 }, replies)
}

/// The ten operations that bring a boot to its system data partition,
/// which it finds on `device`.
pub open spec fn partition_requests(device: Seq<char>) -> Seq<RequestView> {
    seq![
        RequestView::CreateDirAll { path: "/dev"@ },
        pseudo_mount_request("devtmpfs"@, "/dev"@),
        RequestView::CreateDirAll { path: "/sys"@ },
        pseudo_mount_request("sysfs"@, "/sys"@),
        RequestView::CreateDirAll { path: proc_root() },
        proc_mount_request(),
        RequestView::ReadFile { path: proc_path("cmdline"@) },
        RequestView::CreateDirAll { path: system_partition_root() },
        RequestView::ReadUevents { root: block_device_root() },
        partition_mount_request(device),
    ]
}

/// The two operations that mount the image from the loop device with
/// the number `number`.
pub open spec fn image_requests(number: nat) -> Seq<RequestView> {
    seq![
        RequestView::CreateDirAll { path: system_root() },
        image_mount_request(loop_device_path(number)),
    ]
}

/// The twenty operations of a boot before its root switch, where the
/// system data partition is found on `device` and the image is attached
/// to the loop device with the number `number`: each mountpoint is
/// created right before its mount, but for that of the system data
/// partition, whose device is looked up in between.
pub open spec fn boot_requests(device: Seq<char>, number: nat) -> Seq<RequestView> {
    partition_requests(device) + attach_requests(image_path(), number) + image_requests(number)
}

/// Whether the first ten of `replies` bring a boot to its system data
/// partition: the three pseudo-filesystems are mounted, the command
/// line gives `args`, the UUID of the system data partition resolves
/// to `device`, and that device is mounted.
pub open spec fn partition_mounted(replies: Seq<ReplyView>, args: ArgsView, device: Seq<char>) -> bool {
    &&& replies.len() >= 10
    &&& forall|i: int| 0 <= i < 6 ==> (#[trigger] replies[i]).completion() is Ok
    &&& spec_read_cmdline(replies[6]) matches Ok(cmdline) && spec_parse(cmdline) == Ok::<
        ArgsView,
        ErrorView,
    >(args)
    &&& replies[7].completion() is Ok
    &&& replies[8] matches ReplyView::Uevents { entries } && spec_resolve_uuid(
        entries,
        spec_bare_uuid(args.system_data_partition),
    ) == Ok::<Seq<char>, ErrorView>(device)
    &&& replies[9].completion() is Ok
}

/// Whether the first twenty of `replies` bring a boot to its root
/// switch: the system data partition is mounted, the image is attached
/// to the loop device with the number `number`, and the image is
/// mounted.
pub open spec fn image_mounted(
    replies: Seq<ReplyView>,
    args: ArgsView,
    device: Seq<char>,
    number: nat,
) -> bool {
    &&& replies.len() >= 20
    &&& partition_mounted(replies, args, device)
    &&& attach_succeeds(replies.subrange(10, 18))
    &&& replies[13].control_value()->Ok_0 as nat == number
    &&& replies[18].completion() is Ok
    &&& replies[19].completion() is Ok
}

/// What a boot ends with that went as far as its root switch, by the
/// outcome of the switch.
pub open spec fn boot_outcome(
    switch: Option<Result<(), ErrorView>>,
    args: ArgsView,
    number: nat,
) -> Option<Result<BootedView, ErrorView>> {
    match switch {
        None => None,
        Some(Ok(_)) => Some(Ok(BootedView { args, loop_device: loop_device_path(number) })),
        Some(Err(e)) => Some(Err(e)),
    }
}

/// The first part of a boot, up to the mount of the system data
/// partition.
proof fn lemma_boot_to_partition(replies: Seq<ReplyView>, args: ArgsView, device: Seq<char>)
    requires
        replies.len() == 10,
        partition_mounted(replies, args, device),
    ensures
        boot_run(replies).outcome is None,
        boot_run(replies).requests == partition_requests(device).push(
            attach_first(image_path()).1,
        ),
        after(
            boot_step(),
            boot_first().0,
            StepView::Call { request: boot_first().1 },
            replies,
        ) == boot_go(
            BootStageView::Attaching { args, attaching: attach_first(image_path()).0 },
            attach_first(image_path()).1,
        ),
{
    reveal_with_fuel(run, 12);
    reveal_with_fuel(after, 12);
    assert(replies[0].completion() is Ok && replies[1].completion() is Ok
        && replies[2].completion() is Ok && replies[3].completion() is Ok
        && replies[4].completion() is Ok && replies[5].completion() is Ok);
    assert(boot_run(replies).requests =~= partition_requests(device).push(
        attach_first(image_path()).1,
    ));
}

/// The second part of a boot: the attachment of the image.
proof fn lemma_boot_attach(replies: Seq<ReplyView>, args: ArgsView)
    requires
        replies.len() == 8,
        attach_succeeds(replies),
    ensures
        ({
            let number = replies[3].control_value()->Ok_0 as nat;
            let stage = BootStageView::Attaching { args, attaching: attach_first(image_path()).0 };
            let step = StepView::<BootedView>::Call { request: attach_first(image_path()).1 };
            let part = run(boot_step(), stage, step, replies);
            &&& part.outcome is None
            &&& part.requests == attach_requests(image_path(), number).push(
                RequestView::CreateDirAll { path: system_root() },
            )
            &&& after(boot_step(), stage, step, replies) == boot_go(
                BootStageView::CreatingSystemRoot {
                    args,
                    loop_device: loop_device_path(number),
                },
                RequestView::CreateDirAll { path: system_root() },
            )
        }),
{
    reveal_with_fuel(run, 10);
    reveal_with_fuel(after, 10);
    let number = replies[3].control_value()->Ok_0 as nat;
    let stage = BootStageView::Attaching { args, attaching: attach_first(image_path()).0 };
    let step = StepView::<BootedView>::Call { request: attach_first(image_path()).1 };
    assert(run(boot_step(), stage, step, replies).requests =~= attach_requests(
        image_path(),
        number,
    ).push(RequestView::CreateDirAll { path: system_root() }));
}

/// The third part of a boot: the mount of the image.
proof fn lemma_boot_image(replies: Seq<ReplyView>, args: ArgsView, number: nat)
    requires
        replies.len() == 2,
        replies[0].completion() is Ok,
        replies[1].completion() is Ok,
    ensures
        ({
            let stage = BootStageView::CreatingSystemRoot {
                args,
                loop_device: loop_device_path(number),
            };
            let step = StepView::<BootedView>::Call {
                request: RequestView::CreateDirAll { path: system_root() },
            };
            let part = run(boot_step(), stage, step, replies);
            &&& part.outcome is None
            &&& part.requests == image_requests(number).push(switch_first(system_root()).1)
            &&& after(boot_step(), stage, step, replies) == boot_go(
                BootStageView::Switching {
                    args,
                    loop_device: loop_device_path(number),
                    switching: switch_first(system_root()).0,
                },
                switch_first(system_root()).1,
            )
        }),
{
    reveal_with_fuel(run, 4);
    reveal_with_fuel(after, 4);
    let stage = BootStageView::CreatingSystemRoot { args, loop_device: loop_device_path(number) };
    let step = StepView::<BootedView>::Call {
        request: RequestView::CreateDirAll { path: system_root() },
    };
    assert(run(boot_step(), stage, step, replies).requests =~= image_requests(number).push(
        switch_first(system_root()).1,
    ));
}

/// The last part of a boot is the root switch: in it the boot asks for
/// what the switch asks for, and ends when and as the switch ends.
pub proof fn lemma_boot_switch(
    replies: Seq<ReplyView>,
    args: ArgsView,
    number: nat,
    stage: SwitchStage,
    request: RequestView,
)
    ensures
        ({
            let switch = run(
                switch_step(system_root()),
                stage,
                StepView::Call { request },
                replies,
            );
            let part = run(
                boot_step(),
                BootStageView::Switching {
                    args,
                    loop_device: loop_device_path(number),
                    switching: stage,
                },
                StepView::Call { request },
                replies,
            );
            &&& part.requests == switch.requests
            &&& part.outcome == boot_outcome(switch.outcome, args, number)
        }),
    decreases replies.len(),
{
    reveal_with_fuel(run, 2);
    if replies.len() > 0 {
        let moved = switch_next(system_root(), stage, replies[0]);
        match moved.1 {
            StepView::Call { request: following } => {
                lemma_boot_switch(replies.drop_first(), args, number, moved.0, following);
            },
            StepView::Done { result } => {},
        }
    }
}

/// The course of a boot. Where the replies bring the boot to its root
/// switch, it has asked for the twenty operations that lead there, in
/// their order and each once; from there on it asks for what the root
/// switch asks for, and it ends as the switch does: with the boot
/// arguments and the loop device where the switch succeeds, with the
/// error of the switch where it fails.
pub proof fn lemma_boot_sequence(
    replies: Seq<ReplyView>,
    args: ArgsView,
    device: Seq<char>,
    number: nat,
)
    requires
        image_mounted(replies, args, device, number),
    ensures
        boot_run(replies).requests == boot_requests(device, number) + switch_run(
            system_root(),
            replies.skip(20),
        ).requests,
        boot_run(replies).outcome == boot_outcome(
            switch_run(system_root(), replies.skip(20)).outcome,
            args,
            number,
        ),
{
    let a = replies.take(10);
    let b = replies.subrange(10, 18);
    let c = replies.subrange(18, 20);
    let d = replies.skip(20);
    let step0 = StepView::<BootedView>::Call { request: boot_first().1 };
    let stage1 = BootStageView::Attaching { args, attaching: attach_first(image_path()).0 };
    let step1 = StepView::<BootedView>::Call { request: attach_first(image_path()).1 };
    let stage2 = BootStageView::CreatingSystemRoot { args, loop_device: loop_device_path(number) };
    let step2 = StepView::<BootedView>::Call {
        request: RequestView::CreateDirAll { path: system_root() },
    };
    let stage3 = BootStageView::Switching {
        args,
        loop_device: loop_device_path(number),
        switching: switch_first(system_root()).0,
    };
    let step3 = StepView::<BootedView>::Call { request: switch_first(system_root()).1 };
    assert(replies =~= a + (b + (c + d)));
    assert(partition_mounted(a, args, device)) by {
        assert forall|i: int| 0 <= i < 6 implies (#[trigger] a[i]).completion() is Ok by {
            assert(a[i] == replies[i]);
        }
    }
    assert(b[3] == replies[13]);
    assert(c[0] == replies[18] && c[1] == replies[19]);
    lemma_boot_to_partition(a, args, device);
    lemma_boot_attach(b, args);
    lemma_boot_image(c, args, number);
    lemma_boot_switch(d, args, number, switch_first(system_root()).0, switch_first(
        system_root(),
    ).1);
    lemma_run_in_parts(boot_step(), boot_first().0, step0, a, b + (c + d));
    lemma_run_in_parts(boot_step(), stage1, step1, b, c + d);
    lemma_run_in_parts(boot_step(), stage2, step2, c, d);
    let tail3 = run(boot_step(), stage3, step3, d);
    let tail2 = run(boot_step(), stage2, step2, c + d);
    let tail1 = run(boot_step(), stage1, step1, b + (c + d));
    assert(tail2.requests =~= image_requests(number) + tail3.requests);
    assert(tail1.requests =~= attach_requests(image_path(), number) + image_requests(number)
        + tail3.requests);
    assert(boot_run(replies).requests =~= boot_requests(device, number) + tail3.requests);
}

/// A boot succeeds through its root switch only: whatever the stage and
/// the reply, it hands over a root only where the switch has just
/// ended well. In every other stage a reply leads to a further request
/// or to an error.
pub proof fn lemma_boot_succeeds_through_switch(stage: BootStageView, reply: ReplyView)
    requires
        boot_next(stage, reply).1 matches StepView::Done { result: Ok(_) },
    ensures
        stage matches BootStageView::Switching { args, loop_device, switching }
            && switch_next(system_root(), switching, reply).1 == (StepView::Done {
            result: Ok::<(), ErrorView>(()),
        }) && boot_next(stage, reply).1 == (StepView::Done {
            result: Ok::<BootedView, ErrorView>(BootedView { args, loop_device }),
        }),
{
}

/// The image is mounted under restrictive flags: read-only, no-dev and
/// no-exec are all three set in the request, and nothing else is.
pub proof fn lemma_image_mount_is_restrictive(device: Seq<char>)
    ensures
        image_mount_request(device) matches RequestView::Mount { source, target, fstype, flags }
            && source == device && target == system_root() && flags.bits == 0x0D
            && flags.contains(MountFlags::of(MS_RDONLY)) && flags.contains(
            MountFlags::of(MS_NODEV),
        ) && flags.contains(MountFlags::of(MS_NOEXEC)),
{
    crate::mount::lemma_restrictive_flags();
}

/// Whether `request` creates the directory `path`.
pub open spec fn creates(request: RequestView, path: Seq<char>) -> bool {
    request == (RequestView::CreateDirAll { path })
}

/// Whether `request` mounts a filesystem on `target`.
pub open spec fn mounts_on(request: RequestView, target: Seq<char>) -> bool {
    request matches RequestView::Mount { target: on, .. } && on == target
}

/// A boot holds one mount of each kind, each on a mountpoint of its
/// own: among the twenty operations before the root switch there are
/// five mounts, on `/dev`, `/sys`, `/proc`, the mountpoint of the system
/// data partition and that of the image, which are five different
/// paths. Each mountpoint is created by the operation right before its
/// mount; only between the creation and the mount of the system data
/// partition the block devices are read.
pub proof fn lemma_boot_mountpoints(device: Seq<char>, number: nat)
    ensures
        ({
            let requests = boot_requests(device, number);
            &&& requests.len() == 20
            &&& creates(requests[0], "/dev"@) && mounts_on(requests[1], "/dev"@)
            &&& creates(requests[2], "/sys"@) && mounts_on(requests[3], "/sys"@)
            &&& creates(requests[4], proc_root()) && mounts_on(requests[5], proc_root())
            &&& creates(requests[7], system_partition_root()) && mounts_on(
                requests[9],
                system_partition_root(),
            )
            &&& creates(requests[18], system_root()) && mounts_on(requests[19], system_root())
            &&& forall|i: int|
                0 <= i < 20 && #[trigger] requests[i] is Mount ==> i == 1 || i == 3 || i == 5 || i
                    == 9 || i == 19
        }),
        "/dev"@ != "/sys"@,
        "/dev"@ != proc_root(),
        "/dev"@ != system_partition_root(),
        "/dev"@ != system_root(),
        "/sys"@ != proc_root(),
        "/sys"@ != system_partition_root(),
        "/sys"@ != system_root(),
        proc_root() != system_partition_root(),
        proc_root() != system_root(),
        system_partition_root() != system_root(),
{
    reveal_strlit("/dev");
    reveal_strlit("/sys");
    reveal_strlit("/proc");
    reveal_strlit("/systemp");
    reveal_strlit("/system");
    assert("/dev"@[1] == 'd' && "/sys"@[1] == 's');
    assert("/dev"@.len() == 4 && "/sys"@.len() == 4 && "/proc"@.len() == 5);
    assert("/systemp"@.len() == 8 && "/system"@.len() == 7);
    let requests = boot_requests(device, number);
    let first = partition_requests(device);
    let second = attach_requests(image_path(), number);
    let third = image_requests(number);
    assert(first.len() == 10 && second.len() == 8 && third.len() == 2);
    assert forall|i: int| 0 <= i < 20 implies (#[trigger] requests[i] is Mount ==> i == 1 || i
        == 3 || i == 5 || i == 9 || i == 19) by {
        if i < 10 {
            assert(requests[i] == first[i]);
        } else if i < 18 {
            assert(requests[i] == second[i - 10]);
        } else {
            assert(requests[i] == third[i - 18]);
        }
    }
    assert(requests[0] == first[0] && requests[1] == first[1] && requests[2] == first[2]
        && requests[3] == first[3] && requests[4] == first[4] && requests[5] == first[5]
        && requests[7] == first[7] && requests[9] == first[9]);
    assert(requests[18] == third[0] && requests[19] == third[1]);
}

} // verus!
