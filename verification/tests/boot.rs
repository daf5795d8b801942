use init_stage_1::boot::{advance, begin, BootStage, Booted};
use init_stage_1::error::{Error, RequiredKey};
use init_stage_1::loopdev::file_name_field;
use init_stage_1::mount::MountFlags;
use init_stage_1::sys::{Handle, IoctlArg, Reply, Request, Step};

fn boot(replies: Vec<Reply>) -> (Vec<Request>, Option<Result<Booted, Error>>) {
    let (mut stage, first) = begin();
    let mut requests = vec![first];
    for reply in replies {
        let (next, step) = advance(stage, reply);
        stage = next;
        match step {
            Step::Call { request } => requests.push(request),
            Step::Done { result } => {
                assert_eq!(stage, BootStage::Finished);
                return (requests, Some(result));
            }
        }
    }
    (requests, None)
}

fn ok() -> Reply {
    Reply::Returned { value: 0, errno: 0 }
}

fn failed(errno: i32) -> Reply {
    Reply::Returned { value: -1, errno }
}

fn mkdir(path: &str) -> Request {
    Request::CreateDirAll { path: path.to_string() }
}

fn mount(source: &str, target: &str, fstype: Option<&str>, flags: MountFlags) -> Request {
    Request::Mount {
        source: source.to_string(),
        target: target.to_string(),
        fstype: fstype.map(|t| t.to_string()),
        flags,
    }
}

fn block_devices() -> Vec<Option<String>> {
    vec![
        Some("MAJOR=8\nMINOR=0\nDEVNAME=sda\nDEVTYPE=disk\n".to_string()),
        None,
        Some("MAJOR=8\nMINOR=2\nDEVNAME=sda2\nDEVTYPE=partition\nPARTUUID=2222\n".to_string()),
        Some("MAJOR=8\nMINOR=3\nDEVNAME=sda3\nDEVTYPE=partition\nPARTUUID=1111\n".to_string()),
    ]
}

fn replies_up_to_the_partition() -> Vec<Reply> {
    vec![
        Reply::Done,
        ok(),
        Reply::Done,
        ok(),
        Reply::Done,
        ok(),
        Reply::Text { contents: "system_partition=UUID=1111 user_partition=UUID=2222\n".to_string() },
        Reply::Done,
        Reply::Uevents { entries: block_devices() },
        ok(),
    ]
}

fn replies_up_to_the_switch() -> Vec<Reply> {
    let mut replies = replies_up_to_the_partition();
    replies.extend(vec![
        Reply::Exists { exists: true },
        Reply::Done,
        Reply::Done,
        ok(),
        Reply::Done,
        ok(),
        ok(),
        Reply::Done,
        Reply::Done,
        ok(),
    ]);
    replies
}

fn good_replies() -> Vec<Reply> {
    let mut replies = replies_up_to_the_switch();
    replies.extend(vec![
        Reply::Exists { exists: true },
        ok(),
        ok(),
        ok(),
        ok(),
        Reply::Done,
        ok(),
        ok(),
        Reply::Done,
    ]);
    replies
}

fn expected_requests() -> Vec<Request> {
    let none = MountFlags::empty();
    let image = "/systemp/system.squashfs";
    vec![
        mkdir("/dev"),
        mount("devtmpfs", "/dev", Some("devtmpfs"), none),
        mkdir("/sys"),
        mount("sysfs", "/sys", Some("sysfs"), none),
        mkdir("/proc"),
        mount("proc", "/proc", Some("proc"), none),
        Request::ReadFile { path: "/proc/cmdline".to_string() },
        mkdir("/systemp"),
        Request::ReadUevents { root: "/sys/class/block".to_string() },
        mount("/dev/sda3", "/systemp", Some("btrfs"), none),
        Request::PathExists { path: image.to_string() },
        Request::Open { handle: Handle::Backing, path: image.to_string(), write: false },
        Request::Open { handle: Handle::Control, path: "/dev/loop-control".to_string(), write: false },
        Request::Ioctl { handle: Handle::Control, code: 0x4C82, arg: IoctlArg::Nothing },
        Request::Open { handle: Handle::Loop, path: "/dev/loop0".to_string(), write: true },
        Request::Ioctl {
            handle: Handle::Loop,
            code: 0x4C00,
            arg: IoctlArg::Descriptor { handle: Handle::Backing },
        },
        Request::Ioctl {
            handle: Handle::Loop,
            code: 0x4C04,
            arg: IoctlArg::LoopStatus { file_name: file_name_field(image) },
        },
        Request::Close { handle: Handle::Control },
        mkdir("/system"),
        mount(
            "/dev/loop0",
            "/system",
            Some("squashfs"),
            MountFlags::RDONLY() | MountFlags::NODEV() | MountFlags::NOEXEC(),
        ),
        Request::PathExists { path: "/system".to_string() },
        mount("/dev", "/system/dev", None, MountFlags::MOVE()),
        mount("/proc", "/system/proc", None, MountFlags::MOVE()),
        mount("/sys", "/system/sys", None, MountFlags::MOVE()),
        mount("/run", "/system/run", None, MountFlags::MOVE()),
        Request::ChangeDir { path: "/system".to_string() },
        mount("/system", "/", None, MountFlags::MOVE()),
        Request::ChangeRoot { path: ".".to_string() },
        Request::ChangeDir { path: "/".to_string() },
    ]
}

#[test]
fn boot_begins_with_the_device_filesystem() {
    let (stage, request) = begin();
    assert_eq!(stage, BootStage::CreatingDev);
    assert_eq!(request, mkdir("/dev"));
}

#[test]
fn boot_end_to_end() {
    let (requests, outcome) = boot(good_replies());
    assert_eq!(requests.len(), 29);
    assert_eq!(requests, expected_requests());
    let booted = outcome.unwrap().unwrap();
    assert_eq!(booted.args.system_data_partition, "UUID=1111");
    assert_eq!(booted.args.user_data_partition, "UUID=2222");
    assert_eq!(booted.loop_device.path(), "/dev/loop0");
}

#[test]
fn boot_mounts_the_resolved_device_as_the_system_partition() {
    let (requests, outcome) = boot(replies_up_to_the_partition());
    assert_eq!(outcome, None);
    assert_eq!(requests[9], mount("/dev/sda3", "/systemp", Some("btrfs"), MountFlags::empty()));
    assert_eq!(requests[10], Request::PathExists { path: "/systemp/system.squashfs".to_string() });
}

#[test]
fn boot_mounts_the_image_read_only_nodev_noexec() {
    let (requests, _) = boot(replies_up_to_the_switch());
    match &requests[19] {
        Request::Mount { source, target, fstype, flags } => {
            assert_eq!(source, "/dev/loop0");
            assert_eq!(target, "/system");
            assert_eq!(fstype.as_deref(), Some("squashfs"));
            assert_eq!(flags.bits(), 13);
            assert!(flags.contains(MountFlags::RDONLY()));
            assert!(flags.contains(MountFlags::NODEV()));
            assert!(flags.contains(MountFlags::NOEXEC()));
        }
        other => panic!("unexpected: {:?}", other),
    }
    assert_eq!(requests[20], Request::PathExists { path: "/system".to_string() });
}

#[test]
fn boot_awaits_each_reply() {
    let all = good_replies();
    let expected = expected_requests();
    for n in 0..all.len() {
        let replies: Vec<Reply> = all.iter().take(n).cloned().collect();
        let (requests, outcome) = boot(replies);
        assert_eq!(requests, expected[..n + 1].to_vec());
        assert_eq!(outcome, None);
    }
}

#[test]
fn each_mountpoint_is_created_before_its_mount() {
    let requests = expected_requests();
    let (seen, _) = boot(good_replies());
    assert_eq!(seen, requests);
    for (i, request) in seen.iter().enumerate() {
        if let Request::Mount { target, fstype: Some(_), .. } = request {
            let created = seen[..i].iter().rposition(|r| *r == mkdir(target)).unwrap();
            assert!(i - created <= 2, "{} is mounted long after it was created", target);
            let others = seen
                .iter()
                .filter(|r| matches!(r, Request::Mount { target: t, fstype: Some(_), .. } if t == target))
                .count();
            assert_eq!(others, 1);
        }
    }
}

#[test]
fn any_failed_step_before_the_switch_ends_the_boot() {
    let all = replies_up_to_the_switch();
    for n in 0..all.len() {
        let mut replies: Vec<Reply> = all.iter().take(n).cloned().collect();
        replies.push(Reply::Failed { error: Error::Os { code: 5 } });
        let (requests, outcome) = boot(replies);
        if n == 16 || n == 17 {
            // the label of the loop device and the close of loop-control
            assert_eq!(requests.len(), n + 2, "step {}", n);
            assert_eq!(outcome, None);
        } else {
            assert_eq!(requests.len(), n + 1, "step {}", n);
            assert_eq!(outcome, Some(Err(Error::Os { code: 5 })), "step {}", n);
        }
    }
}

#[test]
fn failed_mount_is_an_os_error_with_its_code() {
    let (requests, outcome) = boot(vec![Reply::Done, failed(16)]);
    assert_eq!(requests.len(), 2);
    assert_eq!(outcome, Some(Err(Error::Os { code: 16 })));
}

#[test]
fn boot_fails_on_a_missing_boot_argument() {
    let mut replies = replies_up_to_the_partition();
    replies.truncate(6);
    replies.push(Reply::Text { contents: "quiet system_partition=UUID=1111\n".to_string() });
    let (requests, outcome) = boot(replies);
    assert_eq!(requests.len(), 7);
    assert_eq!(outcome, Some(Err(Error::MissingKey { key: RequiredKey::UserPartition })));
}

#[test]
fn boot_fails_when_no_block_device_carries_the_uuid() {
    let mut replies = replies_up_to_the_partition();
    replies.truncate(6);
    replies.push(Reply::Text { contents: "system_partition=UUID=9999 user_partition=UUID=2222".to_string() });
    replies.push(Reply::Done);
    replies.push(Reply::Uevents { entries: block_devices() });
    let (requests, outcome) = boot(replies);
    assert_eq!(requests.len(), 9);
    assert_eq!(outcome, Some(Err(Error::PartitionNotFound { uuid: "9999".to_string() })));
}

#[test]
fn boot_resolves_the_system_partition_not_the_user_partition() {
    let mut replies = replies_up_to_the_partition();
    replies[6] = Reply::Text { contents: "user_partition=UUID=1111 system_partition=2222".to_string() };
    let (requests, _) = boot(replies);
    assert_eq!(requests[9], mount("/dev/sda2", "/systemp", Some("btrfs"), MountFlags::empty()));
}

#[test]
fn boot_fails_when_the_image_is_missing() {
    let mut replies = replies_up_to_the_partition();
    replies.push(Reply::Exists { exists: false });
    let (requests, outcome) = boot(replies);
    assert_eq!(requests.len(), 11);
    assert_eq!(
        outcome,
        Some(Err(Error::BackingFileNotFound { path: "/systemp/system.squashfs".to_string() }))
    );
}

#[test]
fn boot_fails_when_the_new_root_is_missing() {
    let mut replies = replies_up_to_the_switch();
    replies.push(Reply::Exists { exists: false });
    let (requests, outcome) = boot(replies);
    assert_eq!(requests.len(), 21);
    assert_eq!(outcome, Some(Err(Error::NewRootNotFound { path: "/system".to_string() })));
}

#[test]
fn boot_goes_on_when_well_known_mounts_cannot_be_moved() {
    let mut replies = replies_up_to_the_switch();
    replies.push(Reply::Exists { exists: true });
    for _ in 0..4 {
        replies.push(failed(22));
        replies.push(failed(22));
    }
    replies.extend(vec![Reply::Done, ok(), ok(), Reply::Done]);
    let (requests, outcome) = boot(replies);
    assert_eq!(requests.len(), 33);
    assert_eq!(requests[22], Request::Unmount { target: "/dev".to_string() });
    assert_eq!(outcome.unwrap().unwrap().loop_device.path(), "/dev/loop0");
}

#[test]
fn boot_fails_when_the_root_cannot_be_changed() {
    let mut replies = good_replies();
    replies[27] = failed(1);
    let (requests, outcome) = boot(replies);
    assert_eq!(requests.len(), 28);
    assert_eq!(outcome, Some(Err(Error::Os { code: 1 })));
}

#[test]
fn a_finished_boot_takes_no_further_reply() {
    let (stage, step) = advance(BootStage::Finished, Reply::Done);
    assert_eq!(stage, BootStage::Finished);
    assert_eq!(step, Step::Done { result: Err(Error::UnexpectedReply) });
}
