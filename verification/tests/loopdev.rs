use init_stage_1::error::{Error, ErrorClass};
use init_stage_1::loopdev::{
    device_path, file_name_field, AttachStage, LoopDevice, LOOP_CLR_FD, LOOP_CTL_GET_FREE,
    LOOP_NAME_SIZE, LOOP_SET_FD, LOOP_SET_STATUS64,
};
use init_stage_1::sys::{Handle, IoctlArg, Reply, Request, Step};

fn attach(backing: &str, replies: Vec<Reply>) -> (Vec<Request>, Option<Result<LoopDevice, Error>>) {
    let (mut stage, first) = LoopDevice::attach(backing);
    let mut requests = vec![first];
    for reply in replies {
        let (next, step) = LoopDevice::new(backing, stage, reply);
        stage = next;
        match step {
            Step::Call { request } => requests.push(request),
            Step::Done { result } => {
                assert_eq!(stage, AttachStage::Finished);
                return (requests, Some(result));
            }
        }
    }
    (requests, None)
}

fn returned(value: i32) -> Reply {
    Reply::Returned { value, errno: 0 }
}

fn os_error(code: i32) -> Reply {
    Reply::Failed { error: Error::Os { code } }
}

fn good_replies(number: i32) -> Vec<Reply> {
    vec![
        Reply::Exists { exists: true },
        Reply::Done,
        Reply::Done,
        returned(number),
        Reply::Done,
        returned(0),
        returned(0),
        Reply::Done,
    ]
}

fn expected_requests(backing: &str, loop_path: &str) -> Vec<Request> {
    vec![
        Request::PathExists { path: backing.to_string() },
        Request::Open { handle: Handle::Backing, path: backing.to_string(), write: false },
        Request::Open { handle: Handle::Control, path: "/dev/loop-control".to_string(), write: false },
        Request::Ioctl { handle: Handle::Control, code: 0x4C82, arg: IoctlArg::Nothing },
        Request::Open { handle: Handle::Loop, path: loop_path.to_string(), write: true },
        Request::Ioctl {
            handle: Handle::Loop,
            code: 0x4C00,
            arg: IoctlArg::Descriptor { handle: Handle::Backing },
        },
        Request::Ioctl {
            handle: Handle::Loop,
            code: 0x4C04,
            arg: IoctlArg::LoopStatus { file_name: file_name_field(backing) },
        },
        Request::Close { handle: Handle::Control },
    ]
}

#[test]
fn control_operation_codes() {
    assert_eq!(LOOP_SET_FD, 0x4C00);
    assert_eq!(LOOP_CLR_FD, 0x4C01);
    assert_eq!(LOOP_SET_STATUS64, 0x4C04);
    assert_eq!(LOOP_CTL_GET_FREE, 0x4C82);
    assert_eq!(LOOP_NAME_SIZE, 64);
}

#[test]
fn device_path_is_dev_loop_and_the_number() {
    assert_eq!(device_path(0), "/dev/loop0");
    assert_eq!(device_path(7), "/dev/loop7");
    assert_eq!(device_path(12), "/dev/loop12");
    assert_eq!(device_path(255), "/dev/loop255");
    assert_eq!(device_path(u32::MAX), "/dev/loop4294967295");
}

#[test]
fn file_name_field_holds_the_path_and_zeros() {
    let field = file_name_field("/systemp/system.squashfs");
    assert_eq!(field.len(), 64);
    assert_eq!(&field[..24], b"/systemp/system.squashfs");
    assert!(field[24..].iter().all(|b| *b == 0));
    assert_eq!(file_name_field(""), vec![0u8; 64]);
}

#[test]
fn file_name_field_keeps_at_most_63_bytes() {
    let exact = "a".repeat(63);
    let field = file_name_field(&exact);
    assert_eq!(&field[..63], exact.as_bytes());
    assert_eq!(field[63], 0);
    let long: String = (0..100).map(|i| char::from(b'a' + (i % 26) as u8)).collect();
    let field = file_name_field(&long);
    assert_eq!(field.len(), 64);
    assert_eq!(&field[..63], &long.as_bytes()[..63]);
    assert_eq!(field[63], 0);
    let short = "b".repeat(62);
    let field = file_name_field(&short);
    assert_eq!(&field[..62], short.as_bytes());
    assert_eq!(&field[62..], &[0, 0]);
}

#[test]
fn file_name_field_counts_bytes_not_characters() {
    let path = "é".repeat(40);
    let field = file_name_field(&path);
    assert_eq!(field.len(), 64);
    assert_eq!(&field[..63], &path.as_bytes()[..63]);
    assert_eq!(field[62], 0xC3);
    assert_eq!(field[63], 0);
}

#[test]
fn attach_first_asks_whether_the_backing_file_exists() {
    let (stage, request) = LoopDevice::attach("/systemp/system.squashfs");
    assert_eq!(stage, AttachStage::CheckingBackingFile);
    assert_eq!(request, Request::PathExists { path: "/systemp/system.squashfs".to_string() });
}

#[test]
fn attach_on_a_missing_backing_file_is_not_found_before_any_control_operation() {
    let (requests, outcome) = attach("/nowhere/image", vec![Reply::Exists { exists: false }]);
    assert_eq!(requests, vec![Request::PathExists { path: "/nowhere/image".to_string() }]);
    let e = outcome.unwrap().unwrap_err();
    assert_eq!(e, Error::BackingFileNotFound { path: "/nowhere/image".to_string() });
    assert_eq!(e.class(), ErrorClass::NotFound);
    assert_eq!(e.message(), "Backing file not found: /nowhere/image");
}

#[test]
fn attach_on_a_valid_backing_file_yields_a_loop_device() {
    let backing = "/systemp/system.squashfs";
    let (requests, outcome) = attach(backing, good_replies(0));
    assert_eq!(requests, expected_requests(backing, "/dev/loop0"));
    let device = outcome.unwrap().unwrap();
    assert_eq!(device.path(), "/dev/loop0");
    assert!(device.path().starts_with("/dev/loop"));
    assert!(device.path()["/dev/loop".len()..].chars().all(|c| c.is_ascii_digit()));
}

#[test]
fn attach_uses_the_number_that_loop_control_returned() {
    let (requests, outcome) = attach("/img", good_replies(37));
    assert_eq!(requests, expected_requests("/img", "/dev/loop37"));
    assert_eq!(outcome.unwrap().unwrap().path(), "/dev/loop37");
}

#[test]
fn detach_clears_the_descriptor_and_consumes_the_device() {
    let (_, outcome) = attach("/img", good_replies(3));
    let device = outcome.unwrap().unwrap();
    let request = device.detach();
    assert_eq!(
        request,
        Request::Ioctl { handle: Handle::Loop, code: 0x4C01, arg: IoctlArg::Nothing }
    );
    assert_eq!(returned(0).control_value(), Ok(0));
    assert_eq!(Reply::Returned { value: -1, errno: 6 }.control_value(), Err(Error::Os { code: 6 }));
}

#[test]
fn attach_ends_when_the_backing_file_cannot_be_opened() {
    let (requests, outcome) = attach("/img", vec![Reply::Exists { exists: true }, os_error(13)]);
    assert_eq!(requests.len(), 2);
    assert_eq!(outcome, Some(Err(Error::Os { code: 13 })));
}

#[test]
fn attach_ends_when_loop_control_cannot_be_opened() {
    let (requests, outcome) =
        attach("/img", vec![Reply::Exists { exists: true }, Reply::Done, os_error(2)]);
    assert_eq!(requests.len(), 3);
    assert_eq!(outcome, Some(Err(Error::Os { code: 2 })));
}

#[test]
fn negative_free_number_is_an_os_error() {
    let replies = vec![
        Reply::Exists { exists: true },
        Reply::Done,
        Reply::Done,
        Reply::Returned { value: -1, errno: 28 },
    ];
    let (requests, outcome) = attach("/img", replies);
    assert_eq!(requests.len(), 4);
    let e = outcome.unwrap().unwrap_err();
    assert_eq!(e, Error::Os { code: 28 });
    assert_eq!(e.class(), ErrorClass::Os);
}

#[test]
fn attach_ends_when_the_loop_device_cannot_be_opened() {
    let replies =
        vec![Reply::Exists { exists: true }, Reply::Done, Reply::Done, returned(5), os_error(16)];
    let (requests, outcome) = attach("/img", replies);
    assert_eq!(requests.len(), 5);
    assert_eq!(outcome, Some(Err(Error::Os { code: 16 })));
}

#[test]
fn failed_binding_is_fatal_and_not_tried_again() {
    let replies = vec![
        Reply::Exists { exists: true },
        Reply::Done,
        Reply::Done,
        returned(5),
        Reply::Done,
        Reply::Returned { value: -1, errno: 16 },
    ];
    let (requests, outcome) = attach("/img", replies);
    assert_eq!(requests, expected_requests("/img", "/dev/loop5")[..6].to_vec());
    assert_eq!(outcome, Some(Err(Error::Os { code: 16 })));
}

#[test]
fn failed_label_does_not_fail_the_attachment() {
    for label in [
        Reply::Returned { value: -1, errno: 22 },
        os_error(22),
        Reply::Done,
        Reply::Exists { exists: false },
    ] {
        let mut replies = good_replies(4);
        replies[6] = label;
        let (requests, outcome) = attach("/img", replies);
        assert_eq!(requests, expected_requests("/img", "/dev/loop4"));
        assert_eq!(outcome.unwrap().unwrap().path(), "/dev/loop4");
    }
}

#[test]
fn attach_awaits_each_reply() {
    for n in 0..8 {
        let replies: Vec<Reply> = good_replies(1).into_iter().take(n).collect();
        let (requests, outcome) = attach("/img", replies);
        assert_eq!(requests, expected_requests("/img", "/dev/loop1")[..n + 1].to_vec());
        assert_eq!(outcome, None);
    }
}

#[test]
fn a_reply_that_does_not_answer_is_refused() {
    let (_, outcome) = attach("/img", vec![Reply::Done]);
    assert_eq!(outcome, Some(Err(Error::UnexpectedReply)));
    let (_, outcome) = attach(
        "/img",
        vec![Reply::Exists { exists: true }, Reply::Text { contents: String::new() }],
    );
    assert_eq!(outcome, Some(Err(Error::UnexpectedReply)));
    let (_, outcome) =
        attach("/img", vec![Reply::Exists { exists: true }, Reply::Done, Reply::Done, Reply::Done]);
    assert_eq!(outcome, Some(Err(Error::UnexpectedReply)));
    assert_eq!(Error::UnexpectedReply.class(), ErrorClass::Protocol);
}

#[test]
fn a_finished_attachment_takes_no_further_reply() {
    let (stage, step) = LoopDevice::new("/img", AttachStage::Finished, Reply::Done);
    assert_eq!(stage, AttachStage::Finished);
    assert_eq!(step, Step::Done { result: Err(Error::UnexpectedReply) });
}
