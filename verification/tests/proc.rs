use init_stage_1::error::Error;
use init_stage_1::mount::MountFlags;
use init_stage_1::proc::{Proc, ProcStage};
use init_stage_1::sys::{Reply, Request, Step};

fn opened() -> Proc {
    let (stage, _) = Proc::open();
    let (stage, _) = Proc::new(stage, Reply::Done);
    match Proc::new(stage, Reply::Returned { value: 0, errno: 0 }) {
        (ProcStage::Finished, Step::Done { result: Ok(proc) }) => proc,
        other => panic!("unexpected: {:?}", other),
    }
}

#[test]
fn open_creates_the_mountpoint_and_mounts_proc() {
    let (stage, request) = Proc::open();
    assert_eq!(stage, ProcStage::CreatingMountpoint);
    assert_eq!(request, Request::CreateDirAll { path: "/proc".to_string() });
    let (stage, step) = Proc::new(stage, Reply::Done);
    assert_eq!(stage, ProcStage::Mounting);
    assert_eq!(
        step,
        Step::Call {
            request: Request::Mount {
                source: "proc".to_string(),
                target: "/proc".to_string(),
                fstype: Some("proc".to_string()),
                flags: MountFlags::empty(),
            }
        }
    );
    let (stage, step) = Proc::new(stage, Reply::Returned { value: 0, errno: 0 });
    assert_eq!(stage, ProcStage::Finished);
    assert!(matches!(step, Step::Done { result: Ok(_) }));
}

#[test]
fn open_fails_when_the_mountpoint_cannot_be_created() {
    let (stage, _) = Proc::open();
    let (stage, step) = Proc::new(stage, Reply::Failed { error: Error::Os { code: 30 } });
    assert_eq!(stage, ProcStage::Finished);
    assert_eq!(step, Step::Done { result: Err(Error::Os { code: 30 }) });
}

#[test]
fn open_fails_when_the_mount_fails() {
    let (stage, _) = Proc::open();
    let (stage, _) = Proc::new(stage, Reply::Done);
    let (stage, step) = Proc::new(stage, Reply::Returned { value: -1, errno: 16 });
    assert_eq!(stage, ProcStage::Finished);
    assert_eq!(step, Step::Done { result: Err(Error::Os { code: 16 }) });
}

#[test]
fn a_finished_opening_takes_no_further_reply() {
    let (stage, step) = Proc::new(ProcStage::Finished, Reply::Done);
    assert_eq!(stage, ProcStage::Finished);
    assert_eq!(step, Step::Done { result: Err(Error::UnexpectedReply) });
}

#[test]
fn read_file_reads_under_proc() {
    let proc = opened();
    assert_eq!(proc.read_file("cmdline"), Request::ReadFile { path: "/proc/cmdline".to_string() });
    assert_eq!(
        proc.read_file("self/mounts"),
        Request::ReadFile { path: "/proc/self/mounts".to_string() }
    );
    assert_eq!(proc.read_file(""), Request::ReadFile { path: "/proc/".to_string() });
}

#[test]
fn read_cmdline_trims_the_text() {
    let proc = opened();
    let reply = Reply::Text { contents: " system_partition=A user_partition=B \n".to_string() };
    assert_eq!(proc.read_cmdline(reply), Ok("system_partition=A user_partition=B".to_string()));
    assert_eq!(proc.read_cmdline(Reply::Text { contents: "\n".to_string() }), Ok(String::new()));
    assert_eq!(proc.read_cmdline(Reply::Text { contents: "a  b".to_string() }), Ok("a  b".to_string()));
}

#[test]
fn read_cmdline_hands_the_error_on() {
    let proc = opened();
    let reply = Reply::Failed { error: Error::Os { code: 2 } };
    assert_eq!(proc.read_cmdline(reply), Err(Error::Os { code: 2 }));
    assert_eq!(proc.read_cmdline(Reply::Done), Err(Error::UnexpectedReply));
}
