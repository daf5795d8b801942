//! The root switch: moves the well-known mounts into the new root, makes
//! the new root the filesystem root of the process and enters it.
//! [`begin_switch_root`] starts the procedure and [`switch_root`]
//! carries it on from each reply.

use crate::error::{Error, ErrorView};
use crate::mount::{MountFlags, MS_MOVE};
use crate::sys::{Reply, ReplyView, Request, RequestView, Step, StepView, run, Run};
use crate::text::{join_path, path_join};
use vstd::prelude::*;

verus! {

/// A mount that the new root takes over from the old one. The switch
/// goes through them in the order in which they are written here.
#[derive(Clone, Copy, Debug, PartialEq, Eq, Structural)]
pub enum WellKnown {
    /// The device filesystem, at `/dev`.
    Dev,
    /// The process-information filesystem, at `/proc`.
    Proc,
    /// The system-information filesystem, at `/sys`.
    Sys,
    /// The runtime state, at `/run`.
    Run,
}

impl WellKnown {
    /// Where the mount is before the switch.
    pub open spec fn spec_mountpoint(self) -> Seq<char> {
        match self {
            WellKnown::Dev => "/dev"@,
            WellKnown::Proc => "/proc"@,
            WellKnown::Sys => "/sys"@,
            WellKnown::Run => "/run"@,
        }
    }

    /// The name of the directory under the new root that receives it.
    pub open spec fn spec_name(self) -> Seq<char> {
        match self {
            WellKnown::Dev => "dev"@,
            WellKnown::Proc => "proc"@,
            WellKnown::Sys => "sys"@,
            WellKnown::Run => "run"@,
        }
    }

    /// The mount that is handled after this one, if there is one.
    pub open spec fn spec_following(self) -> Option<WellKnown> {
        match self {
            WellKnown::Dev => Some(WellKnown::Proc),
            WellKnown::Proc => Some(WellKnown::Sys),
            WellKnown::Sys => Some(WellKnown::Run),
            WellKnown::Run => None,
        }
    }

    /// Where the mount is before the switch.
    pub fn mountpoint(self) -> (r: &'static str)
        ensures
            r@ == self.spec_mountpoint(),
    {
        match self {
            WellKnown::Dev => "/dev",
            WellKnown::Proc => "/proc",
            WellKnown::Sys => "/sys",
            WellKnown::Run => "/run",
        }
    }

    /// The name of the directory under the new root that receives it.
    pub fn name(self) -> (r: &'static str)
        ensures
            r@ == self.spec_name(),
    {
        match self {
            WellKnown::Dev => "dev",
            WellKnown::Proc => "proc",
            WellKnown::Sys => "sys",
            WellKnown::Run => "run",
        }
    }

    /// The mount that is handled after this one, if there is one.
    pub fn following(self) -> (r: Option<WellKnown>)
        ensures
            r == self.spec_following(),
    {
        match self {
            WellKnown::Dev => Some(WellKnown::Proc),
            WellKnown::Proc => Some(WellKnown::Sys),
            WellKnown::Sys => Some(WellKnown::Run),
            WellKnown::Run => None,
        }
    }
}

/// How far a root switch has come: the operation whose reply is awaited.
#[derive(Clone, Copy, Debug, PartialEq, Eq, Structural)]
pub enum SwitchStage {
    /// Asked whether the new root exists.
    CheckingNewRoot,
    /// Moving a well-known mount into the new root.
    Moving { mount: WellKnown },
    /// Detaching a well-known mount that could not be moved.
    Detaching { mount: WellKnown },
    /// Changing the working directory to the new root.
    EnteringNewRoot,
    /// Moving the new root over `/`.
    MovingRoot,
    /// Changing the filesystem root to the working directory.
    ChangingRoot,
    /// Changing the working directory to `/`.
    EnteringRoot,
    /// The switch has ended.
    Finished,
}

/// The request that moves `mount` to its directory under `new_root`.
pub open spec fn move_request(new_root: Seq<char>, mount: WellKnown) -> RequestView {
    RequestView::Mount {
        source: mount.spec_mountpoint(),
        target: path_join(new_root, mount.spec_name()),
        fstype: None,
        flags: MountFlags::of(MS_MOVE),
    }
}

/// The request that detaches `mount` where it is.
pub open spec fn detach_request(mount: WellKnown) -> RequestView {
    RequestView::Unmount { target: mount.spec_mountpoint() }
}

/// The request that moves `new_root` over `/`.
pub open spec fn move_root_request(new_root: Seq<char>) -> RequestView {
    RequestView::Mount {
        source: new_root,
        target: "/"@,
        fstype: None,
        flags: MountFlags::of(MS_MOVE),
    }
}

/// The first request of a switch to `new_root`.
pub open spec fn switch_first(new_root: Seq<char>) -> (SwitchStage, RequestView) {
    (SwitchStage::CheckingNewRoot, RequestView::PathExists { path: new_root })
}

/// The switch goes on with `request`, and awaits its reply in `stage`.
pub open spec fn switch_go(stage: SwitchStage, request: RequestView) -> (
    SwitchStage,
    StepView<()>,
) {
    (stage, StepView::Call { request })
}

/// The switch ends with `result`.
pub open spec fn switch_end(result: Result<(), ErrorView>) -> (SwitchStage, StepView<()>) {
    (SwitchStage::Finished, StepView::Done { result })
}

/// What the switch does once it is through with `mount`, moved or
/// detached: it turns to the following mount, or, after the last one,
/// enters the new root.
pub open spec fn switch_after(new_root: Seq<char>, mount: WellKnown) -> (
    SwitchStage,
    StepView<()>,
) {
    match mount.spec_following() {
        Some(following) => switch_go(
            SwitchStage::Moving { mount: following },
            move_request(new_root, following),
        ),
        None => switch_go(SwitchStage::EnteringNewRoot, RequestView::ChangeDir { path: new_root }),
    }
}

/// What a switch to `new_root` does when `reply` answers the operation
/// it awaited in `stage`.
///
/// A new root that does not exist ends the switch before anything is
/// mounted. Each well-known mount is moved under the new root; one that
/// cannot be moved is detached instead, and whatever comes of that, the
/// switch goes on. From there every failure ends the switch with its
/// error: entering the new root, moving it over `/`, changing the root
/// to `.`, and entering `/`.
pub open spec fn switch_next(new_root: Seq<char>, stage: SwitchStage, reply: ReplyView) -> (
    SwitchStage,
    StepView<()>,
) {
    match stage {
        SwitchStage::CheckingNewRoot => match reply.existence() {
            Ok(exists) => if exists {
                switch_go(
                    SwitchStage::Moving { mount: WellKnown::Dev },
                    move_request(new_root, WellKnown::Dev),
                )
            } else {
                switch_end(Err(ErrorView::NewRootNotFound { path: new_root }))
            },
            Err(e) => switch_end(Err(e)),
        },
        SwitchStage::Moving { mount } => match reply.completion() {
            Ok(_) => switch_after(new_root, mount),
            Err(_) => switch_go(SwitchStage::Detaching { mount }, detach_request(mount)),
        },
        SwitchStage::Detaching { mount } => switch_after(new_root, mount),
        SwitchStage::EnteringNewRoot => match reply.completion() {
            Ok(_) => switch_go(SwitchStage::MovingRoot, move_root_request(new_root)),
            Err(e) => switch_end(Err(e)),
        },
        SwitchStage::MovingRoot => match reply.completion() {
            Ok(_) => switch_go(SwitchStage::ChangingRoot, RequestView::ChangeRoot { path: "."@ }),
            Err(e) => switch_end(Err(e)),
        },
        SwitchStage::ChangingRoot => match reply.completion() {
            Ok(_) => switch_go(SwitchStage::EnteringRoot, RequestView::ChangeDir { path: "/"@ }),
            Err(e) => switch_end(Err(e)),
        },
        SwitchStage::EnteringRoot => match reply.completion() {
            Ok(_) => switch_end(Ok(())),
            Err(e) => switch_end(Err(e)),
        },
        SwitchStage::Finished => switch_end(Err(ErrorView::UnexpectedReply)),
    }
}

/// Builds the request that moves `mount` under `new_root`.
fn move_into(new_root: &str, mount: WellKnown) -> (r: Request)
    ensures
        r@ == move_request(new_root@, mount),
{
    Request::Mount {
        source: mount.mountpoint().to_string(),
        target: join_path(new_root, mount.name()),
        fstype: None,
        flags: MountFlags::MOVE(),
    }
}

/// Turns to what follows `mount`.
fn after(new_root: &str, mount: WellKnown) -> (r: (SwitchStage, Step<()>))
    ensures
        (r.0, r.1@) == switch_after(new_root@, mount),
{
    match mount.following() {
        Some(following) => (
            SwitchStage::Moving { mount: following },
            Step::Call { request: move_into(new_root, following) },
        ),
        None => (
            SwitchStage::EnteringNewRoot,
            Step::Call { request: Request::ChangeDir { path: new_root.to_string() } },
        ),
    }
}

/// Starts the switch to `new_root`: the first thing asked is whether the
/// new root exists, before any mount is touched.
pub fn begin_switch_root(new_root: &str) -> (r: (SwitchStage, Request))
    ensures
        (r.0, r.1@) == switch_first(new_root@),
{
    (SwitchStage::CheckingNewRoot, Request::PathExists { path: new_root.to_string() })
}

/// Carries the switch to `new_root` on from `stage` with the reply to
/// the request that was pending, and returns the stage it is in now
/// with the next request, or the result it ended with. After `Ok` the
/// filesystem root and the working directory of the process are the
/// former new root.
pub fn switch_root(new_root: &str, stage: SwitchStage, reply: Reply) -> (r: (
    SwitchStage,
    Step<()>,
))
    ensures
        (r.0, r.1@) == switch_next(new_root@, stage, reply@),
{
    match stage {
        SwitchStage::CheckingNewRoot => match reply.existence() {
            Ok(exists) => if exists {
                (
                    SwitchStage::Moving { mount: WellKnown::Dev },
                    Step::Call { request: move_into(new_root, WellKnown::Dev) },
                )
            } else {
                (
                    SwitchStage::Finished,
                    Step::Done {
                        result: Err(Error::NewRootNotFound { path: new_root.to_string() }),
                    },
                )
            },
            Err(e) => (SwitchStage::Finished, Step::Done { result: Err(e) }),
        },
        SwitchStage::Moving { mount } => match reply.completion() {
            Ok(_) => after(new_root, mount),
            Err(_) => (
                SwitchStage::Detaching { mount },
                Step::Call { request: Request::Unmount { target: mount.mountpoint().to_string() } },
            ),
        },
        SwitchStage::Detaching { mount } => after(new_root, mount),
        SwitchStage::EnteringNewRoot => match reply.completion() {
            Ok(_) => (
                SwitchStage::MovingRoot,
                Step::Call {
                    request: Request::Mount {
                        source: new_root.to_string(),
                        target: "/".to_string(),
                        fstype: None,
                        flags: MountFlags::MOVE(),
                    },
                },
            ),
            Err(e) => (SwitchStage::Finished, Step::Done { result: Err(e) }),
        },
        SwitchStage::MovingRoot => match reply.completion() {
            Ok(_) => (
                SwitchStage::ChangingRoot,
                Step::Call { request: Request::ChangeRoot { path: ".".to_string() } },
            ),
            Err(e) => (SwitchStage::Finished, Step::Done { result: Err(e) }),
        },
        SwitchStage::ChangingRoot => match reply.completion() {
            Ok(_) => (
                SwitchStage::EnteringRoot,
                Step::Call { request: Request::ChangeDir { path: "/".to_string() } },
            ),
            Err(e) => (SwitchStage::Finished, Step::Done { result: Err(e) }),
        },
        SwitchStage::EnteringRoot => match reply.completion() {
            Ok(_) => (SwitchStage::Finished, Step::Done { result: Ok(()) }),
            Err(e) => (SwitchStage::Finished, Step::Done { result: Err(e) }),
        },
        SwitchStage::Finished => (
            SwitchStage::Finished,
            Step::Done { result: Err(Error::UnexpectedReply) },
        ),
    }
}

} // verus!

verus! {

/// The course of a switch to `new_root` that is fed `replies`: what it
/// asks for, and how it ends if it does.
pub open spec fn switch_run(new_root: Seq<char>, replies: Seq<ReplyView>) -> Run<()> {
    run(
        switch_step(new_root),
        switch_first(new_root).0,
        StepView::Call { request: switch_first(new_root).1 },
        replies,
    )
}

/// The transition function of a switch to `new_root`.
pub open spec fn switch_step(new_root: Seq<char>) -> spec_fn(SwitchStage, ReplyView) -> (
    SwitchStage,
    StepView<()>,
) {
    |stage: SwitchStage, reply: ReplyView| switch_next(new_root, stage, reply)
}

/// The four operations that end a switch to `new_root`, each of them
/// fatal where it fails.
pub open spec fn switch_final_requests(new_root: Seq<char>) -> Seq<RequestView> {
    seq![
        RequestView::ChangeDir { path: new_root },
        move_root_request(new_root),
        RequestView::ChangeRoot { path: "."@ },
        RequestView::ChangeDir { path: "/"@ },
    ]
}

/// Without a new root nothing is mounted: where the first reply does not
/// say that the new root exists, the switch ends in an error having
/// asked only that question, and so without a single mount, move or
/// unmount. Where the reply says that the path does not exist, the
/// error is the not-found error that names the path.
pub proof fn lemma_switch_needs_new_root(new_root: Seq<char>, replies: Seq<ReplyView>)
    requires
        replies.len() > 0,
        replies[0].existence() != Ok::<bool, ErrorView>(true),
    ensures
        switch_run(new_root, replies).requests == seq![RequestView::PathExists { path: new_root }],
        forall|i: int|
            0 <= i < switch_run(new_root, replies).requests.len() ==> !(#[trigger] switch_run(
                new_root,
                replies,
            ).requests[i]).is_mount_operation(),
        switch_run(new_root, replies).outcome matches Some(Err(_)),
        replies[0] == (ReplyView::Exists { exists: false }) ==> switch_run(
            new_root,
            replies,
        ).outcome == Some(Err::<(), ErrorView>(ErrorView::NewRootNotFound { path: new_root })),
{
    reveal_with_fuel(run, 3);
    assert(switch_run(new_root, replies).requests =~= seq![
        RequestView::PathExists { path: new_root },
    ]);
}

/// Moving a well-known mount is best effort. Whatever the reply to the
/// move, the switch goes on: after a move that worked with what follows
/// the mount, after one that failed with detaching the mount where it
/// is. And whatever the reply to the detaching, the switch goes on with
/// what follows the mount, as if the move had worked.
pub proof fn lemma_move_is_best_effort(new_root: Seq<char>, mount: WellKnown, reply: ReplyView)
    ensures
        switch_next(new_root, SwitchStage::Moving { mount }, reply).1 is Call,
        reply.completion() is Ok ==> switch_next(new_root, SwitchStage::Moving { mount }, reply)
            == switch_after(new_root, mount),
        reply.completion() is Err ==> switch_next(new_root, SwitchStage::Moving { mount }, reply)
            == switch_go(SwitchStage::Detaching { mount }, detach_request(mount)),
        switch_next(new_root, SwitchStage::Detaching { mount }, reply) == switch_after(
            new_root,
            mount,
        ),
        switch_after(new_root, mount).1 is Call,
{
}

/// Where every well-known mount can be moved and nothing else fails, the
/// switch asks for nine operations: the existence check, the moves of
/// `/dev`, `/proc`, `/sys` and `/run` in that order, and the four final
/// operations; and it succeeds.
pub proof fn lemma_switch_all_moved(new_root: Seq<char>, replies: Seq<ReplyView>)
    requires
        replies.len() >= 9,
        replies[0].existence() == Ok::<bool, ErrorView>(true),
        forall|i: int| 1 <= i < 9 ==> (#[trigger] replies[i]).completion() is Ok,
    ensures
        switch_run(new_root, replies).outcome == Some(Ok::<(), ErrorView>(())),
        switch_run(new_root, replies).requests == seq![
            RequestView::PathExists { path: new_root },
            move_request(new_root, WellKnown::Dev),
            move_request(new_root, WellKnown::Proc),
            move_request(new_root, WellKnown::Sys),
            move_request(new_root, WellKnown::Run),
        ] + switch_final_requests(new_root),
{
    reveal_with_fuel(run, 11);
    assert(replies[1].completion() is Ok && replies[2].completion() is Ok
        && replies[3].completion() is Ok && replies[4].completion() is Ok
        && replies[5].completion() is Ok && replies[6].completion() is Ok
        && replies[7].completion() is Ok && replies[8].completion() is Ok);
    assert(switch_run(new_root, replies).requests =~= seq![
        RequestView::PathExists { path: new_root },
        move_request(new_root, WellKnown::Dev),
        move_request(new_root, WellKnown::Proc),
        move_request(new_root, WellKnown::Sys),
        move_request(new_root, WellKnown::Run),
    ] + switch_final_requests(new_root));
}

/// Where no well-known mount can be moved, each is detached in its turn,
/// and the switch still succeeds if the four final operations do,
/// whatever came of the detaching.
pub proof fn lemma_switch_none_moved(new_root: Seq<char>, replies: Seq<ReplyView>)
    requires
        replies.len() >= 13,
        replies[0].existence() == Ok::<bool, ErrorView>(true),
        replies[1].completion() is Err,
        replies[3].completion() is Err,
        replies[5].completion() is Err,
        replies[7].completion() is Err,
        forall|i: int| 9 <= i < 13 ==> (#[trigger] replies[i]).completion() is Ok,
    ensures
        switch_run(new_root, replies).outcome == Some(Ok::<(), ErrorView>(())),
        switch_run(new_root, replies).requests == seq![
            RequestView::PathExists { path: new_root },
            move_request(new_root, WellKnown::Dev),
            detach_request(WellKnown::Dev),
            move_request(new_root, WellKnown::Proc),
            detach_request(WellKnown::Proc),
            move_request(new_root, WellKnown::Sys),
            detach_request(WellKnown::Sys),
            move_request(new_root, WellKnown::Run),
            detach_request(WellKnown::Run),
        ] + switch_final_requests(new_root),
{
    reveal_with_fuel(run, 15);
    assert(replies[9].completion() is Ok && replies[10].completion() is Ok
        && replies[11].completion() is Ok && replies[12].completion() is Ok);
    assert(switch_run(new_root, replies).requests =~= seq![
        RequestView::PathExists { path: new_root },
        move_request(new_root, WellKnown::Dev),
        detach_request(WellKnown::Dev),
        move_request(new_root, WellKnown::Proc),
        detach_request(WellKnown::Proc),
        move_request(new_root, WellKnown::Sys),
        detach_request(WellKnown::Sys),
        move_request(new_root, WellKnown::Run),
        detach_request(WellKnown::Run),
    ] + switch_final_requests(new_root));
}

/// How many well-known mounts are handled after `mount`.
pub open spec fn mounts_after(mount: WellKnown) -> nat {
    match mount {
        WellKnown::Dev => 3,
        WellKnown::Proc => 2,
        WellKnown::Sys => 1,
        WellKnown::Run => 0,
    }
}

/// Whether a part of a switch asked for at most `most` operations and,
/// where the switch succeeded, for `least` or more, the last four of
/// them the final operations.
pub open spec fn ends_with_final_requests(
    new_root: Seq<char>,
    part: Run<()>,
    least: nat,
    most: nat,
) -> bool {
    &&& least >= 4
    &&& part.requests.len() <= most
    &&& part.outcome == Some(Ok::<(), ErrorView>(())) ==> {
        &&& part.requests.len() >= least
        &&& part.requests.subrange(part.requests.len() - 4, part.requests.len() as int)
            == switch_final_requests(new_root)
    }
}

/// The final operations succeed only together.
proof fn lemma_final_phase(new_root: Seq<char>, replies: Seq<ReplyView>)
    ensures
        ends_with_final_requests(
            new_root,
            run(
                switch_step(new_root),
                SwitchStage::EnteringNewRoot,
                StepView::Call { request: RequestView::ChangeDir { path: new_root } },
                replies,
            ),
            4,
            4,
        ),
{
    reveal_with_fuel(run, 6);
    let part = run(
        switch_step(new_root),
        SwitchStage::EnteringNewRoot,
        StepView::Call { request: RequestView::ChangeDir { path: new_root } },
        replies,
    );
    if part.outcome == Some(Ok::<(), ErrorView>(())) {
        assert(part.requests =~= switch_final_requests(new_root));
        assert(part.requests.subrange(0, 4) =~= part.requests);
    }
}

/// What follows a well-known mount ends with the final operations.
proof fn lemma_after_mount(new_root: Seq<char>, mount: WellKnown, replies: Seq<ReplyView>)
    ensures
        ends_with_final_requests(
            new_root,
            run(
                switch_step(new_root),
                switch_after(new_root, mount).0,
                switch_after(new_root, mount).1,
                replies,
            ),
            4 + mounts_after(mount),
            4 + 2 * mounts_after(mount),
        ),
    decreases mounts_after(mount), 0nat,
{
    match mount.spec_following() {
        None => lemma_final_phase(new_root, replies),
        Some(following) => lemma_moving_mount(new_root, following, replies),
    }
}

/// Handling a well-known mount, and what follows it, ends with the
/// final operations.
proof fn lemma_moving_mount(new_root: Seq<char>, mount: WellKnown, replies: Seq<ReplyView>)
    ensures
        ends_with_final_requests(
            new_root,
            run(
                switch_step(new_root),
                SwitchStage::Moving { mount },
                StepView::Call { request: move_request(new_root, mount) },
                replies,
            ),
            5 + mounts_after(mount),
            6 + 2 * mounts_after(mount),
        ),
    decreases mounts_after(mount), 1nat,
{
    reveal_with_fuel(run, 3);
    let step = switch_step(new_root);
    let part = run(
        step,
        SwitchStage::Moving { mount },
        StepView::Call { request: move_request(new_root, mount) },
        replies,
    );
    let fin = switch_final_requests(new_root);
    if replies.len() > 0 {
        let rest = replies.drop_first();
        if replies[0].completion() is Ok {
            lemma_after_mount(new_root, mount, rest);
            let tail = run(
                step,
                switch_after(new_root, mount).0,
                switch_after(new_root, mount).1,
                rest,
            );
            assert(part.requests =~= seq![move_request(new_root, mount)] + tail.requests);
            if part.outcome == Some(Ok::<(), ErrorView>(())) {
                assert(part.requests.subrange(part.requests.len() - 4, part.requests.len() as int)
                    =~= tail.requests.subrange(
                    tail.requests.len() - 4,
                    tail.requests.len() as int,
                ));
            }
        } else if rest.len() > 0 {
            let rest2 = rest.drop_first();
            lemma_after_mount(new_root, mount, rest2);
            let tail = run(
                step,
                switch_after(new_root, mount).0,
                switch_after(new_root, mount).1,
                rest2,
            );
            assert(part.requests =~= seq![move_request(new_root, mount), detach_request(mount)]
                + tail.requests);
            if part.outcome == Some(Ok::<(), ErrorView>(())) {
                assert(part.requests.subrange(part.requests.len() - 4, part.requests.len() as int)
                    =~= tail.requests.subrange(
                    tail.requests.len() - 4,
                    tail.requests.len() as int,
                ));
            }
        }
    }
}

/// However the switch goes, it asks for at most thirteen operations,
/// and where it succeeds, the first reply said that the new root exists
/// and the last four operations were the final ones, in their order: no
/// switch succeeds with one of them failed or left out.
pub proof fn lemma_switch_success_ends_with_final_requests(
    new_root: Seq<char>,
    replies: Seq<ReplyView>,
)
    ensures
        switch_run(new_root, replies).requests.len() <= 13,
        switch_run(new_root, replies).outcome == Some(Ok::<(), ErrorView>(())) ==> {
            let requests = switch_run(new_root, replies).requests;
            &&& requests.len() >= 9
            &&& requests.subrange(requests.len() - 4, requests.len() as int)
                == switch_final_requests(new_root)
            &&& requests[0] == (RequestView::PathExists { path: new_root })
            &&& replies[0] == (ReplyView::Exists { exists: true })
        },
{
    reveal_with_fuel(run, 3);
    let whole = switch_run(new_root, replies);
    if replies.len() > 0 && replies[0].existence() == Ok::<bool, ErrorView>(true) {
        let rest = replies.drop_first();
        lemma_moving_mount(new_root, WellKnown::Dev, rest);
        let tail = run(
            switch_step(new_root),
            SwitchStage::Moving { mount: WellKnown::Dev },
            StepView::Call { request: move_request(new_root, WellKnown::Dev) },
            rest,
        );
        assert(whole.requests =~= seq![RequestView::PathExists { path: new_root }]
            + tail.requests);
        if whole.outcome == Some(Ok::<(), ErrorView>(())) {
            assert(whole.requests.subrange(whole.requests.len() - 4, whole.requests.len() as int)
                =~= tail.requests.subrange(tail.requests.len() - 4, tail.requests.len() as int));
        }
    }
}

} // verus!
