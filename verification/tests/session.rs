use dbgscope::dbgeng::codes::{DEBUG_END_ACTIVE_DETACH, DEBUG_END_PASSIVE, E_FAIL, S_OK};
use dbgscope::dbgeng::error::{DbgEngError, EngineFault};
use dbgscope::dbgeng::identity::{Identities, MAX_REMEMBERED_CLIENTS};
use dbgscope::dbgeng::kernel_attach::{
    check_connection, confirmed, is_forwarded, waited, watched_mask, Notice,
};
use dbgscope::dbgeng::opening::{OpenKind, OpenStep, Opening};
use dbgscope::dbgeng::processor::ProcessorSearch;
use dbgscope::dbgeng::session::{
    held_processes, process_count, session_processes, Attached, DetachReply, Ending, Teardown,
    TeardownCall,
};
use dbgscope::dbgeng::wait::WaitOutcome;
use dbgscope::dbgeng::watchdog::{Watchdog, Woken, WATCHDOG_REPEAT};

fn fault(text: &str) -> EngineFault {
    EngineFault {
        code: E_FAIL,
        text: text.to_string(),
    }
}

fn attached(pids: &[u32]) -> Attached {
    let mut attached = Attached::new();
    for pid in pids {
        attached.claim(*pid);
    }
    attached
}

/// A session that is torn down.
struct Session {
    live: bool,
    held: Result<Vec<(u32, u32)>, DbgEngError>,
    stuck: Vec<u32>,
    unreachable: bool,
    end: Result<(), EngineFault>,
    calls: Vec<TeardownCall>,
}

impl Session {
    fn new(held: &[(u32, u32)]) -> Session {
        Session {
            live: false,
            held: Ok(held.to_vec()),
            stuck: Vec::new(),
            unreachable: false,
            end: Ok(()),
            calls: Vec::new(),
        }
    }

    fn tear_down(&mut self, ending: Ending, attached: Attached) -> Result<(), DbgEngError> {
        let mut teardown = Teardown::new(ending, attached);
        loop {
            let call = teardown.next();
            self.calls.push(call);
            match call {
                TeardownCall::Reissue => teardown.reissued(),
                TeardownCall::AskLiveKernel => teardown.live_kernel(self.live),
                TeardownCall::ClearBreakpoints => teardown.cleared(),
                TeardownCall::Resume => teardown.resumed(),
                TeardownCall::ListProcesses => {
                    let held = std::mem::replace(&mut self.held, Ok(Vec::new()));
                    teardown.listed(held)
                }
                TeardownCall::Detach { id } => teardown.detached(if self.unreachable {
                    DetachReply::Unreachable(DbgEngError::NoDebuggee)
                } else if self.stuck.contains(&id) {
                    DetachReply::Failed(fault("stuck"))
                } else {
                    DetachReply::Detached
                }),
                TeardownCall::EndSession { .. } => teardown.ended(self.end.clone()),
                TeardownCall::Release => teardown.released(),
                TeardownCall::Leak => teardown.leaked(),
                TeardownCall::Finish => return teardown.finish(),
            }
        }
    }
}

#[test]
fn a_mixed_session_lets_go_of_the_attached_and_takes_the_rest() {
    let mut session = Session::new(&[(0, 100), (1, 200), (2, 300)]);
    session
        .tear_down(Ending::Asked, attached(&[100, 300, 999]))
        .unwrap();
    assert_eq!(
        session.calls,
        [
            TeardownCall::Reissue,
            TeardownCall::AskLiveKernel,
            TeardownCall::ClearBreakpoints,
            TeardownCall::ListProcesses,
            TeardownCall::Detach { id: 0 },
            TeardownCall::Detach { id: 2 },
            TeardownCall::EndSession {
                how: DEBUG_END_PASSIVE
            },
            TeardownCall::Release,
            TeardownCall::Finish,
        ]
    );
}

#[test]
fn a_session_without_attached_processes_just_ends() {
    let mut session = Session::new(&[(0, 100)]);
    session.tear_down(Ending::Asked, attached(&[])).unwrap();
    assert_eq!(
        session.calls[2],
        TeardownCall::EndSession {
            how: DEBUG_END_PASSIVE
        }
    );
}

#[test]
fn a_live_kernel_is_resumed_and_actively_detached() {
    for ending in [Ending::Asked, Ending::Dropped { owns_session: true }] {
        let mut session = Session::new(&[]);
        session.live = true;
        session.tear_down(ending, attached(&[100])).unwrap();
        let end = session
            .calls
            .iter()
            .position(|call| {
                *call
                    == TeardownCall::EndSession {
                        how: DEBUG_END_ACTIVE_DETACH,
                    }
            })
            .unwrap();
        assert_eq!(session.calls[end - 1], TeardownCall::Resume);
        assert_eq!(session.calls[end - 2], TeardownCall::ClearBreakpoints);
    }
}

#[test]
fn a_detach_that_fails_is_told_and_ends_nothing_early() {
    let mut session = Session::new(&[(0, 100), (1, 200)]);
    session.stuck = vec![0];
    assert!(matches!(
        session.tear_down(Ending::Asked, attached(&[100, 200])),
        Err(DbgEngError::OperationFailed(why)) if why.text == "stuck"
    ));
    assert!(session.calls.contains(&TeardownCall::Detach { id: 1 }));
    assert!(
        session.calls.contains(&TeardownCall::Release),
        "the session is gone, whatever became of a process"
    );

    let mut session = Session::new(&[(0, 100), (1, 200)]);
    session.unreachable = true;
    assert!(matches!(
        session.tear_down(Ending::Asked, attached(&[100, 200])),
        Err(DbgEngError::NoDebuggee)
    ));
    assert!(!session.calls.contains(&TeardownCall::Detach { id: 1 }));

    let mut session = Session::new(&[]);
    session.held = Err(DbgEngError::NoDebuggee);
    assert!(matches!(
        session.tear_down(Ending::Asked, attached(&[100])),
        Err(DbgEngError::NoDebuggee)
    ));
    assert!(session.calls.contains(&TeardownCall::Release));
}

#[test]
fn what_a_session_may_still_read_is_kept_where_it_does_not_end() {
    let mut session = Session::new(&[]);
    session.end = Err(fault("still there"));
    assert!(matches!(
        session.tear_down(Ending::Asked, attached(&[])),
        Err(DbgEngError::OperationFailed(_))
    ));
    assert!(!session.calls.contains(&TeardownCall::Release));
}

#[test]
fn a_borrowed_session_is_not_ended() {
    let mut session = Session::new(&[(0, 100)]);
    session
        .tear_down(
            Ending::Dropped {
                owns_session: false,
            },
            attached(&[100]),
        )
        .unwrap();
    assert_eq!(session.calls, [TeardownCall::Leak, TeardownCall::Finish]);
}

#[test]
fn a_process_that_left_is_no_longer_attached() {
    let mut record = attached(&[100, 200]);
    record.prune(None);
    assert!(record.has(100) && record.has(200));
    record.prune(Some(&vec![(0, 200), (1, 300)]));
    assert!(!record.has(100) && record.has(200) && !record.has(300));
    assert!(record.to_a_live_process(Some(&vec![(4, 200)])));
    assert!(!record.to_a_live_process(Some(&vec![(4, 100)])));
    assert!(!record.to_a_live_process(None));
    record.forget();
    assert!(!record.has(200));
}

#[test]
fn processes_are_listed_in_pairs() {
    assert_eq!(
        session_processes(Ok((vec![0, 1], vec![100, 200, 300]))).unwrap(),
        [(0, 100), (1, 200)]
    );
    assert_eq!(
        session_processes(Err(fault("no"))).unwrap_err().to_text(),
        "listing the processes in this session failed: no"
    );
    assert_eq!(
        process_count(Err(fault("no"))).unwrap_err().to_text(),
        "counting the processes in this session failed: no"
    );
}

fn steps(kind: OpenKind) -> Vec<OpenStep> {
    let mut opening = Opening::new(kind);
    let mut steps = Vec::new();
    while let Some(step) = opening.next() {
        steps.push(step);
        opening = opening.take(Ok(())).unwrap();
    }
    steps
}

#[test]
fn an_opening_takes_its_steps_in_order() {
    assert_eq!(
        steps(OpenKind::Launch),
        [
            OpenStep::Prune,
            OpenStep::EnableInitialBreak,
            OpenStep::Snapshot,
            OpenStep::CreateProcess,
            OpenStep::Retain,
            OpenStep::Register,
        ]
    );
    assert_eq!(
        steps(OpenKind::Attach { pid: 7 }),
        [
            OpenStep::EnableInitialBreak,
            OpenStep::AttachProcess { pid: 7 },
            OpenStep::Prune,
            OpenStep::Claim { pid: 7 },
            OpenStep::Register,
        ]
    );
    assert_eq!(steps(OpenKind::LocalKernel).len(), 3);
    assert_eq!(steps(OpenKind::Kernel).len(), 4);
    assert_eq!(steps(OpenKind::AnnouncedKernel).len(), 5);
    assert_eq!(
        steps(OpenKind::Dump),
        [OpenStep::OpenDump, OpenStep::Forget]
    );
}

#[test]
fn an_opening_that_fails_says_which_step_did() {
    let failed = |kind: OpenKind, at: OpenStep| {
        let mut opening = Opening::new(kind);
        loop {
            let step = opening.next().unwrap();
            let reply = if step == at { Err(fault("no")) } else { Ok(()) };
            match opening.take(reply) {
                Ok(next) => opening = next,
                Err(error) => return error,
            }
        }
    };
    assert!(matches!(
        failed(OpenKind::Launch, OpenStep::EnableInitialBreak),
        DbgEngError::CommandFailed(_)
    ));
    assert!(matches!(
        failed(OpenKind::Launch, OpenStep::CreateProcess),
        DbgEngError::OperationFailed(_)
    ));
    assert!(matches!(
        failed(OpenKind::LocalKernel, OpenStep::AttachKernel),
        DbgEngError::AttachFailed(_)
    ));
    assert!(matches!(
        failed(OpenKind::Kernel, OpenStep::RequestInitialBreak),
        DbgEngError::OperationFailed(_)
    ));
    assert!(matches!(
        failed(OpenKind::AnnouncedKernel, OpenStep::WatchOutput),
        DbgEngError::CommandFailed(_)
    ));
    assert!(matches!(
        failed(OpenKind::Dump, OpenStep::OpenDump),
        DbgEngError::OperationFailed(_)
    ));
}

fn search(current: u32, threads: &[Result<u32, &str>]) -> (Result<Option<u32>, DbgEngError>, Vec<u32>) {
    let mut search = ProcessorSearch::new(current, threads.len() as u32);
    let mut asked = Vec::new();
    while let Some(number) = search.next() {
        asked.push(number);
        search = search.take(threads[number as usize].map_err(fault));
    }
    (search.finish(), asked)
}

#[test]
fn the_likely_processor_is_asked_first_and_once() {
    let (found, asked) = search(2, &[Ok(0), Ok(1), Ok(2), Ok(3)]);
    assert_eq!(found.unwrap(), Some(2));
    assert_eq!(asked, [2]);

    let (found, asked) = search(2, &[Ok(0), Ok(1), Ok(9), Ok(3)]);
    assert_eq!(found.unwrap(), None);
    assert_eq!(asked, [2, 0, 1, 3]);

    let (found, asked) = search(7, &[Ok(0), Ok(7)]);
    assert_eq!(found.unwrap(), Some(1));
    assert_eq!(asked, [0, 1]);
}

#[test]
fn a_failed_lookup_is_no_processor_that_does_not_match() {
    let (found, _) = search(1, &[Err("first"), Ok(9), Err("second")]);
    assert_eq!(
        found.unwrap_err().to_text(),
        "reading which processor the debugger is on failed: first"
    );
    let (found, _) = search(2, &[Err("lowest"), Ok(9), Err("first asked")]);
    assert_eq!(
        found.unwrap_err().to_text(),
        "reading which processor the debugger is on failed: first asked"
    );
    let (found, _) = search(0, &[Err("no"), Ok(0)]);
    assert_eq!(found.unwrap(), Some(1), "a match wins whatever else failed");
}

#[test]
fn a_watchdog_fires_at_its_deadline_and_again() {
    let mut watchdog = Watchdog::arm(10);
    assert_eq!(watchdog.nap(4_000_000), 6_000_000);
    assert_eq!(watchdog.nap(11_000_000), 0);
    assert_eq!(watchdog.woken(false, 9_999_999), Woken::Sleep);
    assert!(!watchdog.fired);
    assert_eq!(watchdog.woken(false, 10_000_000), Woken::Raise);
    assert!(watchdog.fired);
    assert_eq!(watchdog.nap(10_000_001), WATCHDOG_REPEAT);
    assert_eq!(watchdog.woken(false, 210_000_001), Woken::Raise);
    assert_eq!(watchdog.woken(true, 410_000_001), Woken::Stop);

    let mut disarmed = Watchdog::arm(30_000);
    assert_eq!(disarmed.woken(true, 0), Woken::Stop);
    assert!(!disarmed.fired);
    assert_eq!(Watchdog::arm(0).woken(false, 0), Woken::Raise);
}

#[test]
fn an_identity_never_comes_back() {
    let mut identities = Identities::new();
    let first = identities.identity_for(1);
    let reissued = identities.reissue_for(1);
    let later = identities.identity_for(1);
    assert_eq!((first, reissued, later), (1, 2, 2));
    assert_eq!(identities.identity_for(2), 3);
}

#[test]
fn clients_created_in_a_loop_are_bounded() {
    let mut identities = Identities::new();
    for client in 0..MAX_REMEMBERED_CLIENTS as u64 {
        identities.reissue_for(client);
    }
    assert_eq!(identities.known.len(), MAX_REMEMBERED_CLIENTS);

    assert_eq!(identities.reissue_for(3), 65);
    assert_eq!(identities.known.len(), MAX_REMEMBERED_CLIENTS);
    assert_eq!(identities.identity_for(4), 5);

    assert_eq!(identities.reissue_for(1000), 66);
    assert_eq!(identities.known.len(), 1);
    assert_eq!(identities.identity_for(1000), 66);
    assert_eq!(identities.identity_for(4), 67);
}

#[test]
fn an_announced_attach_is_made_over_the_network() {
    assert!(check_connection("net:port=50000,key=a.b.c.d").is_ok());
    assert!(check_connection("NeT:").is_ok());
    for connection in ["", "net", "com:port=1", "xnet:"] {
        assert!(matches!(
            check_connection(connection),
            Err(DbgEngError::ExperimentalKernelAttach(
                "KDNET connection required"
            ))
        ));
    }
    assert!(matches!(
        check_connection("net:\0"),
        Err(DbgEngError::InvalidCommand)
    ));
}

#[test]
fn an_announced_attach_fails_on_the_first_thing_that_does_not_hold() {
    let stopped = || Ok(WaitOutcome::Stopped { process: None });
    assert!(waited(Ok(()), Some(S_OK), stopped()).is_ok());
    assert!(matches!(
        waited(Err(fault("no")), None, stopped()),
        Err(DbgEngError::CommandFailed(_))
    ));
    let why = |result: Result<(), DbgEngError>| match result {
        Err(DbgEngError::ExperimentalKernelAttach(why)) => why,
        other => panic!("{other:?}"),
    };
    assert_eq!(
        why(waited(Ok(()), None, Ok(WaitOutcome::Deadline))),
        "connection announcement was not observed"
    );
    assert_eq!(
        why(waited(Ok(()), Some(E_FAIL), stopped())),
        "one-shot interrupt request failed"
    );
    assert_eq!(
        why(waited(Ok(()), Some(S_OK), Ok(WaitOutcome::OnRequest))),
        "attach wait was interrupted or expired"
    );
    assert!(matches!(
        waited(Ok(()), Some(S_OK), Err(DbgEngError::NoDebuggee)),
        Err(DbgEngError::NoDebuggee)
    ));
    assert!(confirmed(Ok(6)).is_ok());
    assert_eq!(why(confirmed(Ok(1))), "target stop was not confirmed");
    assert!(matches!(
        confirmed(Err(fault("no"))),
        Err(DbgEngError::CommandFailed(_))
    ));
}

#[test]
fn output_goes_on_to_whoever_had_asked_for_it() {
    assert_eq!(watched_mask(4), 5);
    assert!(is_forwarded(4, 4));
    assert!(!is_forwarded(1, 4));
}

#[test]
fn a_notice_does_not_depend_on_how_the_text_is_cut() {
    let text = b"x\nConnected to targe\nConnected to target 1";
    for split in 0..=text.len() {
        let mut whole = Notice::default();
        let mut parts = Notice::default();
        let fired = whole.feed(1, text);
        let first = parts.feed(1, &text[..split]);
        let second = parts.feed(1, &text[split..]);
        assert!(fired);
        assert!(first != second);
    }
    let mut before = Notice::default();
    assert!(!before.feed(1, b"not Connected to target "));
}

#[test]
fn a_session_without_a_target_holds_no_process() {
    let fails = || {
        Err(DbgEngError::OperationFailed(EngineFault {
            code: -1,
            text: "no".to_string(),
        }))
    };
    assert!(held_processes(Ok(false), fails()).unwrap().is_empty());
    assert_eq!(held_processes(Ok(true), Ok(vec![(0, 8)])).unwrap(), [(0, 8)]);
    assert!(held_processes(Ok(true), fails()).is_err());
    assert!(matches!(
        held_processes(Err(DbgEngError::NoDebuggee), Ok(vec![(0, 8)])),
        Err(DbgEngError::NoDebuggee)
    ));
}
