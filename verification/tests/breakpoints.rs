use dbgscope::dbgeng::breakpoint::{
    breakpoint_info, looked_up, rearmed, removed, BreakpointAt, BreakpointInfo, BreakpointKind,
    BreakpointSet, BreakpointSpec, DataAccess, DataWatch, OnExisting, RawBreakpoint,
};
use dbgscope::dbgeng::breaks::Interruption;
use dbgscope::dbgeng::codes::{
    DEBUG_ANY_ID, DEBUG_BREAKPOINT_DATA, DEBUG_BREAKPOINT_DEFERRED, DEBUG_BREAKPOINT_ENABLED,
    DEBUG_INVALID_OFFSET, E_FAIL,
};
use dbgscope::dbgeng::error::{DbgEngError, EngineFault};
use dbgscope::dbgeng::setting::{breakpoints_at, BreakpointWalk, Setting, SettingCall};

fn fault(text: &str) -> EngineFault {
    EngineFault {
        code: E_FAIL,
        text: text.to_string(),
    }
}

fn raw(id: u32, offset: u64) -> RawBreakpoint {
    RawBreakpoint {
        id: Ok(id),
        kind: Some(0),
        flags: Some(DEBUG_BREAKPOINT_ENABLED),
        offset: Some(offset),
        expression: None,
        command: None,
        thread: Some(DEBUG_ANY_ID),
        data: None,
        pass_count: Some(1),
        passes_remaining: Some(1),
    }
}

fn held(id: u32, address: u64) -> BreakpointInfo {
    breakpoint_info(raw(id, address), "held").unwrap()
}

/// An engine that a setting is carried out against.
struct Engine {
    resolves_to: Option<u64>,
    resolve: Result<(), EngineFault>,
    fires: bool,
    asked: bool,
    fails_at: Option<SettingCall>,
    unreadable: bool,
    held: Option<Vec<BreakpointInfo>>,
    keeps: Vec<u32>,
    calls: Vec<SettingCall>,
}

impl Engine {
    fn new() -> Engine {
        Engine {
            resolves_to: Some(0x1000),
            resolve: Ok(()),
            fires: false,
            asked: false,
            fails_at: None,
            unreadable: false,
            held: Some(Vec::new()),
            keeps: Vec::new(),
            calls: Vec::new(),
        }
    }

    fn step(&self, call: SettingCall) -> Result<(), EngineFault> {
        if self.fails_at == Some(call) {
            Err(fault("refused"))
        } else {
            Ok(())
        }
    }

    fn set(&mut self, spec: BreakpointSpec, timeout_ms: u32) -> Result<BreakpointSet, DbgEngError> {
        let mut setting = Setting::new(spec, timeout_ms);
        loop {
            let call = setting.next();
            self.calls.push(call);
            match call {
                SettingCall::Create { .. } => setting.created(self.step(call)),
                SettingCall::Locate { .. } => setting.located(self.step(call), false),
                SettingCall::Resolve { watchdog_ms } => {
                    setting.located(self.resolve.clone(), self.fires && watchdog_ms.is_some())
                }
                SettingCall::Begin => setting.begun(),
                SettingCall::End => setting.ended(),
                SettingCall::TakeRequest => setting.requested(self.asked),
                SettingCall::Drain => setting.drained(),
                SettingCall::ReadOffset => setting.offset_read(self.resolves_to),
                SettingCall::SetCommand
                | SettingCall::SetPassCount { .. }
                | SettingCall::SetThread { .. }
                | SettingCall::SetData { .. }
                | SettingCall::AddFlags { .. } => setting.applied(self.step(call)),
                SettingCall::ReadBack => {
                    let mut read = raw(9, self.resolves_to.unwrap_or(DEBUG_INVALID_OFFSET));
                    if self.unreadable {
                        read.id = Err(fault("gone"));
                    }
                    setting.read_back(read)
                }
                SettingCall::List => setting.listed(self.held.take()),
                SettingCall::RemoveOther { id } => setting.other_removed(!self.keeps.contains(&id)),
                SettingCall::Discard => setting.discarded(),
                SettingCall::Finish => return setting.finish(),
            }
        }
    }

    fn discards(&self) -> bool {
        self.calls.contains(&SettingCall::Discard)
    }

    fn removes(&self) -> bool {
        self.calls
            .iter()
            .any(|call| matches!(call, SettingCall::RemoveOther { .. }))
    }
}

fn watch(size: u32) -> DataWatch {
    DataWatch {
        access: DataAccess::Write,
        size,
    }
}

#[test]
fn a_breakpoint_is_armed_last_and_read_back() {
    let spec = BreakpointSpec::code(BreakpointAt::Address(0x1000))
        .with_command("k; g")
        .with_pass_count(3)
        .on_thread(7);
    let mut engine = Engine::new();
    let set = engine.set(spec, 0).unwrap();
    assert_eq!(set.breakpoint, held(9, 0x1000));
    assert!(set.replaced.is_empty());
    assert_eq!(set.cut_short, None);
    assert_eq!(
        engine.calls,
        [
            SettingCall::Create { kind: 0 },
            SettingCall::Locate { address: 0x1000 },
            SettingCall::ReadOffset,
            SettingCall::SetCommand,
            SettingCall::SetPassCount { passes: 3 },
            SettingCall::SetThread { thread: 7 },
            SettingCall::AddFlags {
                flags: DEBUG_BREAKPOINT_ENABLED
            },
            SettingCall::ReadBack,
            SettingCall::Finish,
        ]
    );
}

#[test]
fn a_disabled_breakpoint_is_given_no_flags() {
    let mut engine = Engine::new();
    let spec = BreakpointSpec::data(BreakpointAt::Address(0x1000), watch(4)).disabled();
    engine.set(spec, 0).unwrap();
    assert!(engine.calls.contains(&SettingCall::Create {
        kind: DEBUG_BREAKPOINT_DATA
    }));
    assert!(engine
        .calls
        .contains(&SettingCall::SetData { size: 4, access: 2 }));
    assert!(!engine
        .calls
        .iter()
        .any(|call| matches!(call, SettingCall::AddFlags { .. })));
}

#[test]
fn a_failed_step_removes_what_it_built_and_nothing_else() {
    let replacing = || {
        BreakpointSpec::data(BreakpointAt::Address(0x1000), watch(8))
            .with_command("k")
            .with_pass_count(3)
            .on_thread(7)
            .replacing_existing()
    };
    for step in [
        SettingCall::Locate { address: 0x1000 },
        SettingCall::SetCommand,
        SettingCall::SetPassCount { passes: 3 },
        SettingCall::SetThread { thread: 7 },
        SettingCall::SetData { size: 8, access: 2 },
        SettingCall::AddFlags {
            flags: DEBUG_BREAKPOINT_ENABLED,
        },
    ] {
        let mut engine = Engine::new();
        engine.fails_at = Some(step);
        engine.held = Some(vec![held(1, 0x1000)]);
        assert!(matches!(
            engine.set(replacing(), 0),
            Err(DbgEngError::BreakpointFailed(_))
        ));
        assert!(engine.discards(), "{step:?} left a breakpoint behind");
        assert!(!engine.removes(), "{step:?} took a breakpoint away");
    }

    let mut engine = Engine::new();
    engine.fails_at = Some(SettingCall::Create { kind: 1 });
    assert!(engine.set(replacing(), 0).is_err());
    assert!(!engine.discards(), "there was nothing to remove");

    let mut engine = Engine::new();
    engine.unreadable = true;
    engine.held = Some(vec![held(1, 0x1000)]);
    let error = engine.set(replacing(), 0).unwrap_err();
    assert_eq!(
        error.to_text(),
        "reading the id of breakpoint just set failed: gone"
    );
    assert!(engine.discards() && !engine.removes());
}

#[test]
fn a_replacement_removes_the_others_at_its_address() {
    let spec = || BreakpointSpec::code(BreakpointAt::Address(0x1000)).replacing_existing();
    let mut engine = Engine::new();
    engine.held = Some(vec![
        held(1, 0x1000),
        held(2, 0x2000),
        held(9, 0x1000),
        held(3, 0x1000),
    ]);
    engine.keeps = vec![3];
    let set = engine.set(spec(), 0).unwrap();
    assert_eq!(
        set.replaced,
        [1],
        "what the engine would not give up is not reported as gone"
    );
    assert!(engine.calls.contains(&SettingCall::RemoveOther { id: 3 }));
    assert!(!engine.calls.contains(&SettingCall::RemoveOther { id: 9 }));

    let mut engine = Engine::new();
    engine.held = None;
    let set = engine.set(spec(), 0).unwrap();
    assert!(set.replaced.is_empty());

    let mut engine = Engine::new();
    engine.resolves_to = None;
    engine.held = Some(vec![held(1, 0x1000)]);
    let set = engine.set(spec(), 0).unwrap();
    assert!(!engine.calls.contains(&SettingCall::List));
    assert!(set.replaced.is_empty());

    let mut engine = Engine::new();
    engine.held = Some(vec![held(1, 0x1000)]);
    let added = BreakpointSpec::code(BreakpointAt::Address(0x1000));
    assert!(engine.set(added, 0).unwrap().replaced.is_empty());
    assert!(!engine.removes());

    assert_eq!(
        breakpoints_at(&vec![held(1, 0x10), held(2, 0x10), held(3, 0x20)], 0x10, 2),
        [1]
    );
}

#[test]
fn a_resolve_cut_short_leaves_the_breakpoint() {
    let spec = || BreakpointSpec::code(BreakpointAt::Expression("nt!Foo".to_string()));
    let mut engine = Engine::new();
    engine.resolve = Err(fault("broken off"));
    engine.fires = true;
    let set = engine.set(spec(), 50).unwrap();
    assert_eq!(set.cut_short, Some(Interruption::Deadline { after_ms: 50 }));
    assert!(engine.calls.contains(&SettingCall::Drain));
    assert!(engine.calls.contains(&SettingCall::Resolve {
        watchdog_ms: Some(50)
    }));

    let mut engine = Engine::new();
    engine.asked = true;
    let set = engine.set(spec(), 0).unwrap();
    assert_eq!(set.cut_short, Some(Interruption::OnRequest));

    let mut engine = Engine::new();
    engine.resolve = Err(fault("no such symbol"));
    assert!(matches!(
        engine.set(spec(), 0),
        Err(DbgEngError::BreakpointFailed(_))
    ));
    assert!(engine.discards());
}

#[test]
fn a_resolve_is_an_operation_of_its_own() {
    let spec = || BreakpointSpec::code(BreakpointAt::Expression("nt!Foo".to_string()));
    let around = |engine: &Engine| {
        let at = |call| engine.calls.iter().position(|made| *made == call).unwrap();
        engine.calls[at(SettingCall::Begin)..=at(SettingCall::End)].to_vec()
    };
    let resolve = SettingCall::Resolve {
        watchdog_ms: Some(30),
    };

    let mut engine = Engine::new();
    engine.set(spec(), 30).unwrap();
    assert_eq!(
        around(&engine),
        [
            SettingCall::Begin,
            resolve,
            SettingCall::TakeRequest,
            SettingCall::End
        ]
    );

    let mut engine = Engine::new();
    engine.fires = true;
    engine.set(spec(), 30).unwrap();
    assert_eq!(
        around(&engine),
        [
            SettingCall::Begin,
            resolve,
            SettingCall::TakeRequest,
            SettingCall::Drain,
            SettingCall::End
        ]
    );

    let mut engine = Engine::new();
    engine.resolve = Err(fault("no such symbol"));
    assert!(engine.set(spec(), 30).is_err());
    assert_eq!(
        engine.calls[1..],
        [
            SettingCall::Begin,
            resolve,
            SettingCall::TakeRequest,
            SettingCall::End,
            SettingCall::Discard,
            SettingCall::Finish
        ]
    );

    let mut engine = Engine::new();
    let at_address = BreakpointSpec::code(BreakpointAt::Address(0x1000));
    engine.set(at_address, 30).unwrap();
    assert!(!engine.calls.contains(&SettingCall::Begin));
}

#[test]
fn an_expression_is_judged_where_it_resolves() {
    let mut engine = Engine::new();
    engine.resolves_to = Some(0x1001);
    let spec = BreakpointSpec::data(BreakpointAt::Expression("nt!Foo+1".into()), watch(8));
    let error = engine.set(spec, 0).unwrap_err();
    assert_eq!(
        error.to_text(),
        "Invalid breakpoint: a 8-byte data breakpoint must be 8-byte aligned, and this location \
         resolved to 0x1001, which is not"
    );
    assert!(engine.discards());
}

#[test]
fn a_spec_the_engine_would_refuse_later_is_refused_before_it_is_asked() {
    let mut engine = Engine::new();
    let spec = BreakpointSpec::data(BreakpointAt::Address(0x1004), watch(8));
    assert_eq!(
        engine.set(spec, 0).unwrap_err().to_text(),
        "Invalid breakpoint: a 8-byte data breakpoint must be 8-byte aligned, and 0x1004 is not"
    );
    let spec = BreakpointSpec::data(BreakpointAt::Address(0x1000), watch(3));
    assert_eq!(
        engine.set(spec, 0).unwrap_err().to_text(),
        "Invalid breakpoint: a data breakpoint's size must be 1, 2, 4 or 8 bytes, not 3"
    );
    let spec = BreakpointSpec::code(BreakpointAt::Address(0x1000)).with_command("k\0g");
    assert!(matches!(
        engine.set(spec, 0),
        Err(DbgEngError::InvalidCommand)
    ));
    assert!(engine.calls.iter().all(|call| *call == SettingCall::Finish));

    let spec = BreakpointSpec::code(BreakpointAt::Expression("a\0b".into()));
    assert!(matches!(
        engine.set(spec, 0),
        Err(DbgEngError::InvalidCommand)
    ));
    assert!(
        engine.discards(),
        "the breakpoint was created before its location was judged"
    );
}

#[test]
fn a_deferred_breakpoint_has_no_address() {
    let mut deferred = raw(4, DEBUG_INVALID_OFFSET);
    deferred.flags = Some(DEBUG_BREAKPOINT_DEFERRED);
    deferred.expression = Some("nosuchmod!Sym".to_string());
    deferred.command = Some(String::new());
    let info = breakpoint_info(deferred, "held").unwrap();
    assert_eq!(info.address, None);
    assert!(info.deferred && !info.enabled && !info.one_shot);
    assert_eq!(info.expression.as_deref(), Some("nosuchmod!Sym"));
    assert_eq!(info.command, None);
    assert_eq!(info.thread, None);
}

#[test]
fn a_getter_that_fails_leaves_its_field_empty() {
    let silent = RawBreakpoint {
        id: Ok(1),
        kind: None,
        flags: None,
        offset: None,
        expression: None,
        command: None,
        thread: None,
        data: Some((4, 1)),
        pass_count: None,
        passes_remaining: None,
    };
    let info = breakpoint_info(silent, "held").unwrap();
    assert_eq!(info.kind, BreakpointKind::Other(DEBUG_ANY_ID));
    assert_eq!(info.data, None, "a region is read off a data breakpoint alone");
    assert_eq!((info.pass_count, info.passes_remaining), (0, 0));

    let mut data = raw(1, 0x10);
    data.kind = Some(DEBUG_BREAKPOINT_DATA);
    data.data = Some((4, 3));
    assert_eq!(
        breakpoint_info(data, "held").unwrap().data,
        Some(DataWatch {
            access: DataAccess::ReadWrite,
            size: 4
        })
    );
}

#[test]
fn a_walk_over_breakpoints_fails_at_the_first_it_cannot_read() {
    let mut walk = BreakpointWalk::begin(Ok(2)).unwrap();
    assert_eq!(walk.next(), Some(0));
    walk = walk.take(Ok(raw(5, 0x10))).unwrap();
    assert_eq!(walk.next(), Some(1));
    walk = walk.take(Ok(raw(6, 0x20))).unwrap();
    assert_eq!(walk.next(), None);
    assert_eq!(walk.read, [held(5, 0x10), held(6, 0x20)]);

    let text = |walk: Result<BreakpointWalk, DbgEngError>| walk.err().unwrap().to_text();
    assert_eq!(
        text(BreakpointWalk::begin(Err(fault("no engine")))),
        "counting breakpoints failed: no engine"
    );
    let one = || BreakpointWalk::begin(Ok(1)).unwrap();
    assert_eq!(
        text(one().take(Err(fault("no")))),
        "reading breakpoint at index 0 failed: no"
    );
    let mut nameless = raw(1, 2);
    nameless.id = Err(fault("no"));
    assert_eq!(
        text(one().take(Ok(nameless))),
        "reading the id of breakpoint at index 0 failed: no"
    );
}

#[test]
fn a_breakpoint_is_named_in_what_is_said_of_it() {
    let text = |result: Result<(), DbgEngError>| result.unwrap_err().to_text();
    assert!(looked_up(3, Ok(())).is_ok());
    assert_eq!(
        text(looked_up(3, Err(fault("no")))),
        "looking up breakpoint 3 failed: no"
    );
    assert_eq!(
        text(removed(3, Err(fault("no")))),
        "removing breakpoint 3 failed: no"
    );
    assert_eq!(
        text(rearmed(3, true, Err(fault("no")))),
        "enabling breakpoint 3 failed: no"
    );
    assert_eq!(
        text(rearmed(3, false, Err(fault("no")))),
        "disabling breakpoint 3 failed: no"
    );
    assert_eq!(OnExisting::default(), OnExisting::Add);
}
