use std::collections::HashSet;

use dbgscope::dbgeng::arrivals::{Arrival, Arrivals, Presence};
use dbgscope::dbgeng::breakpoint::{
    BreakpointAt, BreakpointKind, BreakpointSpec, DataAccess, DataWatch, OnExisting,
};
use dbgscope::dbgeng::breaks::BreakScope;
use dbgscope::dbgeng::codes::{
    DEBUG_BREAKPOINT_CODE, DEBUG_BREAKPOINT_DATA, DEBUG_BREAKPOINT_DEFERRED,
    DEBUG_BREAKPOINT_ENABLED, DEBUG_BREAKPOINT_ONE_SHOT, DEBUG_BREAK_EXECUTE, DEBUG_BREAK_IO,
    DEBUG_BREAK_READ, DEBUG_BREAK_WRITE, DEBUG_OUTPUT_NORMAL, DEBUG_STATUS_BREAK, DEBUG_STATUS_GO,
    DEBUG_STATUS_GO_HANDLED, DEBUG_STATUS_GO_NOT_HANDLED, DEBUG_STATUS_NO_DEBUGGEE,
    DEBUG_STATUS_REVERSE_GO, DEBUG_STATUS_REVERSE_STEP_BRANCH, DEBUG_STATUS_REVERSE_STEP_INTO,
    DEBUG_STATUS_REVERSE_STEP_OVER, DEBUG_STATUS_STEP_BRANCH, DEBUG_STATUS_STEP_INTO,
    DEBUG_STATUS_STEP_OVER, DEBUG_SYMTYPE_DEFERRED, DEBUG_SYMTYPE_NONE, DEBUG_SYMTYPE_PDB,
    DEBUG_VALUE_FLOAT64, DEBUG_VALUE_FLOAT80, DEBUG_VALUE_INT32, DEBUG_VALUE_INT64,
    DEBUG_VALUE_INT8, DEBUG_VALUE_VECTOR128, DEBUG_VALUE_VECTOR64, E_FAIL, S_OK,
};
use dbgscope::dbgeng::identity::{Identities, MAX_REMEMBERED_CLIENTS};
use dbgscope::dbgeng::kernel_attach::{validate_observation, Notice};
use dbgscope::dbgeng::module::SymbolKind;
use dbgscope::dbgeng::registers::{RawValue, RegisterValue};
use dbgscope::dbgeng::text::{format_pdb_guid, nul_terminated, split_instruction, PdbGuid};
use dbgscope::dbgeng::wait::is_running_status;

const DEBUG_OUTPUT_WARNING: u32 = 4;

#[test]
fn test_an_arrival_is_delivered_to_one_open_and_claimed() {
    let none = HashSet::new();
    let mut arrivals = Arrivals::default();
    let first = arrivals.register(Arrival::Launched(Some(Vec::new())));
    let second = arrivals.register(Arrival::Launched(Some(Vec::new())));

    arrivals.deliver((0, 100), &none);
    assert_eq!(
        arrivals.presence(first, &[(0, 100)], &none),
        Presence::Arrived,
        "the first-registered open did not get the first arrival"
    );
    assert_ne!(
        arrivals.presence(second, &[(0, 100)], &none),
        Presence::Arrived,
        "both launches were given one arrival, which is the ambiguity this removes"
    );

    arrivals.deliver((0, 100), &none);
    assert_ne!(
        arrivals.presence(second, &[(0, 100)], &none),
        Presence::Arrived,
        "a repeat stop on an already-delivered process was given to the next open in line"
    );

    arrivals.deliver((1, 200), &none);
    assert_eq!(
        arrivals.presence(second, &[(0, 100), (1, 200)], &none),
        Presence::Arrived,
        "the second launch was not given the arrival nobody had claimed"
    );

    arrivals.forget(first);
    assert_eq!(
        arrivals.presence(first, &[(0, 100)], &none),
        Presence::Absent,
        "a forgotten open still answered about a process"
    );
}

#[test]
fn test_a_pending_attach_keeps_its_process_from_a_pending_launch() {
    let none = HashSet::new();
    let mut arrivals = Arrivals::default();
    let launch = arrivals.register(Arrival::Launched(Some(Vec::new())));
    let attach = arrivals.register(Arrival::Attached(200));

    arrivals.deliver((0, 200), &none);
    assert_ne!(
        arrivals.presence(launch, &[(0, 200)], &none),
        Presence::Arrived,
        "the launch claimed the process a pending attach had named"
    );
    assert_eq!(
        arrivals.presence(attach, &[(0, 200)], &none),
        Presence::Arrived,
        "the attach did not get its own process"
    );
}

#[test]
fn test_a_break_request_names_the_operation_it_is_for() {
    let mut scope = BreakScope::default();
    assert_eq!(scope.innermost(), None, "an idle scope named an operation");

    let first = scope.begin();
    assert_eq!(scope.innermost(), Some(first));
    scope.record(first);
    assert!(scope.take(first), "the operation asked for did not see it");
    assert!(
        !scope.take(first),
        "a request was taken twice, so it could be charged to two operations"
    );

    scope.record(first);
    scope.end(first);
    let second = scope.begin();
    assert!(
        !scope.take(second),
        "a request filed against {first:?} was answered for {second:?}"
    );
    scope.end(second);
    assert!(
        scope.running.is_empty() && scope.asked.is_empty(),
        "closing every operation left {scope:?} behind"
    );
}

#[test]
fn test_a_nested_operation_does_not_take_its_parents_request() {
    let mut scope = BreakScope::default();
    let outer = scope.begin();
    scope.record(outer);

    let inner = scope.begin();
    assert_eq!(
        scope.innermost(),
        Some(inner),
        "a break raised now would stop the inner operation, so it must be filed against it"
    );
    assert!(
        !scope.take(inner),
        "the inner operation was handed the outer one's request"
    );

    scope.end(inner);
    assert_eq!(
        scope.innermost(),
        Some(outer),
        "the outer operation did not resume when the inner one ended"
    );
    assert!(
        scope.take(outer),
        "the outer operation's request did not survive an inner operation"
    );
    scope.end(outer);
}

#[test]
fn test_an_operations_request_dies_with_it() {
    let mut scope = BreakScope::default();
    let operation = scope.begin();
    scope.record(operation);
    assert!(
        scope.end(operation),
        "a request nobody read was not told of, so nobody drains the break behind it"
    );
    assert!(
        scope.running.is_empty() && scope.asked.is_empty(),
        "an operation that never read its request left {scope:?} for the next one"
    );
}

#[test]
fn test_a_code_breakpoint_spec_is_armed_and_adds_rather_than_replaces() {
    let spec = BreakpointSpec::code(BreakpointAt::Address(0x1000));
    assert!(spec.enabled);
    assert!(!spec.one_shot);
    assert_eq!(spec.data, None);
    assert_eq!(spec.on_existing, OnExisting::Add);
    assert_eq!(spec.flags(), DEBUG_BREAKPOINT_ENABLED);

    let disabled = BreakpointSpec::code(BreakpointAt::Address(0x1000)).disabled();
    assert_eq!(disabled.flags(), 0);
}

#[test]
fn test_a_spec_sends_only_the_two_flags_a_client_owns() {
    let spec = BreakpointSpec::code(BreakpointAt::Expression("nt!Foo".into())).one_shot();
    assert_eq!(
        spec.flags(),
        DEBUG_BREAKPOINT_ENABLED | DEBUG_BREAKPOINT_ONE_SHOT
    );
    assert_eq!(spec.flags() & DEBUG_BREAKPOINT_DEFERRED, 0);
}

#[test]
fn test_a_data_spec_keeps_the_code_defaults_and_carries_its_watch() {
    let watch = DataWatch {
        access: DataAccess::Write,
        size: 8,
    };
    let spec = BreakpointSpec::data(BreakpointAt::Address(0x2000), watch)
        .with_command(".echo hit; gc")
        .on_thread(7)
        .with_pass_count(3)
        .replacing_existing();
    assert_eq!(spec.data, Some(watch));
    assert!(spec.enabled);
    assert_eq!(spec.command.as_deref(), Some(".echo hit; gc"));
    assert_eq!(spec.thread, Some(7));
    assert_eq!(spec.pass_count, Some(3));
    assert_eq!(spec.on_existing, OnExisting::Replace);
}

#[test]
fn test_each_data_access_maps_to_its_own_engine_flags() {
    assert_eq!(DataAccess::Read.to_engine(), DEBUG_BREAK_READ);
    assert_eq!(DataAccess::Write.to_engine(), DEBUG_BREAK_WRITE);
    assert_eq!(
        DataAccess::ReadWrite.to_engine(),
        DEBUG_BREAK_READ | DEBUG_BREAK_WRITE
    );
    assert_eq!(DataAccess::Execute.to_engine(), DEBUG_BREAK_EXECUTE);
    assert_eq!(DataAccess::Io.to_engine(), DEBUG_BREAK_IO);
    assert_ne!(
        DataAccess::Read.to_engine(),
        DataAccess::ReadWrite.to_engine()
    );
}

#[test]
fn test_a_data_access_survives_the_round_trip_to_the_engine() {
    for access in [
        DataAccess::Read,
        DataAccess::Write,
        DataAccess::ReadWrite,
        DataAccess::Execute,
        DataAccess::Io,
    ] {
        assert_eq!(
            DataAccess::from_engine(access.to_engine()),
            access,
            "{access:?} did not survive"
        );
    }
    let odd = DEBUG_BREAK_EXECUTE | DEBUG_BREAK_WRITE;
    assert_eq!(DataAccess::from_engine(odd), DataAccess::Other(odd));
    assert_eq!(DataAccess::Other(odd).to_engine(), odd);
}

#[test]
fn test_a_data_breakpoint_is_refused_for_a_bad_size_or_alignment() {
    let watch = |size| DataWatch {
        access: DataAccess::ReadWrite,
        size,
    };
    for size in [0, 3, 5, 16] {
        assert!(
            BreakpointSpec::data(BreakpointAt::Address(0x1000), watch(size))
                .validated()
                .is_err(),
            "a {size}-byte data breakpoint should be refused"
        );
    }
    for size in [1, 2, 4, 8] {
        assert!(
            BreakpointSpec::data(BreakpointAt::Address(0x1000), watch(size))
                .validated()
                .is_ok(),
            "a {size}-byte data breakpoint at an aligned address should be accepted"
        );
    }
    assert!(
        BreakpointSpec::data(BreakpointAt::Address(0x1004), watch(8))
            .validated()
            .is_err()
    );
    assert!(
        BreakpointSpec::data(BreakpointAt::Expression("nt!Foo+1".into()), watch(8))
            .validated()
            .is_ok()
    );
    assert!(
        BreakpointSpec::code(BreakpointAt::Address(0x1001))
            .validated()
            .is_ok()
    );
}

#[test]
fn test_a_pdb_guid_is_spelled_the_way_a_symbol_server_path_is() {
    let guid = PdbGuid {
        data1: 0xFE3F_58BD,
        data2: 0xA39D,
        data3: 0x2FC1,
        data4: [0x3C, 0x37, 0x06, 0x18, 0xD1, 0xDB, 0xDF, 0x22],
    };
    assert_eq!(format_pdb_guid(&guid), "FE3F58BDA39D2FC13C370618D1DBDF22");
}

#[test]
fn test_an_instruction_splits_into_its_encoding_and_its_mnemonic() {
    let x64 = split_instruction(
        0xfffff803_89201234,
        "fffff803`89201234 48895c2408      mov     qword ptr [rsp+8],rbx\n",
    );
    assert_eq!(x64.address, 0xfffff803_89201234);
    assert_eq!(x64.bytes, "48895c2408");
    assert_eq!(x64.text, "mov qword ptr [rsp+8],rbx");

    let arm64 = split_instruction(
        0xfffff803_89201234,
        "fffff803`89201234 a9bf7bfd     stp         fp,lr,[sp,#-0x10]!\n",
    );
    assert_eq!(arm64.bytes, "a9bf7bfd");
    assert_eq!(arm64.text, "stp fp,lr,[sp,#-0x10]!");
}

#[test]
fn test_an_instructions_address_comes_from_the_walk_not_the_rendering() {
    let one = split_instruction(0x1000, "deadbeef`deadbeef 90    nop");
    assert_eq!(one.address, 0x1000);
    assert_eq!(one.text, "nop");
}

#[test]
fn test_an_unrecognised_line_keeps_its_text_rather_than_inventing_an_encoding() {
    let two_columns = split_instruction(0x1000, "fffff803`89201234 ????");
    assert!(two_columns.bytes.is_empty(), "{two_columns:?}");
    assert_eq!(two_columns.text, "????");

    let one_column = split_instruction(0x1000, "???");
    assert!(one_column.bytes.is_empty(), "{one_column:?}");
    assert_eq!(one_column.text, "???");
}

#[test]
fn test_a_clients_identity_outlives_the_wrapper_it_was_issued_to() {
    let (client, other) = (0x11, 0x22);
    let mut identities = Identities::new();

    let first = identities.identity_for(client);
    assert_eq!(
        identities.identity_for(client),
        first,
        "a rebuilt wrapper keeps its caches"
    );
    assert_ne!(
        identities.identity_for(other),
        first,
        "two clients are two targets"
    );

    let after_release = identities.reissue_for(client);
    assert_ne!(after_release, first);
    assert_eq!(identities.identity_for(client), after_release);

    for filler in 0..MAX_REMEMBERED_CLIENTS {
        identities.identity_for(0x1000 + filler as u64);
    }
    assert!(identities.known.len() <= MAX_REMEMBERED_CLIENTS);
    assert!(
        identities.identity_for(client) >= after_release,
        "a forgotten client is issued a later identity, never an earlier one"
    );

    identities.known.clear();
    identities.known.insert(client, after_release);
    for filler in 1..MAX_REMEMBERED_CLIENTS {
        let identity = identities.next;
        identities.next += 1;
        identities.known.insert(0x2000 + filler as u64, identity);
    }
    assert_eq!(identities.known.len(), MAX_REMEMBERED_CLIENTS);
    assert_eq!(
        identities.identity_for(client),
        after_release,
        "a client at the cap keeps the caches it is in the middle of using"
    );
    assert_eq!(identities.known.len(), MAX_REMEMBERED_CLIENTS);

    identities.identity_for(0xbeef);
    assert!(identities.known.len() < MAX_REMEMBERED_CLIENTS);
}

/// A value carrying bytes in the arm `tag` names.
fn tagged(tag: u32, filled: &[u8]) -> RawValue {
    let mut bytes = [0u8; 24];
    bytes[..filled.len()].copy_from_slice(filled);
    RawValue { tag, bytes }
}

#[test]
fn a_register_value_is_read_by_the_arm_its_tag_names() {
    let int32 = tagged(DEBUG_VALUE_INT32, &0xdead_beefu32.to_le_bytes());
    assert_eq!(
        RegisterValue::decode(&int32),
        RegisterValue::Int(0xdead_beef)
    );

    let int64 = tagged(DEBUG_VALUE_INT64, &0xffff_8000_dead_beefu64.to_le_bytes());
    assert_eq!(
        RegisterValue::decode(&int64),
        RegisterValue::Int(0xffff_8000_dead_beef)
    );

    let byte = tagged(DEBUG_VALUE_INT8, &[0xff]);
    assert_eq!(RegisterValue::decode(&byte), RegisterValue::Int(0xff));

    let float = tagged(DEBUG_VALUE_FLOAT64, &1.5f64.to_le_bytes());
    assert_eq!(
        RegisterValue::decode(&float),
        RegisterValue::Double(1.5f64.to_bits())
    );
}

#[test]
fn a_wide_register_keeps_every_byte() {
    let mut bytes = [0u8; 16];
    for (i, b) in bytes.iter_mut().enumerate() {
        *b = i as u8;
    }
    let vector = tagged(DEBUG_VALUE_VECTOR128, &bytes);
    assert_eq!(
        RegisterValue::decode(&vector),
        RegisterValue::Bytes(bytes.to_vec())
    );

    let half = tagged(DEBUG_VALUE_VECTOR64, &bytes);
    assert_eq!(
        RegisterValue::decode(&half),
        RegisterValue::Bytes(bytes[..8].to_vec())
    );

    let x87 = tagged(DEBUG_VALUE_FLOAT80, &[7u8; 10]);
    assert_eq!(
        RegisterValue::decode(&x87),
        RegisterValue::Bytes(vec![7u8; 10])
    );
}

#[test]
fn an_undecodable_register_is_unavailable_rather_than_zero() {
    let unknown = tagged(13, &0xdead_beef_dead_beefu64.to_le_bytes());
    assert_eq!(RegisterValue::decode(&unknown), RegisterValue::Unavailable);

    let invalid = tagged(0, &1u64.to_le_bytes());
    assert_eq!(RegisterValue::decode(&invalid), RegisterValue::Unavailable);
}

#[test]
fn an_unknown_symbol_type_is_not_reported_as_having_no_symbols() {
    assert_eq!(SymbolKind::from_engine(DEBUG_SYMTYPE_PDB), SymbolKind::Pdb);
    assert_eq!(
        SymbolKind::from_engine(DEBUG_SYMTYPE_DEFERRED),
        SymbolKind::Deferred
    );
    assert_eq!(
        SymbolKind::from_engine(DEBUG_SYMTYPE_NONE),
        SymbolKind::Absent
    );
    assert_eq!(SymbolKind::from_engine(4242), SymbolKind::Other(4242));
    assert!(SymbolKind::Pdb.has_type_info());
    assert!(SymbolKind::Dia.has_type_info());
    assert!(!SymbolKind::Export.has_type_info());
    assert!(!SymbolKind::Deferred.has_type_info());
}

#[test]
fn a_breakpoint_type_keeps_an_unknown_code() {
    assert_eq!(
        BreakpointKind::from_engine(DEBUG_BREAKPOINT_CODE),
        BreakpointKind::Code
    );
    assert_eq!(
        BreakpointKind::from_engine(DEBUG_BREAKPOINT_DATA),
        BreakpointKind::Data
    );
    assert_eq!(BreakpointKind::from_engine(9), BreakpointKind::Other(9));
}

#[test]
fn a_name_stops_at_the_nul_the_engine_wrote() {
    assert_eq!(nul_terminated(b"nt\0junkjunk"), "nt");
    assert_eq!(nul_terminated(b"\0"), "");
    assert_eq!(nul_terminated(b"no terminator"), "no terminator");
}

#[test]
fn every_go_and_step_status_is_a_running_one_and_nothing_else_is() {
    for status in [
        DEBUG_STATUS_GO,
        DEBUG_STATUS_GO_HANDLED,
        DEBUG_STATUS_GO_NOT_HANDLED,
        DEBUG_STATUS_STEP_OVER,
        DEBUG_STATUS_STEP_INTO,
        DEBUG_STATUS_STEP_BRANCH,
        DEBUG_STATUS_REVERSE_GO,
        DEBUG_STATUS_REVERSE_STEP_BRANCH,
        DEBUG_STATUS_REVERSE_STEP_OVER,
        DEBUG_STATUS_REVERSE_STEP_INTO,
    ] {
        assert!(
            is_running_status(status),
            "status {status} reads as stopped"
        );
    }
    // No change, ignore event, restart requested, out of sync, wait input and timeout are the
    // engine's other codes.
    for status in [
        0,
        DEBUG_STATUS_BREAK,
        DEBUG_STATUS_NO_DEBUGGEE,
        9,
        10,
        15,
        16,
        17,
    ] {
        assert!(
            !is_running_status(status),
            "status {status} reads as running"
        );
    }
}

#[test]
fn test_notice_chunk_boundaries_and_reconnect_are_one_shot() {
    let prefix = b"Connected to target ";
    for split in 0..=prefix.len() {
        let mut notice = Notice::default();
        let a = notice.feed(DEBUG_OUTPUT_NORMAL, &prefix[..split]);
        let b = notice.feed(DEBUG_OUTPUT_NORMAL, &prefix[split..]);
        assert_eq!(usize::from(a) + usize::from(b), 1);
        assert!(!notice.feed(DEBUG_OUTPUT_NORMAL, b"\nConnected to target "));
        assert!(Notice::default().feed(DEBUG_OUTPUT_NORMAL, prefix));
    }
}

#[test]
fn test_notice_anchoring_masks_and_bounded_state() {
    let mut notice = Notice::default();
    for _ in 0..100_000 {
        assert!(!notice.feed(DEBUG_OUTPUT_NORMAL, b"x"));
    }
    assert!(!notice.feed(
        DEBUG_OUTPUT_NORMAL,
        b"Connected to target \nConnected to nope\nConnected to "
    ));
    assert!(!notice.feed(DEBUG_OUTPUT_WARNING, b"other\nConnected to target "));
    assert!(notice.feed(DEBUG_OUTPUT_NORMAL, b"target "));
}

#[test]
fn test_missing_or_failed_announcement_never_succeeds() {
    assert!(validate_observation(None).is_err());
    assert!(validate_observation(Some(E_FAIL)).is_err());
    assert!(validate_observation(Some(S_OK)).is_ok());
}
