use dbgscope::dbgeng::codes::{
    DEBUG_VALUE_FLOAT128, DEBUG_VALUE_FLOAT32, DEBUG_VALUE_FLOAT82, DEBUG_VALUE_INT16, E_FAIL,
    E_INVALIDARG, E_NOINTERFACE, S_FALSE, S_OK,
};
use dbgscope::dbgeng::error::{in_context, DbgEngError, EngineFault};
use dbgscope::dbgeng::identity::Identities;
use dbgscope::dbgeng::memory::{
    engine_size, field_offset, field_type_and_offset, interrupted, is_kernel_target,
    is_live_kernel, read_memory, string_filled, string_sized, symbol_offset, type_id, type_size,
    valid_virtual_region, FieldWalk, StringStep, TargetType, MAX_FIELDS,
};
use dbgscope::dbgeng::module::{
    kernel_base, kernel_image, located_at, located_by_name, module_counts, module_identity,
    module_pdb, module_symbol_file, name_buffers, named_module, parameters_at, parameters_of,
    KernelImage, Module, ModuleNames, ModuleParameters, ModuleTable, ModuleWalk, PdbRecord,
    SymbolKind,
};
use dbgscope::dbgeng::process::{
    leaf_name, process_name, short_name, short_name_field, AuditName,
};
use dbgscope::dbgeng::registers::{
    register, RawValue, RegisterDescription, RegisterValue, RegisterWalk,
};
use dbgscope::dbgeng::scope::{restored, FrameRecord, Scope, ScopeAnswer, ScopeRead, ScopeStep};
use dbgscope::dbgeng::stack::{bug_check, BugCheck, Disassembly, StackWalk};
use dbgscope::dbgeng::text::{
    check_command, collapse_spaces, escape_output, has_nul, is_white, output_control,
    split_instruction, to_wide, wide_to_string, PdbGuid,
};

fn fault(text: &str) -> EngineFault {
    coded(E_FAIL, text)
}

fn coded(code: i32, text: &str) -> EngineFault {
    EngineFault {
        code,
        text: text.to_string(),
    }
}

fn parameters(base: u64) -> ModuleParameters {
    ModuleParameters {
        base,
        size: 0x2000,
        timestamp: 3,
        checksum: 4,
        flags: 2,
        symbol_type: 3,
        module_name_size: 0,
        image_name_size: 5,
        loaded_image_name_size: 9,
    }
}

fn names(name: &str) -> Option<ModuleNames> {
    Some(ModuleNames {
        name: [name.as_bytes(), b"\0junk"].concat(),
        image_name: b"nt.exe\0".to_vec(),
        loaded_image_name: b"C:\\nt.exe".to_vec(),
    })
}

fn said<T>(result: Result<T, DbgEngError>) -> String {
    match result {
        Ok(_) => String::from("nothing"),
        Err(error) => error.to_text(),
    }
}

#[test]
fn a_module_without_names_is_still_a_module() {
    let module = named_module(&parameters(0x1000), None);
    assert_eq!(module.base, 0x1000);
    assert_eq!(module.name, "");
    assert_eq!(module.symbols, SymbolKind::Pdb);
    assert!(module.user_mode && !module.unloaded);
    assert_eq!(module.end(), 0x3000);
    let module = named_module(&parameters(u64::MAX), names("nt"));
    assert_eq!(module.name, "nt");
    assert_eq!(module.image_name, "nt.exe");
    assert_eq!(module.loaded_image_name, "C:\\nt.exe");
    assert_eq!(module.end(), u64::MAX);
    assert_eq!(name_buffers(&parameters(0)), (260, 5, 9));
}

#[test]
fn modules_are_walked_by_index() {
    assert_eq!(ModuleTable::Loaded.indices(4, 2), (0, 4));
    assert_eq!(ModuleTable::Unloaded.indices(4, 2), (4, 2));
    let mut walk = ModuleWalk::begin(4, Ok(vec![parameters(1), parameters(2)])).unwrap();
    let mut asked = Vec::new();
    while let Some((index, parameters)) = walk.next() {
        asked.push((index, parameters.base));
        walk.take(names("m"));
    }
    assert_eq!(asked, [(4, 1), (5, 2)]);
    let bases: Vec<u64> = walk.named.iter().map(|module| module.base).collect();
    assert_eq!(bases, [1, 2]);
    assert_eq!(
        said(ModuleWalk::begin(0, Err(fault("no")))),
        "reading module parameters failed: no"
    );
    assert_eq!(
        said(module_counts(Err(fault("no")))),
        "counting the target's modules failed: no"
    );
}

#[test]
fn an_address_in_no_module_is_no_failure() {
    assert_eq!(located_at(0x10, Ok(3)).unwrap(), Some(3));
    for code in [E_INVALIDARG, E_NOINTERFACE] {
        assert_eq!(located_at(0x10, Err(coded(code, "none"))).unwrap(), None);
    }
    assert_eq!(
        said(located_at(0x10, Err(fault("no")))),
        "locating the module holding 0x10 failed: no"
    );
    assert_eq!(
        said(parameters_at(0x10, Err(fault("no")))),
        "reading the parameters of the module at 0x10 failed: no"
    );
    assert_eq!(
        said(parameters_of(0x10, Err(fault("no")))),
        "reading parameters of module at 0x10 failed: no"
    );
    assert_eq!(
        said(located_by_name("nt", Err(fault("no")))),
        "locating module nt failed: no"
    );
    assert_eq!(
        said(module_symbol_file(0x10, Err(fault("no")))),
        "reading the symbol file for module at 0x10 failed: no"
    );
}

#[test]
fn a_pdb_without_a_signature_is_none() {
    let record = |data1: u32, last: u8| PdbRecord {
        signature: PdbGuid {
            data1,
            data2: 0,
            data3: 0,
            data4: [0, 0, 0, 0, 0, 0, 0, last],
        },
        age: 2,
        unmatched: true,
        file: vec![0x6e, 0x74, 0, 0x78],
    };
    assert_eq!(module_pdb(0x10, Ok(record(0, 0))).unwrap(), None);
    let identity = module_pdb(0x10, Ok(record(0, 0xab))).unwrap().unwrap();
    assert_eq!(identity.guid, "000000000000000000000000000000AB");
    assert_eq!(identity.age, 2);
    assert!(identity.unmatched);
    assert_eq!(identity.file, "nt");
    assert_eq!(
        said(module_pdb(0x10, Err(fault("no")))),
        "reading the PDB identity of the module at 0x10 failed: no"
    );
}

#[test]
fn an_identity_names_the_symbol_file_too() {
    let module: Module = named_module(&parameters(0x1000), names("ntdll"));
    let identity = module_identity(module, "ntdll.pdb".to_string());
    assert_eq!(identity.name, "ntdll");
    assert_eq!(identity.symbol_file, "ntdll.pdb");
    assert_eq!((identity.base, identity.size), (0x1000, 0x2000));
    assert_eq!(
        kernel_image(0x10, Ok(parameters(0x99))).unwrap(),
        KernelImage {
            base: 0x10,
            size: 0x2000,
            timestamp: 3,
            checksum: 4
        }
    );
    assert_eq!(
        said(kernel_image(0x10, Err(fault("no")))),
        "reading the parameters of the kernel image at 0x10 failed: no"
    );
    assert_eq!(
        said(kernel_base(Err(fault("no")))),
        "discovering the nt kernel base failed: no"
    );
    assert_eq!(SymbolKind::default(), SymbolKind::Absent);
}

fn described(name: &str, flags: u32) -> RegisterDescription {
    RegisterDescription {
        name: name.to_string(),
        kind: 4,
        flags,
        subreg_master: 0,
        subreg_length: 0,
        subreg_mask: 0,
        subreg_shift: 0,
    }
}

#[test]
fn registers_are_described_by_index_and_read_one_at_a_time() {
    let walk = RegisterWalk::begin(Ok(2)).unwrap();
    assert_eq!(walk.next(), Some(0));
    let walk = walk.take(Ok(described("rax", 0))).unwrap();
    let walk = walk.take(Ok(described("eax", 1))).unwrap();
    assert_eq!(walk.next(), None);
    assert_eq!(walk.described[1].name, "eax");
    let rax = register(&walk.described[0], None);
    assert_eq!(rax.value, RegisterValue::Unavailable);
    assert!(!rax.subregister);
    let mut bytes = [0u8; 24];
    bytes[0] = 0x34;
    bytes[1] = 0x12;
    bytes[2] = 0x99;
    let eax = register(
        &walk.described[1],
        Some(RawValue {
            tag: DEBUG_VALUE_INT16,
            bytes,
        }),
    );
    assert_eq!(eax.value, RegisterValue::Int(0x1234));
    assert!(eax.subregister);
    assert_eq!(
        said(RegisterWalk::begin(Err(fault("no")))),
        "counting the target's registers failed: no"
    );
    let walk = RegisterWalk::begin(Ok(1)).unwrap();
    assert_eq!(
        said(walk.take(Err(fault("no")))),
        "describing register 0 failed: no"
    );
}

#[test]
fn each_tag_reads_as_many_bytes_as_it_names() {
    let mut bytes = [0u8; 24];
    for (i, byte) in bytes.iter_mut().enumerate() {
        *byte = i as u8 + 1;
    }
    let decode = |tag| RegisterValue::decode(&RawValue { tag, bytes });
    assert_eq!(
        decode(DEBUG_VALUE_FLOAT82),
        RegisterValue::Bytes((1..=11).collect())
    );
    assert_eq!(
        decode(DEBUG_VALUE_FLOAT128),
        RegisterValue::Bytes((1..=16).collect())
    );
    assert_eq!(
        decode(DEBUG_VALUE_FLOAT32),
        RegisterValue::Single(0x0403_0201)
    );
}

fn frame(number: u32, instruction: u64) -> FrameRecord {
    FrameRecord {
        instruction_offset: instruction,
        return_offset: 1,
        frame_offset: 2,
        stack_offset: 3,
        func_table_entry: 0,
        params: [0; 4],
        reserved: [0; 6],
        virtual_frame: 0,
        frame_number: number,
    }
}

fn read_scope(accepts: Option<u32>, refuses: i32, target: u64) -> (Result<Scope, DbgEngError>, Vec<Option<u32>>) {
    let mut read = ScopeRead::new();
    let mut asked = Vec::new();
    loop {
        let size = read.ask();
        asked.push(size);
        let answer = |size: u32| ScopeAnswer {
            instruction: 0x10,
            frame: frame(3, 0x10),
            context: vec![7; size as usize],
        };
        let reply = match (size, accepts) {
            (Some(size), Some(least)) if size >= least => Ok(answer(size)),
            (None, Some(_)) => Ok(answer(0)),
            _ => Err(coded(refuses, "refused")),
        };
        match read.take(reply, target) {
            ScopeStep::Again(next) => read = next,
            ScopeStep::Done(result) => return (result, asked),
        }
    }
}

#[test]
fn a_scopes_context_is_asked_for_with_more_room_until_it_fits() {
    let (scope, asked) = read_scope(Some(1232), E_INVALIDARG, 7);
    let scope = scope.unwrap();
    assert_eq!(asked, [Some(716), Some(912), Some(1232)]);
    assert_eq!(scope.context.len(), 1232);
    assert!(scope.has_context());
    assert_eq!(scope.instruction_offset(), 0x10);
    assert_eq!(scope.frame().frame_number, 3);
    assert_eq!(
        scope.to_text(),
        "Scope { instruction: 0x10, frame: 3, frame_offset: 0x2, context: 1232 bytes, target: 7 }"
    );
    assert!(scope.check_target(7).is_ok());
    assert!(matches!(
        scope.check_target(8),
        Err(DbgEngError::ScopeFromAnotherTarget)
    ));
}

#[test]
fn a_scope_is_refused_once_its_target_was_let_go() {
    let mut identities = Identities::new();
    let identity = identities.identity_for(1);
    let (scope, _) = read_scope(Some(1232), E_INVALIDARG, identity);
    let scope = scope.unwrap();
    assert!(scope.check_target(identities.identity_for(1)).is_ok());
    identities.reissue_for(1);
    assert!(matches!(
        scope.check_target(identities.identity_for(1)),
        Err(DbgEngError::ScopeFromAnotherTarget)
    ));
}

#[test]
fn a_scope_without_a_context_is_a_scope() {
    let (scope, asked) = read_scope(Some(u32::MAX), E_FAIL, 7);
    assert_eq!(asked, [Some(716), None]);
    assert!(!scope.unwrap().has_context());

    let (scope, asked) = read_scope(None, E_INVALIDARG, 7);
    assert_eq!(asked.len(), 10);
    assert_eq!(asked[8], Some(65536));
    assert_eq!(
        said(scope),
        "reading the debugger's scope failed: refused"
    );
    assert_eq!(
        said(restored(Err(fault("no")))),
        "restoring the debugger's scope failed: no"
    );
}

#[test]
fn a_stack_holds_no_more_than_the_engine_filled() {
    let records = vec![frame(0, 0x10), frame(1, 0x20), frame(2, 0x30)];
    let mut walk = StackWalk::begin(Some(Ok((records.clone(), 2)))).unwrap();
    assert_eq!(walk.next(), Some(0x10));
    walk.take(Some("nt!Foo".to_string()), 4);
    walk.take(Some(String::new()), 9);
    assert_eq!(walk.next(), None);
    assert_eq!(walk.frames[0].symbol.as_deref(), Some("nt!Foo"));
    assert_eq!(walk.frames[0].displacement, 4);
    assert_eq!(walk.frames[1].index, 1);
    assert_eq!(walk.frames[1].symbol, None);
    assert_eq!(walk.frames[1].displacement, 0);
    let walk = StackWalk::begin(Some(Ok((records, 99)))).unwrap();
    assert_eq!(walk.count, 3);
    assert_eq!(StackWalk::room(7), Some(7));
    assert_eq!(StackWalk::room(0), None);
    let walk = StackWalk::begin(None).unwrap();
    assert!(walk.next().is_none() && walk.frames.is_empty());
    assert_eq!(
        said(StackWalk::begin(Some(Err(fault("no"))))),
        "walking the current thread's stack failed: no"
    );
}

fn disassemble(lines: &[(Result<&str, &str>, u64)], count: usize) -> Result<Vec<u64>, DbgEngError> {
    let mut walk = Disassembly::new(0x1000, count);
    let mut at = 0;
    while walk.next().is_some() {
        let (line, next) = &lines[at];
        at += 1;
        let line = line.map(String::from).map_err(fault);
        walk = walk.take(line, *next, coded(S_FALSE, "nothing"))?;
    }
    Ok(walk
        .instructions
        .iter()
        .map(|instruction| instruction.address)
        .collect())
}

#[test]
fn a_disassembly_goes_forward_and_stops_where_it_cannot() {
    let nop = "a 90 nop";
    let all = [(Ok(nop), 0x1001), (Ok(nop), 0x1003), (Ok(nop), 0x1004)];
    assert_eq!(disassemble(&all, 3).unwrap(), [0x1000, 0x1001, 0x1003]);
    assert_eq!(disassemble(&all, 2).unwrap(), [0x1000, 0x1001]);
    assert!(disassemble(&all, 0).unwrap().is_empty());
    assert_eq!(
        disassemble(&[(Ok(nop), 0x1001), (Err("unmapped"), 0)], 5).unwrap(),
        [0x1000]
    );
    assert_eq!(
        disassemble(&[(Ok(nop), 0x1001), (Ok(" \n"), 0)], 5).unwrap(),
        [0x1000]
    );
    assert_eq!(
        disassemble(&[(Ok(nop), 0x1000)], 5).unwrap(),
        [0x1000],
        "an engine that does not advance would be asked forever"
    );
    assert_eq!(
        said(disassemble(&[(Err("unmapped"), 0)], 5)),
        "disassembling 0x1000 failed: unmapped"
    );
    assert_eq!(
        said(disassemble(&[(Ok("  "), 0)], 5)),
        "disassembling 0x1000 failed: nothing"
    );
}

#[test]
fn a_bug_check_of_no_code_is_none() {
    let check = BugCheck {
        code: 0x9f,
        parameters: [1, 2, 3, 4],
    };
    assert_eq!(bug_check(Ok(check)).unwrap(), Some(check));
    assert_eq!(bug_check(Ok(BugCheck { code: 0, ..check })).unwrap(), None);
    assert_eq!(
        said(bug_check(Err(fault("no")))),
        "reading the target's bug check data failed: no"
    );
}

#[test]
fn an_audited_name_is_the_leaf_of_its_path() {
    assert_eq!(
        leaf_name("\\Device\\HarddiskVolume3\\Users\\Admin\\mm_exploit_v5.exe").as_deref(),
        Some("mm_exploit_v5.exe")
    );
    assert_eq!(leaf_name("a/b c ").as_deref(), Some("b c"));
    assert_eq!(leaf_name("plain").as_deref(), Some("plain"));
    assert_eq!(leaf_name("a\\ "), None);
    assert_eq!(leaf_name(""), None);

    let path: Vec<u8> = "\\x\\n.exe"
        .encode_utf16()
        .flat_map(|unit| unit.to_le_bytes())
        .collect();
    let mut record = vec![path.len() as u8, 0, 0, 0, 0, 0, 0, 0];
    record.extend_from_slice(&0x9000u64.to_le_bytes());
    let audit = AuditName::begin(0x1000, Some(0x20));
    assert_eq!(audit.next(), Some((0x1020, 8)));
    let audit = audit.take(Some(0x8000u64.to_le_bytes().to_vec()));
    assert_eq!(audit.next(), Some((0x8000, 16)));
    let audit = audit.take(Some(record));
    assert_eq!(audit.next(), Some((0x9000, path.len())));
    assert!(matches!(
        audit.take(Some(path)),
        AuditName::Done(Some(name)) if name == "n.exe"
    ));
}

#[test]
fn an_audited_name_gives_up_where_a_step_is_missing() {
    let done = |audit: AuditName| matches!(audit, AuditName::Done(None));
    assert!(done(AuditName::begin(0, None)));
    assert!(done(AuditName::begin(u64::MAX, Some(1))));
    assert!(done(AuditName::begin(0, Some(8)).take(None)));
    assert!(done(AuditName::begin(0, Some(8)).take(Some(vec![0; 8]))));
    let record = || AuditName::Record { address: 8 };
    assert!(done(record().take(Some(vec![0; 16]))));
    let mut long = vec![1u8; 16];
    long[0] = 0x01;
    long[1] = 0x08;
    assert!(done(record().take(Some(long))), "2049 bytes are too many");
    assert_eq!(short_name_field(0x1000, 0x20, None), (0x1020, 15));
    assert_eq!(short_name_field(u64::MAX, 1, Some(4)), (u64::MAX, 4));
    assert_eq!(short_name(&b"System\0\0\0".to_vec()), "System");
}

#[test]
fn a_read_that_comes_back_short_fails() {
    assert_eq!(
        read_memory(0x10, 2, Ok((vec![1, 2], 2))).unwrap(),
        vec![1, 2]
    );
    assert_eq!(
        said(read_memory(0x10, 4, Ok((vec![0; 4], 3)))),
        "short virtual read at 0x10: requested 4 bytes, read 3"
    );
    assert_eq!(
        said(read_memory(0x10, 4, Err(fault("no")))),
        "reading 4 bytes of virtual memory at 0x10 failed: no"
    );
    assert_eq!(engine_size(7).unwrap(), 7);
    assert_eq!(
        said(engine_size(1 << 32)),
        "requested debugger buffer is too large: 4294967296 bytes"
    );
    assert_eq!(
        valid_virtual_region(0x10, Ok((0x20, 5))).unwrap(),
        (0x20, 5)
    );
    assert_eq!(
        said(valid_virtual_region(0x10, Err(fault("no")))),
        "querying valid virtual region at 0x10 failed: no"
    );
}

#[test]
fn a_poll_tells_asked_from_not_asked() {
    assert_eq!(interrupted(coded(S_OK, "")).unwrap(), true);
    assert_eq!(interrupted(coded(S_FALSE, "")).unwrap(), false);
    assert_eq!(
        said(interrupted(fault("no"))),
        "polling debugger interrupt failed: no"
    );
}

#[test]
fn a_dump_of_a_kernel_is_no_live_kernel() {
    let target = |class, qualifier| TargetType { class, qualifier };
    assert!(is_live_kernel(Some(target(1, 0))));
    assert!(!is_live_kernel(Some(target(1, 1024))));
    assert!(!is_live_kernel(Some(target(2, 0))));
    assert!(!is_live_kernel(None));
    assert_eq!(is_kernel_target(Ok(target(1, 1024))).unwrap(), true);
    assert_eq!(is_kernel_target(Ok(target(2, 0))).unwrap(), false);
    assert_eq!(
        said(is_kernel_target(Err(fault("no")))),
        "querying target type failed: no"
    );
}

#[test]
fn lookups_say_what_they_looked_for() {
    assert_eq!(
        said(symbol_offset("nt!Foo", Err(fault("no")))),
        "resolving symbol nt!Foo failed: no"
    );
    assert_eq!(
        said(type_id("_TEB", Err(fault("no")))),
        "resolving type _TEB failed: no"
    );
    assert_eq!(
        said(type_size(12, Err(fault("no")))),
        "resolving size of type id 12 failed: no"
    );
    assert_eq!(
        said(field_offset("Flags", Err(fault("no")))),
        "resolving field Flags failed: no"
    );
    assert_eq!(
        said(field_type_and_offset("Flags", Err(fault("no")))),
        "resolving type and offset of field Flags failed: no"
    );
    assert_eq!(type_id("_TEB", Ok(9)).unwrap(), 9);
    assert_eq!(
        said(in_context::<u32>("doing".to_string(), Err(fault("no")))),
        "doing failed: no"
    );
}

#[test]
fn fields_end_at_the_first_without_a_name() {
    let mut walk = FieldWalk::new();
    for name in ["a", "b"] {
        assert!(walk.next().is_some());
        walk.take(Some(name.to_string()));
    }
    assert_eq!(walk.next(), Some(2));
    walk.take(Some(String::new()));
    assert_eq!(walk.next(), None);
    assert_eq!(walk.names, ["a", "b"]);

    let mut endless = FieldWalk::new();
    let mut asked = 0;
    while endless.next().is_some() {
        endless.take(Some("x".to_string()));
        asked += 1;
    }
    assert_eq!(asked, MAX_FIELDS);
}

#[test]
fn a_string_is_sized_before_it_is_read() {
    assert!(matches!(
        string_sized(Ok(1)),
        StringStep::Done(Ok(text)) if text.is_empty()
    ));
    assert!(matches!(string_sized(Ok(8)), StringStep::Fill(8)));
    assert!(matches!(
        string_sized(Err(fault("no"))),
        StringStep::Done(Err(_))
    ));
    assert_eq!(string_filled(Ok(b"nt\0\0".to_vec())).unwrap(), "nt");
    assert!(string_filled(Err(fault("no"))).is_err());
}

#[test]
fn white_space_is_what_the_language_says_it_is() {
    for code in 0..=0x10ffff {
        if let Some(ch) = char::from_u32(code) {
            assert_eq!(is_white(ch), ch.is_whitespace(), "{code:#x}");
        }
    }
}

#[test]
fn a_whole_name_is_preferred_to_a_short_one() {
    let short = || "averylongname.".to_string();
    let audited = Some("averylongname.exe".to_string());
    assert_eq!(process_name(audited, short()), "averylongname.exe");
    assert_eq!(process_name(None, short()), "averylongname.");
}

#[test]
fn wide_text_reads_back() {
    for text in ["", "plain", "é\u{20ac}", "\u{1f600} pair"] {
        let wide = to_wide(text);
        let expected: Vec<u16> = text.encode_utf16().chain(Some(0)).collect();
        assert_eq!(wide, expected);
        assert_eq!(wide_to_string(&wide), text);
    }
    assert_eq!(wide_to_string(&[0x61, 0xd800, 0x62]), "a\u{fffd}b");
    assert_eq!(wide_to_string(&[0xdc00, 0xd83d, 0xde00, 0xd800]), "\u{fffd}\u{1f600}\u{fffd}");
    assert_eq!(wide_to_string(&[0xd800, 0xd83d, 0xde00]), "\u{fffd}\u{1f600}");
    assert_eq!(wide_to_string(&[0x61, 0, 0x62, 0xd800]), "a");
}

#[test]
fn text_is_escaped_and_checked_before_it_is_handed_over() {
    assert_eq!(escape_output("100% of 5%").unwrap(), "100%% of 5%%");
    assert!(matches!(
        escape_output("a\0b"),
        Err(DbgEngError::InvalidOutput)
    ));
    assert_eq!(output_control(false), 0);
    assert_eq!(output_control(true), 0x20);
    assert!(has_nul("a\0") && !has_nul("a"));
    assert!(check_command("k").is_ok());
    assert!(matches!(
        check_command("k\0"),
        Err(DbgEngError::InvalidCommand)
    ));
    assert_eq!(collapse_spaces("  a \t b\n"), "a b");
    assert_eq!(split_instruction(1, "").text, "");
}

#[test]
fn every_failure_says_what_it_is() {
    let no = || fault("no");
    for (error, text) in [
        (
            DbgEngError::ComInitFailed(no()),
            "Failed to initialize COM: no",
        ),
        (
            DbgEngError::CreateClientFailed(no()),
            "Failed to create debug client: no",
        ),
        (
            DbgEngError::GetControlFailed(no()),
            "Failed to get debug control: no",
        ),
        (
            DbgEngError::GetSymbolsFailed(no()),
            "Failed to get debug symbols: no",
        ),
        (
            DbgEngError::AttachFailed(no()),
            "Failed to attach to kernel: no",
        ),
        (DbgEngError::CommandFailed(no()), "Debug command failed: no"),
        (
            DbgEngError::SymbolPathFailed(no()),
            "Symbol path operation failed: no",
        ),
        (DbgEngError::BreakpointFailed(no()), "Breakpoint failed: no"),
        (DbgEngError::OperationFailed(no()), "Operation failed: no"),
        (
            DbgEngError::InvalidCommand,
            "Invalid command string (contains interior NUL)",
        ),
        (
            DbgEngError::InvalidOutput,
            "debugger text contains an interior NUL",
        ),
        (
            DbgEngError::ScopeFromAnotherTarget,
            "this scope was read from a target the engine no longer holds",
        ),
        (
            DbgEngError::LiveTargetTimeout,
            "the process did not join the session within the open timeout",
        ),
        (
            DbgEngError::LiveTargetInterrupted,
            "the open was interrupted before the process joined the session",
        ),
    ] {
        assert_eq!(error.to_text(), text);
        assert_eq!(error.duplicate().to_text(), text);
    }
    assert!(DbgEngError::NoDebuggee
        .to_text()
        .starts_with("No active debuggee"));
    assert!(DbgEngError::KernelBreakTimeout
        .to_text()
        .starts_with("kernel target did not break in"));
}
