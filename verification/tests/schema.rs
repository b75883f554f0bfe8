use dbgscope::dbgeng::error::{DbgEngError, EngineFault};
use dbgscope::dbgeng::module::{KernelImage, Module, ModuleIdentity, SymbolKind};
use dbgscope::heap::roots::MemoryReply;
use dbgscope::heap::schema::{
    image_range, snapshot_key, SchemaAsk, SchemaReply, SchemaSearch,
};
use dbgscope::heap::target::{LayoutError, ValidatedTarget};
use dbgscope::heap::types::{HeapQueryError, LayoutProvenance};

const NTDLL: u64 = 0x7ff8_0000_0000;

fn ntdll() -> Module {
    Module {
        base: NTDLL,
        size: 0x20_0000,
        name: "ntdll".to_string(),
        image_name: "ntdll.dll".to_string(),
        loaded_image_name: "ntdll.dll".to_string(),
        timestamp: 0x1234,
        checksum: 0x5678,
        symbols: SymbolKind::Pdb,
        unloaded: false,
        user_mode: true,
    }
}

fn image() -> KernelImage {
    KernelImage {
        base: NTDLL,
        size: 0x20_0000,
        timestamp: 0x1234,
        checksum: 0x5678,
    }
}

fn identity(symbols: SymbolKind, symbol_file: &str) -> ModuleIdentity {
    ModuleIdentity {
        name: "ntdll".to_string(),
        image_name: "ntdll.dll".to_string(),
        loaded_image_name: "ntdll.dll".to_string(),
        symbol_file: symbol_file.to_string(),
        symbols,
        base: NTDLL,
        size: 0x20_0000,
        timestamp: 0x1234,
        checksum: 0x5678,
    }
}

fn engine_failure() -> DbgEngError {
    DbgEngError::OperationFailed(EngineFault {
        code: -1,
        text: "no such thing".to_string(),
    })
}

fn go_on(search: SchemaSearch) -> SchemaSearch {
    assert_eq!(search.ask(), SchemaAsk::Poll);
    search.take(SchemaReply::Poll(Ok(())))
}

fn at_identity() -> SchemaSearch {
    let search = go_on(SchemaSearch::new());
    assert_eq!(search.ask(), SchemaAsk::Module);
    let search = go_on(search.take(SchemaReply::Module(Ok(ntdll()))));
    assert_eq!(search.ask(), SchemaAsk::Layout { image: image() });
    let search = go_on(search.take(SchemaReply::Layout(Ok(()))));
    assert_eq!(search.ask(), SchemaAsk::Identity);
    search
}

fn resolved() -> SchemaSearch {
    let search = at_identity();
    let private = identity(SymbolKind::Pdb, "ntdll.pdb");
    let search = go_on(search.take(SchemaReply::Identity(Ok(private.clone()))));
    assert_eq!(search.ask(), SchemaAsk::Provenance);
    search.take(SchemaReply::Provenance(Ok(LayoutProvenance {
        module: private,
    })))
}

fn at_read() -> SchemaSearch {
    let search = go_on(resolved());
    assert_eq!(search.ask(), SchemaAsk::TebType { ntdll: NTDLL });
    let search = search.take(SchemaReply::TebType(Ok(9)));
    assert_eq!(
        search.ask(),
        SchemaAsk::TebField {
            ntdll: NTDLL,
            teb_type: 9
        }
    );
    let search = go_on(search.take(SchemaReply::TebField(Ok(0x180c))));
    assert_eq!(search.ask(), SchemaAsk::Teb);
    let search = search.take(SchemaReply::Teb(Ok(0x1000_0000)));
    assert_eq!(
        search.ask(),
        SchemaAsk::Read {
            address: 0x1000_180c
        }
    );
    search
}

fn failure(search: SchemaSearch) -> String {
    assert_eq!(search.ask(), SchemaAsk::Nothing);
    match search {
        SchemaSearch::Failed(error) => error.to_text(),
        _ => panic!("the search did not fail"),
    }
}

#[test]
fn a_native_process_has_a_schema() {
    let search = at_read().take(SchemaReply::Read(MemoryReply::Bytes(vec![0; 4])));
    assert_eq!(search.ask(), SchemaAsk::Nothing);
    match search {
        SchemaSearch::Done(schema) => {
            assert_eq!(schema.image, image());
            assert_eq!(schema.provenance.module.symbol_file, "ntdll.pdb");
        }
        _ => panic!("the search did not end with a schema"),
    }
}

#[test]
fn a_wow64_process_is_refused_by_its_own_offset() {
    let search = at_read().take(SchemaReply::Read(MemoryReply::Bytes(vec![0, 0x20, 0, 0])));
    match search {
        SchemaSearch::Failed(HeapQueryError::Wow64Process { wow_teb_offset }) => {
            assert_eq!(wow_teb_offset, 0x2000);
        }
        _ => panic!("the process was not refused"),
    }
}

#[test]
fn a_request_outranks_the_answer_before_it() {
    let search = go_on(SchemaSearch::new());
    let search = search.take(SchemaReply::Module(Err(engine_failure())));
    let search = search.take(SchemaReply::Poll(Err(LayoutError::Interrupted)));
    assert!(matches!(
        search,
        SchemaSearch::Failed(HeapQueryError::Interrupted)
    ));

    let search = at_identity();
    let search = search.take(SchemaReply::Identity(Ok(identity(SymbolKind::Export, ""))));
    let search = search.take(SchemaReply::Poll(Err(LayoutError::BudgetExpired)));
    assert!(matches!(
        search,
        SchemaSearch::Failed(HeapQueryError::BudgetExpired)
    ));
}

#[test]
fn a_failing_query_is_told_once_nothing_outranks_it() {
    let search = go_on(SchemaSearch::new());
    let search = go_on(search.take(SchemaReply::Module(Err(engine_failure()))));
    assert!(matches!(
        search,
        SchemaSearch::Failed(HeapQueryError::Engine(DbgEngError::OperationFailed(_)))
    ));
}

#[test]
fn symbols_without_types_are_no_schema() {
    for (symbols, file) in [(SymbolKind::Export, "ntdll.dll"), (SymbolKind::Pdb, "")] {
        let search = at_identity();
        let search = go_on(search.take(SchemaReply::Identity(Ok(identity(symbols, file)))));
        match search {
            SchemaSearch::Failed(HeapQueryError::Layout(why)) => assert_eq!(
                why,
                "DbgEng did not load private PDB type information for ntdll"
            ),
            _ => panic!("the symbols were taken"),
        }
    }
}

#[test]
fn a_missing_teb_field_names_itself() {
    let search = go_on(resolved());
    let search = search.take(SchemaReply::TebType(Err(engine_failure())));
    let why = failure(search);
    assert!(why.contains("ntdll's _TEB.WowTebOffset"));
    assert!(why.contains("no such thing"));
}

#[test]
fn a_null_teb_is_not_read() {
    let search = go_on(resolved());
    let search = search.take(SchemaReply::TebType(Ok(9)));
    let search = go_on(search.take(SchemaReply::TebField(Ok(0x180c))));
    let search = search.take(SchemaReply::Teb(Ok(0)));
    assert!(matches!(
        search,
        SchemaSearch::Failed(HeapQueryError::InvalidTeb(_))
    ));
}

#[test]
fn a_snapshot_is_kept_under_its_target_and_its_image() {
    let target = ValidatedTarget {
        target: 7,
        process_system_id: 100,
        peb: 0x7fff_0000_1000,
        generation: 3,
    };
    let key = snapshot_key(&target, image(), Some(0x10000));
    assert_eq!(key.target, 7);
    assert_eq!(key.process_system_id, 100);
    assert_eq!(key.peb, 0x7fff_0000_1000);
    assert_eq!(key.image, image());
    assert_eq!(key.generation, 3);
    assert_eq!(key.heap, Some(0x10000));
}

#[test]
fn an_image_range_saturates() {
    assert_eq!(image_range(&image()), (NTDLL, NTDLL + 0x20_0000));
    let high = KernelImage {
        base: u64::MAX - 1,
        ..image()
    };
    assert_eq!(image_range(&high), (u64::MAX - 1, u64::MAX));
}
