//! Modules of a target, as the engine lists them.
use vstd::prelude::*;
use vstd::string::*;

use super::codes::{
    DEBUG_MODULE_UNLOADED, DEBUG_MODULE_USER_MODE, DEBUG_SYMTYPE_CODEVIEW, DEBUG_SYMTYPE_COFF,
    DEBUG_SYMTYPE_DEFERRED, DEBUG_SYMTYPE_DIA, DEBUG_SYMTYPE_EXPORT, DEBUG_SYMTYPE_NONE,
    DEBUG_SYMTYPE_PDB, DEBUG_SYMTYPE_SYM, E_INVALIDARG, E_NOINTERFACE,
};
use super::error::{in_context, DbgEngError, EngineFault};
use super::text::{
    before_nul, format_pdb_guid, guid_text, nul_terminated, utf16_lossy, utf8_lossy,
    wide_before_nul, wide_to_string, PdbGuid,
};
use crate::text::{hex, hex_text, joined};

verus! {

/// How much symbol information the engine has for a module.
#[derive(Debug, Clone, Copy, PartialEq, Eq, Structural, Hash)]
pub enum SymbolKind {
    /// No symbols at all.
    Absent,
    /// Symbols have not been loaded yet; the engine fetches them when something needs them.
    Deferred,
    Coff,
    CodeView,
    Pdb,
    /// Names taken from the image's export table.
    Export,
    Sym,
    Dia,
    /// A symbol type this build does not name, kept as the engine's own code.
    Other(u32),
}

impl SymbolKind {
    /// The kind an engine code stands for.
    pub open spec fn of_code(code: u32) -> SymbolKind {
        if code == DEBUG_SYMTYPE_NONE {
            SymbolKind::Absent
        } else if code == DEBUG_SYMTYPE_COFF {
            SymbolKind::Coff
        } else if code == DEBUG_SYMTYPE_CODEVIEW {
            SymbolKind::CodeView
        } else if code == DEBUG_SYMTYPE_PDB {
            SymbolKind::Pdb
        } else if code == DEBUG_SYMTYPE_EXPORT {
            SymbolKind::Export
        } else if code == DEBUG_SYMTYPE_DEFERRED {
            SymbolKind::Deferred
        } else if code == DEBUG_SYMTYPE_SYM {
            SymbolKind::Sym
        } else if code == DEBUG_SYMTYPE_DIA {
            SymbolKind::Dia
        } else {
            SymbolKind::Other(code)
        }
    }

    /// The kind an engine code stands for. A code without a name is kept rather than read as no
    /// symbols at all.
    pub fn from_engine(code: u32) -> (kind: SymbolKind)
        ensures
            kind == SymbolKind::of_code(code),
    {
        match code {
            DEBUG_SYMTYPE_NONE => SymbolKind::Absent,
            DEBUG_SYMTYPE_COFF => SymbolKind::Coff,
            DEBUG_SYMTYPE_CODEVIEW => SymbolKind::CodeView,
            DEBUG_SYMTYPE_PDB => SymbolKind::Pdb,
            DEBUG_SYMTYPE_EXPORT => SymbolKind::Export,
            DEBUG_SYMTYPE_DEFERRED => SymbolKind::Deferred,
            DEBUG_SYMTYPE_SYM => SymbolKind::Sym,
            DEBUG_SYMTYPE_DIA => SymbolKind::Dia,
            other => SymbolKind::Other(other),
        }
    }

    /// Whether this symbol provider exposes private type information suitable for allocator
    /// layout resolution.
    pub fn has_type_info(self) -> (has: bool)
        ensures
            has == (self is Pdb || self is Dia),
    {
        matches!(self, SymbolKind::Pdb | SymbolKind::Dia)
    }
}

impl Default for SymbolKind {
    fn default() -> (kind: SymbolKind)
        ensures
            kind == SymbolKind::Absent,
    {
        SymbolKind::Absent
    }
}

/// Symbol kinds lose no engine code: two codes have one kind only where they are one code.
pub proof fn symbol_kinds_are_told_apart(left: u32, right: u32)
    requires
        left != right,
    ensures
        SymbolKind::of_code(left) != SymbolKind::of_code(right),
{
}

/// One module.
#[derive(Debug, Clone, PartialEq, Eq)]
pub struct Module {
    pub base: u64,
    pub size: u32,
    /// The name symbols are qualified by. Empty for an unloaded module.
    pub name: String,
    /// The image's own name.
    pub image_name: String,
    /// The path the engine loaded the image from, where it has one.
    pub loaded_image_name: String,
    pub timestamp: u32,
    pub checksum: u32,
    pub symbols: SymbolKind,
    /// Whether this is a user-mode module.
    pub user_mode: bool,
    /// Whether this module has unloaded.
    pub unloaded: bool,
}

impl Module {
    /// One past the last byte of the image, or the last address where there is no such byte.
    pub fn end(&self) -> (end: u64)
        ensures
            end == if self.base + self.size <= u64::MAX {
                self.base + self.size
            } else {
                u64::MAX as int
            },
    {
        self.base.saturating_add(self.size as u64)
    }
}

/// What the engine says of a module apart from its names.
#[derive(Debug, Clone, Copy, PartialEq, Eq, Structural)]
pub struct ModuleParameters {
    pub base: u64,
    pub size: u32,
    pub timestamp: u32,
    pub checksum: u32,
    pub flags: u32,
    pub symbol_type: u32,
    pub module_name_size: u32,
    pub image_name_size: u32,
    pub loaded_image_name_size: u32,
}

/// The buffers the engine wrote a module's names into.
pub struct ModuleNames {
    pub name: Vec<u8>,
    pub image_name: Vec<u8>,
    pub loaded_image_name: Vec<u8>,
}

/// Room for a name whose size the engine does not say: an unloaded module has names and no sizes.
pub const MODULE_NAME_FALLBACK: usize = 260;

/// The room a name of a reported size takes.
pub open spec fn name_room(reported: u32) -> usize {
    if reported == 0 {
        MODULE_NAME_FALLBACK
    } else {
        reported as usize
    }
}

fn name_size(reported: u32) -> (size: usize)
    ensures
        size == name_room(reported),
{
    if reported == 0 {
        MODULE_NAME_FALLBACK
    } else {
        reported as usize
    }
}

/// How large the buffers for a module's names have to be: its name, its image's and that of the
/// file it was loaded from.
pub fn name_buffers(parameters: &ModuleParameters) -> (sizes: (usize, usize, usize))
    ensures
        sizes.0 == name_room(parameters.module_name_size),
        sizes.1 == name_room(parameters.image_name_size),
        sizes.2 == name_room(parameters.loaded_image_name_size),
{
    (
        name_size(parameters.module_name_size),
        name_size(parameters.image_name_size),
        name_size(parameters.loaded_image_name_size),
    )
}

/// Whether a module is the one of these parameters and names. One whose names cannot be read is
/// still a module, with empty names.
pub open spec fn describes(
    module: Module,
    parameters: ModuleParameters,
    names: Option<ModuleNames>,
) -> bool {
    let read = |of: spec_fn(ModuleNames) -> Seq<u8>|
        match names {
            Some(names) => utf8_lossy(before_nul(of(names))),
            None => Seq::<char>::empty(),
        };
    &&& module.base == parameters.base
    &&& module.size == parameters.size
    &&& module.name@ == read(|names: ModuleNames| names.name@)
    &&& module.image_name@ == read(|names: ModuleNames| names.image_name@)
    &&& module.loaded_image_name@ == read(|names: ModuleNames| names.loaded_image_name@)
    &&& module.timestamp == parameters.timestamp
    &&& module.checksum == parameters.checksum
    &&& module.symbols == SymbolKind::of_code(parameters.symbol_type)
    &&& module.user_mode == (parameters.flags & DEBUG_MODULE_USER_MODE != 0)
    &&& module.unloaded == (parameters.flags & DEBUG_MODULE_UNLOADED != 0)
}

/// The module of these parameters, with the names the engine wrote for it where it did.
pub fn named_module(parameters: &ModuleParameters, names: Option<ModuleNames>) -> (module: Module)
    ensures
        describes(module, *parameters, names),
{
    let (name, image_name, loaded_image_name) = match &names {
        Some(names) => (
            nul_terminated(names.name.as_slice()),
            nul_terminated(names.image_name.as_slice()),
            nul_terminated(names.loaded_image_name.as_slice()),
        ),
        None => (String::new(), String::new(), String::new()),
    };
    Module {
        base: parameters.base,
        size: parameters.size,
        name,
        image_name,
        loaded_image_name,
        timestamp: parameters.timestamp,
        checksum: parameters.checksum,
        symbols: SymbolKind::from_engine(parameters.symbol_type),
        user_mode: parameters.flags & DEBUG_MODULE_USER_MODE != 0,
        unloaded: parameters.flags & DEBUG_MODULE_UNLOADED != 0,
    }
}

/// Which of the engine's modules are meant: those of its one index space that are loaded, or the
/// tail it keeps of those that have unloaded.
#[derive(Debug, Clone, Copy, PartialEq, Eq, Structural)]
pub enum ModuleTable {
    Loaded,
    Unloaded,
}

impl ModuleTable {
    /// Where a table begins in the engine's index space, and how many modules it holds.
    pub open spec fn range(self, loaded: u32, unloaded: u32) -> (u32, u32) {
        match self {
            ModuleTable::Loaded => (0, loaded),
            ModuleTable::Unloaded => (loaded, unloaded),
        }
    }

    /// Whether an index of the engine's is in the table.
    pub open spec fn holds(self, loaded: u32, unloaded: u32, index: int) -> bool {
        let (start, count) = self.range(loaded, unloaded);
        start <= index < start + count
    }

    /// Where the table begins in the engine's index space, and how many modules it holds.
    pub fn indices(self, loaded: u32, unloaded: u32) -> (range: (u32, u32))
        ensures
            range == self.range(loaded, unloaded),
    {
        match self {
            ModuleTable::Loaded => (0, loaded),
            ModuleTable::Unloaded => (loaded, unloaded),
        }
    }
}

/// Every module the engine counts is in one of the two tables, and in one alone.
pub proof fn a_module_is_in_one_table(loaded: u32, unloaded: u32, index: int)
    ensures
        (ModuleTable::Loaded.holds(loaded, unloaded, index) || ModuleTable::Unloaded.holds(
            loaded,
            unloaded,
            index,
        )) <==> 0 <= index < loaded + unloaded,
        !(ModuleTable::Loaded.holds(loaded, unloaded, index) && ModuleTable::Unloaded.holds(
            loaded,
            unloaded,
            index,
        )),
{
}

/// What counting the target's modules came to: those loaded, and those unloaded.
pub fn module_counts(reply: Result<(u32, u32), EngineFault>) -> (counts: Result<
    (u32, u32),
    DbgEngError,
>)
    ensures
        match reply {
            Ok(value) => counts == Ok::<(u32, u32), DbgEngError>(value),
            Err(fault) => counts matches Err(error) && error.is_context(
                "counting the target's modules"@,
                fault,
            ),
        },
{
    in_context(String::from_str("counting the target's modules"), reply)
}

/// A walk over a range of the engine's modules, by index.
pub struct ModuleWalk {
    pub start: u32,
    pub parameters: Vec<ModuleParameters>,
    /// The modules named so far, each at its place in the range.
    pub named: Vec<Module>,
}

impl ModuleWalk {
    /// Whether no more modules are named than there are parameters, at indices the engine can
    /// have.
    pub open spec fn wf(&self) -> bool {
        &&& self.start + self.parameters@.len() <= u32::MAX + 1
        &&& self.named@.len() <= self.parameters@.len()
    }

    /// The index of the module to name next.
    pub open spec fn next_index(&self) -> Option<u32> {
        if self.named@.len() < self.parameters@.len() {
            Some((self.start + self.named@.len()) as u32)
        } else {
            None
        }
    }

    /// A walk over the modules the engine gave the parameters of, from an index on. They are read
    /// in one call, which fails as one.
    pub fn begin(start: u32, parameters: Result<Vec<ModuleParameters>, EngineFault>) -> (walk:
        Result<ModuleWalk, DbgEngError>)
        requires
            parameters matches Ok(parameters) ==> start + parameters@.len() <= u32::MAX + 1,
        ensures
            match parameters {
                Ok(parameters) => walk matches Ok(walk) && walk.wf() && walk.start == start
                    && walk.parameters == parameters && walk.named@ == Seq::<Module>::empty(),
                Err(fault) => walk matches Err(error) && error.is_context(
                    "reading module parameters"@,
                    fault,
                ),
            },
    {
        match parameters {
            Ok(parameters) => Ok(ModuleWalk { start, parameters, named: Vec::new() }),
            Err(source) => Err(
                DbgEngError::Context {
                    operation: String::from_str("reading module parameters"),
                    source,
                },
            ),
        }
    }

    /// The index of the module to name next and its parameters, or `None` where every module is
    /// named.
    pub fn next(&self) -> (next: Option<(u32, ModuleParameters)>)
        requires
            self.wf(),
        ensures
            next is Some == self.next_index() is Some,
            next matches Some((index, parameters)) ==> Some(index) == self.next_index()
                && parameters == self.parameters@[self.named@.len() as int],
    {
        let at: usize = self.named.len();
        let total: usize = self.parameters.len();
        if at < total {
            Some((self.start + at as u32, self.parameters[at]))
        } else {
            None
        }
    }

    /// Takes the names of the module asked for, where the engine could say them.
    pub fn take(&mut self, names: Option<ModuleNames>)
        requires
            old(self).wf(),
            old(self).next_index() is Some,
        ensures
            final(self).wf(),
            final(self).start == old(self).start,
            final(self).parameters == old(self).parameters,
            final(self).named@.len() == old(self).named@.len() + 1,
            final(self).named@.drop_last() == old(self).named@,
            describes(
                final(self).named@.last(),
                old(self).parameters@[old(self).named@.len() as int],
                names,
            ),
    {
        let parameters = self.parameters[self.named.len()];
        let module = named_module(&parameters, names);
        self.named.push(module);
        assert(self.named@.drop_last() =~= old(self).named@);
    }
}

/// What locating a module by its name came to: its index and its base.
pub fn located_by_name(name: &str, reply: Result<(u32, u64), EngineFault>) -> (located: Result<
    (u32, u64),
    DbgEngError,
>)
    ensures
        match reply {
            Ok(value) => located == Ok::<(u32, u64), DbgEngError>(value),
            Err(fault) => located matches Err(error) && error.is_context(
                "locating module "@ + name@,
                fault,
            ),
        },
{
    in_context(joined("locating module ", name), reply)
}

/// What reading the parameters of the module at a base came to.
pub fn parameters_of(base: u64, reply: Result<ModuleParameters, EngineFault>) -> (parameters:
    Result<ModuleParameters, DbgEngError>)
    ensures
        match reply {
            Ok(value) => parameters == Ok::<ModuleParameters, DbgEngError>(value),
            Err(fault) => parameters matches Err(error) && error.is_context(
                "reading parameters of module at "@ + hex_text(base as nat),
                fault,
            ),
        },
{
    in_context(joined("reading parameters of module at ", hex(base).as_str()), reply)
}

/// Whether the engine says that no module holds an offset.
pub open spec fn holds_none(fault: EngineFault) -> bool {
    fault.code == E_INVALIDARG || fault.code == E_NOINTERFACE
}

/// What locating the module at an address came to: its index, or `None` where no loaded module
/// holds the address. A lookup that fails otherwise says nothing of the address.
pub fn located_at(address: u64, reply: Result<u32, EngineFault>) -> (located: Result<
    Option<u32>,
    DbgEngError,
>)
    ensures
        match reply {
            Ok(index) => located == Ok::<Option<u32>, DbgEngError>(Some(index)),
            Err(fault) => if holds_none(fault) {
                located == Ok::<Option<u32>, DbgEngError>(None)
            } else {
                located matches Err(error) && error.is_context(
                    "locating the module holding "@ + hex_text(address as nat),
                    fault,
                )
            },
        },
{
    match reply {
        Ok(index) => Ok(Some(index)),
        Err(source) => if source.code == E_INVALIDARG || source.code == E_NOINTERFACE {
            Ok(None)
        } else {
            Err(
                DbgEngError::Context {
                    operation: joined("locating the module holding ", hex(address).as_str()),
                    source,
                },
            )
        },
    }
}

/// What reading the parameters of the module that holds an address came to.
pub fn parameters_at(address: u64, reply: Result<ModuleParameters, EngineFault>) -> (parameters:
    Result<ModuleParameters, DbgEngError>)
    ensures
        match reply {
            Ok(value) => parameters == Ok::<ModuleParameters, DbgEngError>(value),
            Err(fault) => parameters matches Err(error) && error.is_context(
                "reading the parameters of the module at "@ + hex_text(address as nat),
                fault,
            ),
        },
{
    in_context(joined("reading the parameters of the module at ", hex(address).as_str()), reply)
}

/// What reading the symbol file of a module came to.
pub fn module_symbol_file(base: u64, reply: Result<String, EngineFault>) -> (file: Result<
    String,
    DbgEngError,
>)
    ensures
        match reply {
            Ok(value) => file == Ok::<String, DbgEngError>(value),
            Err(fault) => file matches Err(error) && error.is_context(
                "reading the symbol file for module at "@ + hex_text(base as nat),
                fault,
            ),
        },
{
    in_context(joined("reading the symbol file for module at ", hex(base).as_str()), reply)
}

/// Which PDB the engine has for a module, in the form a symbol server is keyed by.
#[derive(Debug, Clone, PartialEq, Eq)]
pub struct PdbIdentity {
    /// The signature as a symbol server path spells it.
    pub guid: String,
    /// The age, which the same path appends to the signature.
    pub age: u32,
    /// Whether the engine matched a PDB that does not belong to this image.
    pub unmatched: bool,
    /// The file the engine loaded. Empty when it has none.
    pub file: String,
}

/// What the engine says of a module's PDB.
pub struct PdbRecord {
    pub signature: PdbGuid,
    pub age: u32,
    pub unmatched: bool,
    /// The buffer the engine wrote the loaded file's name into.
    pub file: Vec<u16>,
}

/// Whether a signature is none: the engine fills the record and leaves it zero.
pub open spec fn unsigned(guid: PdbGuid) -> bool {
    guid.data1 == 0 && guid.data2 == 0 && guid.data3 == 0 && forall|i: int|
        0 <= i < 8 ==> guid.data4@[i] == 0
}

fn is_unsigned(guid: &PdbGuid) -> (is: bool)
    ensures
        is == unsigned(*guid),
{
    let mut i: usize = 0;
    while i < 8
        invariant
            i <= 8,
            forall|j: int| 0 <= j < i ==> guid.data4@[j] == 0,
        decreases 8 - i,
    {
        if guid.data4[i] != 0 {
            return false;
        }
        i += 1;
    }
    guid.data1 == 0 && guid.data2 == 0 && guid.data3 == 0
}

/// The PDB identity of the module at `base`, or `None` where the engine has no signature for it.
/// A call that fails is not an engine that has none.
pub fn module_pdb(base: u64, reply: Result<PdbRecord, EngineFault>) -> (identity: Result<
    Option<PdbIdentity>,
    DbgEngError,
>)
    ensures
        match reply {
            Err(fault) => identity matches Err(error) && error.is_context(
                "reading the PDB identity of the module at "@ + hex_text(base as nat),
                fault,
            ),
            Ok(record) => if unsigned(record.signature) {
                identity == Ok::<Option<PdbIdentity>, DbgEngError>(None)
            } else {
                &&& identity matches Ok(Some(identity))
                &&& identity.guid@ == guid_text(record.signature)
                &&& identity.age == record.age
                &&& identity.unmatched == record.unmatched
                &&& identity.file@ == utf16_lossy(wide_before_nul(record.file@))
            },
        },
{
    let record = match reply {
        Ok(record) => record,
        Err(source) => return Err(
            DbgEngError::Context {
                operation: joined(
                    "reading the PDB identity of the module at ",
                    hex(base).as_str(),
                ),
                source,
            },
        ),
    };
    if is_unsigned(&record.signature) {
        return Ok(None);
    }
    Ok(
        Some(
            PdbIdentity {
                guid: format_pdb_guid(&record.signature),
                age: record.age,
                unmatched: record.unmatched,
                file: wide_to_string(record.file.as_slice()),
            },
        ),
    )
}

/// Stable identity and symbol provenance for one loaded image.
#[derive(Debug, Clone, PartialEq, Eq, Hash)]
pub struct ModuleIdentity {
    pub name: String,
    pub image_name: String,
    pub loaded_image_name: String,
    pub symbol_file: String,
    pub symbols: SymbolKind,
    pub base: u64,
    pub size: u32,
    pub timestamp: u32,
    pub checksum: u32,
}

impl ModuleIdentity {
    /// The same identity again.
    pub fn duplicate(&self) -> (identity: ModuleIdentity)
        ensures
            identity == *self,
    {
        ModuleIdentity {
            name: self.name.clone(),
            image_name: self.image_name.clone(),
            loaded_image_name: self.loaded_image_name.clone(),
            symbol_file: self.symbol_file.clone(),
            symbols: self.symbols,
            base: self.base,
            size: self.size,
            timestamp: self.timestamp,
            checksum: self.checksum,
        }
    }
}

/// The identity of a module, with the symbol file the engine selected for it.
pub fn module_identity(module: Module, symbol_file: String) -> (identity: ModuleIdentity)
    ensures
        identity == (ModuleIdentity {
            name: module.name,
            image_name: module.image_name,
            loaded_image_name: module.loaded_image_name,
            symbol_file,
            symbols: module.symbols,
            base: module.base,
            size: module.size,
            timestamp: module.timestamp,
            checksum: module.checksum,
        }),
{
    ModuleIdentity {
        name: module.name,
        image_name: module.image_name,
        loaded_image_name: module.loaded_image_name,
        symbol_file,
        symbols: module.symbols,
        base: module.base,
        size: module.size,
        timestamp: module.timestamp,
        checksum: module.checksum,
    }
}

/// The kernel image a target is running: where it is loaded, and which build it is.
#[derive(Debug, Clone, Copy, PartialEq, Eq, Structural, Hash)]
pub struct KernelImage {
    pub base: u64,
    pub size: u32,
    pub timestamp: u32,
    pub checksum: u32,
}

/// What discovering the kernel's base came to.
pub fn kernel_base(reply: Result<u64, EngineFault>) -> (base: Result<u64, DbgEngError>)
    ensures
        match reply {
            Ok(value) => base == Ok::<u64, DbgEngError>(value),
            Err(fault) => base matches Err(error) && error.is_context(
                "discovering the nt kernel base"@,
                fault,
            ),
        },
{
    in_context(String::from_str("discovering the nt kernel base"), reply)
}

/// The kernel image at `base`, from the parameters the engine gives for it.
pub fn kernel_image(base: u64, reply: Result<ModuleParameters, EngineFault>) -> (image: Result<
    KernelImage,
    DbgEngError,
>)
    ensures
        match reply {
            Ok(parameters) => image == Ok::<KernelImage, DbgEngError>(
                KernelImage {
                    base,
                    size: parameters.size,
                    timestamp: parameters.timestamp,
                    checksum: parameters.checksum,
                },
            ),
            Err(fault) => image matches Err(error) && error.is_context(
                "reading the parameters of the kernel image at "@ + hex_text(base as nat),
                fault,
            ),
        },
{
    match reply {
        Ok(parameters) => Ok(
            KernelImage {
                base,
                size: parameters.size,
                timestamp: parameters.timestamp,
                checksum: parameters.checksum,
            },
        ),
        Err(source) => Err(
            DbgEngError::Context {
                operation: joined(
                    "reading the parameters of the kernel image at ",
                    hex(base).as_str(),
                ),
                source,
            },
        ),
    }
}

/// Each engine code has the kind of its own name: a kind says which of the engine's symbol types
/// a module has, and a code without a name is told as itself.
pub proof fn each_symbol_code_has_its_own_kind(code: u32)
    ensures
        SymbolKind::of_code(code) is Absent <==> code == DEBUG_SYMTYPE_NONE,
        SymbolKind::of_code(code) is Coff <==> code == DEBUG_SYMTYPE_COFF,
        SymbolKind::of_code(code) is CodeView <==> code == DEBUG_SYMTYPE_CODEVIEW,
        SymbolKind::of_code(code) is Pdb <==> code == DEBUG_SYMTYPE_PDB,
        SymbolKind::of_code(code) is Export <==> code == DEBUG_SYMTYPE_EXPORT,
        SymbolKind::of_code(code) is Deferred <==> code == DEBUG_SYMTYPE_DEFERRED,
        SymbolKind::of_code(code) is Sym <==> code == DEBUG_SYMTYPE_SYM,
        SymbolKind::of_code(code) is Dia <==> code == DEBUG_SYMTYPE_DIA,
        SymbolKind::of_code(code) matches SymbolKind::Other(kept) ==> kept == code && code
            > DEBUG_SYMTYPE_DIA,
{
}

/// A module is what its parameters and its names say, each field by the parameter of its own name:
/// where it lies, which build it is, and what its flags say of it.
pub proof fn a_module_is_what_the_engine_says(
    module: Module,
    parameters: ModuleParameters,
    names: Option<ModuleNames>,
)
    requires
        describes(module, parameters, names),
    ensures
        module.base == parameters.base,
        module.size == parameters.size,
        module.timestamp == parameters.timestamp,
        module.checksum == parameters.checksum,
        module.symbols is Export <==> parameters.symbol_type == DEBUG_SYMTYPE_EXPORT,
        module.symbols is Pdb <==> parameters.symbol_type == DEBUG_SYMTYPE_PDB,
        module.symbols is Dia <==> parameters.symbol_type == DEBUG_SYMTYPE_DIA,
        module.symbols is Deferred <==> parameters.symbol_type == DEBUG_SYMTYPE_DEFERRED,
        module.symbols is Absent <==> parameters.symbol_type == DEBUG_SYMTYPE_NONE,
        module.user_mode <==> parameters.flags & 2 != 0,
        module.unloaded <==> parameters.flags & 1 != 0,
        names matches Some(names) ==> {
            &&& module.name@ == utf8_lossy(before_nul(names.name@))
            &&& module.image_name@ == utf8_lossy(before_nul(names.image_name@))
            &&& module.loaded_image_name@ == utf8_lossy(before_nul(names.loaded_image_name@))
        },
        names is None ==> module.name@.len() == 0 && module.image_name@.len() == 0
            && module.loaded_image_name@.len() == 0,
{
}

/// A name has room for as many bytes as the engine says it takes, and for a path where the engine
/// does not say.
pub proof fn a_name_has_room(reported: u32)
    ensures
        name_room(reported) > 0,
        reported > 0 ==> name_room(reported) == reported,
        reported == 0 ==> name_room(reported) == 260,
{
}

/// The loaded modules come first in the engine's index space and the unloaded ones behind them,
/// and a walk over a table names each of them at its own index, in order.
pub proof fn a_table_is_walked_in_place(walk: ModuleWalk, loaded: u32, unloaded: u32, index: int)
    ensures
        ModuleTable::Loaded.holds(loaded, unloaded, index) <==> 0 <= index < loaded,
        ModuleTable::Unloaded.holds(loaded, unloaded, index) <==> loaded <= index < loaded
            + unloaded,
        walk.wf() ==> (walk.next_index() is None <==> walk.named@.len() == walk.parameters@.len()),
        walk.wf() && walk.next_index() is Some ==> walk.next_index()->0 - walk.start
            == walk.named@.len(),
{
}

/// Two answers alone say that no module holds an address. Any other failure says nothing of it.
pub proof fn two_answers_say_no_module(fault: EngineFault)
    ensures
        holds_none(fault) <==> fault.code == E_INVALIDARG || fault.code == E_NOINTERFACE,
        fault.code == super::codes::E_FAIL ==> !holds_none(fault),
{
}

/// A signature is none only where no part of it says anything.
pub proof fn a_signature_that_says_something_is_one(guid: PdbGuid, i: int)
    requires
        0 <= i < 8,
    ensures
        guid.data1 != 0 || guid.data2 != 0 || guid.data3 != 0 || guid.data4@[i] != 0 ==> !unsigned(
            guid,
        ),
        !unsigned(guid) ==> guid.data1 != 0 || guid.data2 != 0 || guid.data3 != 0 || exists|j: int|
            0 <= j < 8 && guid.data4@[j] != 0,
{
}

} // verus!
