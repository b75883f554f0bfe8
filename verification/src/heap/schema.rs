//! Finding the allocator layout a walk decodes with, and refusing a process whose own heaps it
//! does not decode, one engine query at a time.
//!
//! A query can block on symbols, so the engine is polled between queries: a request to stop and a
//! budget that has run out both outrank whatever the query before them answered.
use vstd::prelude::*;

use super::roots::MemoryReply;
use super::target::{
    map_layout_error, missing_wow_field, outranked, require_type_info, wow_field, wow_refusal,
    wow_teb_field, wow_teb_offset, LayoutError, ValidatedTarget,
};
use super::snapshot::SnapshotKey;
use super::types::{HeapQueryError, LayoutProvenance, QueryErrorView};
use crate::dbgeng::error::DbgEngError;
use crate::dbgeng::module::{KernelImage, Module, ModuleIdentity};

verus! {

/// What is asked next.
#[derive(Debug, Clone, Copy, PartialEq, Eq, Structural)]
pub enum SchemaAsk {
    /// Whether to go on.
    Poll,
    /// The `ntdll` module.
    Module,
    /// The layout of this image.
    Layout { image: KernelImage },
    /// The identity of `ntdll`, now that its types were asked for.
    Identity,
    /// Where the layout came from.
    Provenance,
    /// The type of a thread's environment block.
    TebType { ntdll: u64 },
    /// Where that type keeps its `WowTebOffset`.
    TebField { ntdll: u64, teb_type: u32 },
    /// The current thread's environment block.
    Teb,
    /// Four bytes of it.
    Read { address: u64 },
    /// Nothing: the schema is found, or is not to be had.
    Nothing,
}

/// What the engine answers.
pub enum SchemaReply {
    Poll(Result<(), LayoutError>),
    Module(Result<Module, DbgEngError>),
    Layout(Result<(), LayoutError>),
    Identity(Result<ModuleIdentity, DbgEngError>),
    Provenance(Result<LayoutProvenance, LayoutError>),
    TebType(Result<u32, DbgEngError>),
    TebField(Result<u32, DbgEngError>),
    Teb(Result<u64, DbgEngError>),
    Read(MemoryReply),
}

/// The layout of an image, and where it came from.
pub struct Schema {
    pub image: KernelImage,
    pub provenance: LayoutProvenance,
}

/// How far the search has come.
pub enum SchemaSearch {
    /// Nothing was asked.
    Start,
    Module,
    /// The module is known, and the engine is to be polled.
    AfterModule(Result<Module, DbgEngError>),
    Layout { image: KernelImage },
    AfterLayout { image: KernelImage },
    Identity { image: KernelImage },
    AfterIdentity { image: KernelImage, identity: Result<ModuleIdentity, DbgEngError> },
    Provenance { image: KernelImage, module: ModuleIdentity },
    /// The layout is found. Whether the process is a native one is still to be asked.
    Resolved { schema: Schema },
    TebType { schema: Schema },
    TebField { schema: Schema, teb_type: u32 },
    AfterField { schema: Schema, offset: u32 },
    Teb { schema: Schema, offset: u32 },
    Read { schema: Schema, field: u64 },
    Done(Schema),
    Failed(HeapQueryError),
}

/// What ends a search.
pub open spec fn ended_by(error: LayoutError) -> QueryErrorView {
    match error {
        LayoutError::Interrupted => QueryErrorView::Interrupted,
        LayoutError::BudgetExpired => QueryErrorView::BudgetExpired,
        LayoutError::Other(why) => QueryErrorView::Layout(why@),
    }
}

/// The image a module is.
pub open spec fn image_of(module: Module) -> KernelImage {
    KernelImage {
        base: module.base,
        size: module.size,
        timestamp: module.timestamp,
        checksum: module.checksum,
    }
}

/// Whether the engine has private type information for a module, from a file it can name.
pub open spec fn typed(module: ModuleIdentity) -> bool {
    (module.symbols is Pdb || module.symbols is Dia) && module.symbol_file@.len() > 0
}

impl SchemaSearch {
    /// Whether the search failed with this error.
    pub open spec fn failed_with(self, error: QueryErrorView) -> bool {
        self matches SchemaSearch::Failed(failure) && failure@ == error
    }

    /// What is asked next.
    pub open spec fn asks(self) -> SchemaAsk {
        match self {
            SchemaSearch::Start | SchemaSearch::AfterModule(_) | SchemaSearch::AfterLayout { .. }
            | SchemaSearch::AfterIdentity { .. } | SchemaSearch::Resolved { .. }
            | SchemaSearch::AfterField { .. } => SchemaAsk::Poll,
            SchemaSearch::Module => SchemaAsk::Module,
            SchemaSearch::Layout { image } => SchemaAsk::Layout { image },
            SchemaSearch::Identity { .. } => SchemaAsk::Identity,
            SchemaSearch::Provenance { .. } => SchemaAsk::Provenance,
            SchemaSearch::TebType { schema } => SchemaAsk::TebType { ntdll: schema.image.base },
            SchemaSearch::TebField { schema, teb_type } => SchemaAsk::TebField {
                ntdll: schema.image.base,
                teb_type,
            },
            SchemaSearch::Teb { .. } => SchemaAsk::Teb,
            SchemaSearch::Read { field, .. } => SchemaAsk::Read { address: field },
            SchemaSearch::Done(_) | SchemaSearch::Failed(_) => SchemaAsk::Nothing,
        }
    }

    /// Whether a reply answers what is asked.
    pub open spec fn answered_by(self, reply: SchemaReply) -> bool {
        match self.asks() {
            SchemaAsk::Poll => reply is Poll,
            SchemaAsk::Module => reply is Module,
            SchemaAsk::Layout { .. } => reply is Layout,
            SchemaAsk::Identity => reply is Identity,
            SchemaAsk::Provenance => reply is Provenance,
            SchemaAsk::TebType { .. } => reply is TebType,
            SchemaAsk::TebField { .. } => reply is TebField,
            SchemaAsk::Teb => reply is Teb,
            SchemaAsk::Read { .. } => reply is Read,
            SchemaAsk::Nothing => false,
        }
    }

    /// Whether a poll lets the search go on, and where it leaves it where it does not.
    pub open spec fn polled(poll: Result<(), LayoutError>, after: SchemaSearch, on: bool) -> bool {
        match poll {
            Err(error) => after.failed_with(ended_by(error)),
            Ok(_) => on,
        }
    }

    /// Whether the search is at `after` once a reply is taken.
    pub open spec fn leads_to(self, reply: SchemaReply, after: SchemaSearch) -> bool {
        match (self, reply) {
            (SchemaSearch::Start, SchemaReply::Poll(poll)) => Self::polled(
                poll,
                after,
                after is Module,
            ),
            (SchemaSearch::Module, SchemaReply::Module(module)) => after
                == SchemaSearch::AfterModule(module),
            (SchemaSearch::AfterModule(module), SchemaReply::Poll(poll)) => Self::polled(
                poll,
                after,
                match module {
                    Ok(module) => after == (SchemaSearch::Layout { image: image_of(module) }),
                    Err(error) => after.failed_with(QueryErrorView::Engine(error)),
                },
            ),
            (SchemaSearch::Layout { image }, SchemaReply::Layout(layout)) => match layout {
                Ok(_) => after == (SchemaSearch::AfterLayout { image }),
                Err(error) => after.failed_with(ended_by(error)),
            },
            (SchemaSearch::AfterLayout { image }, SchemaReply::Poll(poll)) => Self::polled(
                poll,
                after,
                after == (SchemaSearch::Identity { image }),
            ),
            (SchemaSearch::Identity { image }, SchemaReply::Identity(identity)) => after == (
            SchemaSearch::AfterIdentity { image, identity }),
            (SchemaSearch::AfterIdentity { image, identity }, SchemaReply::Poll(poll)) =>
                Self::polled(
                poll,
                after,
                match identity {
                    Err(error) => after.failed_with(QueryErrorView::Engine(error)),
                    Ok(module) => if typed(module) {
                        after == (SchemaSearch::Provenance { image, module })
                    } else {
                        after.failed_with(
                            QueryErrorView::Layout(
                                "DbgEng did not load private PDB type information for ntdll"@,
                            ),
                        )
                    },
                },
            ),
            (SchemaSearch::Provenance { image, .. }, SchemaReply::Provenance(provenance)) =>
                match provenance {
                Ok(provenance) => after == (SchemaSearch::Resolved {
                    schema: Schema { image, provenance },
                }),
                Err(error) => after.failed_with(ended_by(error)),
            },
            (SchemaSearch::Resolved { schema }, SchemaReply::Poll(poll)) => Self::polled(
                poll,
                after,
                after == (SchemaSearch::TebType { schema }),
            ),
            (SchemaSearch::TebType { schema }, SchemaReply::TebType(teb_type)) => match teb_type {
                Ok(teb_type) => after == (SchemaSearch::TebField { schema, teb_type }),
                Err(error) => after.failed_with(no_wow_field(error)),
            },
            (SchemaSearch::TebField { schema, .. }, SchemaReply::TebField(offset)) =>
                match offset {
                Ok(offset) => after == (SchemaSearch::AfterField { schema, offset }),
                Err(error) => after.failed_with(no_wow_field(error)),
            },
            (SchemaSearch::AfterField { schema, offset }, SchemaReply::Poll(poll)) => Self::polled(
                poll,
                after,
                after == (SchemaSearch::Teb { schema, offset }),
            ),
            (SchemaSearch::Teb { schema, offset }, SchemaReply::Teb(teb)) => match teb {
                Err(error) => after.failed_with(QueryErrorView::Engine(error)),
                Ok(teb) => match wow_field(teb, offset as u64) {
                    Ok(field) => after == (SchemaSearch::Read { schema, field }),
                    Err(error) => after.failed_with(error),
                },
            },
            (SchemaSearch::Read { schema, field }, SchemaReply::Read(bytes)) => match wow_refusal(
                field,
                bytes@,
            ) {
                Some(error) => after.failed_with(error),
                None => after == SchemaSearch::Done(schema),
            },
            _ => false,
        }
    }
}

/// What is said of symbols that do not say where a thread keeps its `WowTebOffset`.
pub open spec fn no_wow_field(error: DbgEngError) -> QueryErrorView {
    QueryErrorView::Layout(
        "ntdll's _TEB.WowTebOffset, which says whether this is a WoW64 process: "@
            + error.message(),
    )
}

impl SchemaSearch {
    /// A search that has asked nothing yet.
    pub fn new() -> (search: SchemaSearch)
        ensures
            search is Start,
    {
        SchemaSearch::Start
    }

    /// What to ask next.
    pub fn ask(&self) -> (ask: SchemaAsk)
        ensures
            ask == self.asks(),
    {
        match self {
            SchemaSearch::Start
            | SchemaSearch::AfterModule(_)
            | SchemaSearch::AfterLayout { .. }
            | SchemaSearch::AfterIdentity { .. }
            | SchemaSearch::Resolved { .. }
            | SchemaSearch::AfterField { .. } => SchemaAsk::Poll,
            SchemaSearch::Module => SchemaAsk::Module,
            SchemaSearch::Layout { image } => SchemaAsk::Layout { image: *image },
            SchemaSearch::Identity { .. } => SchemaAsk::Identity,
            SchemaSearch::Provenance { .. } => SchemaAsk::Provenance,
            SchemaSearch::TebType { schema } => SchemaAsk::TebType { ntdll: schema.image.base },
            SchemaSearch::TebField { schema, teb_type } => SchemaAsk::TebField {
                ntdll: schema.image.base,
                teb_type: *teb_type,
            },
            SchemaSearch::Teb { .. } => SchemaAsk::Teb,
            SchemaSearch::Read { field, .. } => SchemaAsk::Read { address: *field },
            SchemaSearch::Done(_) | SchemaSearch::Failed(_) => SchemaAsk::Nothing,
        }
    }

    /// Takes the answer to what was asked.
    pub fn take(self, reply: SchemaReply) -> (after: SchemaSearch)
        requires
            self.answered_by(reply),
        ensures
            self.leads_to(reply, after),
    {
        match (self, reply) {
            (SchemaSearch::Start, SchemaReply::Poll(poll)) => match poll {
                Ok(()) => SchemaSearch::Module,
                Err(error) => SchemaSearch::Failed(map_layout_error(error)),
            },
            (SchemaSearch::Module, SchemaReply::Module(module)) => SchemaSearch::AfterModule(
                module,
            ),
            (SchemaSearch::AfterModule(module), SchemaReply::Poll(poll)) => match outranked(
                poll,
                module,
            ) {
                Ok(module) => SchemaSearch::Layout {
                    image: KernelImage {
                        base: module.base,
                        size: module.size,
                        timestamp: module.timestamp,
                        checksum: module.checksum,
                    },
                },
                Err(error) => SchemaSearch::Failed(error),
            },
            (SchemaSearch::Layout { image }, SchemaReply::Layout(layout)) => match layout {
                Ok(()) => SchemaSearch::AfterLayout { image },
                Err(error) => SchemaSearch::Failed(map_layout_error(error)),
            },
            (SchemaSearch::AfterLayout { image }, SchemaReply::Poll(poll)) => match poll {
                Ok(()) => SchemaSearch::Identity { image },
                Err(error) => SchemaSearch::Failed(map_layout_error(error)),
            },
            (SchemaSearch::Identity { image }, SchemaReply::Identity(identity)) => {
                SchemaSearch::AfterIdentity { image, identity }
            },
            (SchemaSearch::AfterIdentity { image, identity }, SchemaReply::Poll(poll)) => {
                match outranked(poll, identity) {
                    Ok(module) => match require_type_info(&module) {
                        Ok(()) => SchemaSearch::Provenance { image, module },
                        Err(error) => SchemaSearch::Failed(error),
                    },
                    Err(error) => SchemaSearch::Failed(error),
                }
            },
            (SchemaSearch::Provenance { image, .. }, SchemaReply::Provenance(provenance)) => {
                match provenance {
                    Ok(provenance) => SchemaSearch::Resolved {
                        schema: Schema { image, provenance },
                    },
                    Err(error) => SchemaSearch::Failed(map_layout_error(error)),
                }
            },
            (SchemaSearch::Resolved { schema }, SchemaReply::Poll(poll)) => match poll {
                Ok(()) => SchemaSearch::TebType { schema },
                Err(error) => SchemaSearch::Failed(map_layout_error(error)),
            },
            (SchemaSearch::TebType { schema }, SchemaReply::TebType(teb_type)) => match teb_type {
                Ok(teb_type) => SchemaSearch::TebField { schema, teb_type },
                Err(error) => SchemaSearch::Failed(missing_wow_field(&error)),
            },
            (SchemaSearch::TebField { schema, .. }, SchemaReply::TebField(offset)) => {
                match offset {
                    Ok(offset) => SchemaSearch::AfterField { schema, offset },
                    Err(error) => SchemaSearch::Failed(missing_wow_field(&error)),
                }
            },
            (SchemaSearch::AfterField { schema, offset }, SchemaReply::Poll(poll)) => match poll {
                Ok(()) => SchemaSearch::Teb { schema, offset },
                Err(error) => SchemaSearch::Failed(map_layout_error(error)),
            },
            (SchemaSearch::Teb { schema, offset }, SchemaReply::Teb(teb)) => match teb {
                Ok(teb) => match wow_teb_field(teb, offset as u64) {
                    Ok(field) => SchemaSearch::Read { schema, field },
                    Err(error) => SchemaSearch::Failed(error),
                },
                Err(error) => SchemaSearch::Failed(HeapQueryError::Engine(error)),
            },
            (SchemaSearch::Read { schema, field }, SchemaReply::Read(bytes)) => {
                match wow_teb_offset(field, bytes) {
                    Ok(()) => SchemaSearch::Done(schema),
                    Err(error) => SchemaSearch::Failed(error),
                }
            },
            (search, _) => search,
        }
    }

    /// What the search came to, once there is nothing left to ask.
    pub fn finish(self) -> (schema: Result<Schema, HeapQueryError>)
        requires
            self.asks() is Nothing,
        ensures
            self matches SchemaSearch::Done(found) ==> schema == Ok::<Schema, HeapQueryError>(found),
            self matches SchemaSearch::Failed(error) ==> schema == Err::<Schema, HeapQueryError>(
                error,
            ),
    {
        match self {
            SchemaSearch::Done(schema) => Ok(schema),
            SchemaSearch::Failed(error) => Err(error),
            _ => Err(HeapQueryError::NoDebuggee),
        }
    }
}

/// A request to stop ends the search at the next poll, whatever was answered before it.
pub proof fn a_request_outranks_an_answer(search: SchemaSearch, after: SchemaSearch)
    requires
        search.asks() is Poll,
        search.leads_to(
            SchemaReply::Poll(Err::<(), LayoutError>(LayoutError::Interrupted)),
            after,
        ),
    ensures
        after.failed_with(QueryErrorView::Interrupted),
{
}

/// A schema is found only for a process whose thread names no 32-bit environment block.
pub proof fn only_a_native_process_has_a_schema(
    search: SchemaSearch,
    reply: SchemaReply,
    after: SchemaSearch,
)
    requires
        search.leads_to(reply, after),
        after is Done,
    ensures
        search is Read,
        reply is Read,
        wow_refusal(search->Read_field, reply->Read_0@) is None,
{
}

/// A search ends: every answer brings it closer to its end.
pub proof fn a_schema_search_ends(search: SchemaSearch, reply: SchemaReply, after: SchemaSearch)
    requires
        search.answered_by(reply),
        search.leads_to(reply, after),
    ensures
        after.left() < search.left(),
{
}

impl SchemaSearch {
    /// How many questions may still be asked.
    pub open spec fn left(self) -> nat {
        match self {
            SchemaSearch::Start => 14,
            SchemaSearch::Module => 13,
            SchemaSearch::AfterModule(_) => 12,
            SchemaSearch::Layout { .. } => 11,
            SchemaSearch::AfterLayout { .. } => 10,
            SchemaSearch::Identity { .. } => 9,
            SchemaSearch::AfterIdentity { .. } => 8,
            SchemaSearch::Provenance { .. } => 7,
            SchemaSearch::Resolved { .. } => 6,
            SchemaSearch::TebType { .. } => 5,
            SchemaSearch::TebField { .. } => 4,
            SchemaSearch::AfterField { .. } => 3,
            SchemaSearch::Teb { .. } => 2,
            SchemaSearch::Read { .. } => 1,
            SchemaSearch::Done(_) | SchemaSearch::Failed(_) => 0,
        }
    }
}

/// What a snapshot of a target is kept under.
pub fn snapshot_key(target: &ValidatedTarget, image: KernelImage, heap: Option<u64>) -> (key:
    SnapshotKey)
    ensures
        key == (SnapshotKey {
            target: target.target,
            process_system_id: target.process_system_id,
            peb: target.peb,
            image,
            generation: target.generation,
            heap,
        }),
{
    SnapshotKey {
        target: target.target,
        process_system_id: target.process_system_id,
        peb: target.peb,
        image,
        generation: target.generation,
        heap,
    }
}

/// Where an image begins and ends in memory.
pub fn image_range(image: &KernelImage) -> (range: (u64, u64))
    ensures
        range.0 == image.base,
        range.1 == if image.base + image.size <= u64::MAX {
            image.base + image.size
        } else {
            u64::MAX as int
        },
{
    (image.base, image.base.saturating_add(image.size as u64))
}

/// A search ends as what ended it: asked to stop, out of time, or for want of a layout, in the
/// resolver's own words.
pub proof fn a_search_ends_as_what_ended_it(error: LayoutError)
    ensures
        ended_by(error) is Interrupted <==> error is Interrupted,
        ended_by(error) is BudgetExpired <==> error is BudgetExpired,
        ended_by(error) is Layout <==> error is Other,
        error matches LayoutError::Other(why) ==> ended_by(error) == QueryErrorView::Layout(why@),
{
}

/// The image a layout is resolved for is the module's own.
pub proof fn an_image_is_its_modules(module: Module)
    ensures
        image_of(module).base == module.base,
        image_of(module).size == module.size,
        image_of(module).timestamp == module.timestamp,
        image_of(module).checksum == module.checksum,
{
}

/// Types are known of a module exactly where its symbols are a program database's and a file of
/// them was loaded.
pub proof fn types_come_from_a_program_database(module: ModuleIdentity)
    ensures
        typed(module) <==> (module.symbols is Pdb || module.symbols is Dia)
            && module.symbol_file@.len() > 0,
        module.symbols is Export || module.symbols is Deferred || module.symbols is Absent
            ==> !typed(module),
{
}

/// What a search asks is about the image it is resolving, and it asks nothing once it is over.
pub proof fn a_search_asks_about_its_image(search: SchemaSearch)
    ensures
        search matches SchemaSearch::Layout { image } ==> search.asks() == (SchemaAsk::Layout {
            image,
        }),
        search matches SchemaSearch::TebType { schema } ==> search.asks() == (SchemaAsk::TebType {
            ntdll: schema.image.base,
        }),
        search matches SchemaSearch::TebField { schema, teb_type } ==> search.asks()
            == (SchemaAsk::TebField { ntdll: schema.image.base, teb_type }),
        search matches SchemaSearch::Read { field, .. } ==> search.asks() == (SchemaAsk::Read {
            address: field,
        }),
        search.asks() is Nothing <==> search is Done || search is Failed,
        search.asks() is Module <==> search is Module,
        search.asks() is Identity <==> search is Identity,
        search.asks() is Provenance <==> search is Provenance,
        search.asks() is Teb <==> search is Teb,
{
}

/// A search carries what it found through to its end: the image of the module, where its layout
/// came from, and where the thread's block keeps the word that tells a process of another width.
pub proof fn a_search_carries_what_it_found(
    search: SchemaSearch,
    reply: SchemaReply,
    after: SchemaSearch,
)
    requires
        search.leads_to(reply, after),
    ensures
        after is Layout ==> {
            &&& search matches SchemaSearch::AfterModule(Ok(module))
            &&& after->Layout_image.base == module.base
            &&& after->Layout_image.size == module.size
            &&& after->Layout_image.timestamp == module.timestamp
            &&& after->Layout_image.checksum == module.checksum
        },
        after is AfterLayout ==> search is Layout && after->AfterLayout_image
            == search->Layout_image,
        after is Identity ==> search is AfterLayout && after->Identity_image
            == search->AfterLayout_image,
        after is AfterIdentity ==> search is Identity && after->AfterIdentity_image
            == search->Identity_image && reply == SchemaReply::Identity(after->identity),
        after is Provenance ==> search is AfterIdentity && after->Provenance_image
            == search->AfterIdentity_image && (search->identity matches Ok(module) && typed(module)),
        after matches SchemaSearch::Resolved { schema } ==> search is Provenance && schema.image
            == search->Provenance_image && reply == SchemaReply::Provenance(Ok(schema.provenance)),
        after matches SchemaSearch::TebType { schema } ==> search == (SchemaSearch::Resolved {
            schema,
        }),
        after matches SchemaSearch::TebField { schema, teb_type } ==> search
            == (SchemaSearch::TebType { schema }) && reply == SchemaReply::TebType(Ok(teb_type)),
        after matches SchemaSearch::AfterField { schema, offset } ==> search is TebField
            && search->TebField_schema == schema && reply == SchemaReply::TebField(Ok(offset)),
        after matches SchemaSearch::Teb { schema, offset } ==> search
            == (SchemaSearch::AfterField { schema, offset }),
        after matches SchemaSearch::Read { schema, field } ==> {
            &&& search is Teb && search->Teb_schema == schema
            &&& reply matches SchemaReply::Teb(Ok(teb))
            &&& teb != 0 && field == teb + search->Teb_offset
        },
        after matches SchemaSearch::Done(schema) ==> {
            &&& search is Read && search->Read_schema == schema
            &&& reply matches SchemaReply::Read(MemoryReply::Bytes(bytes))
            &&& bytes@.len() == 4
        },
{
}

/// A search goes on where an answer is one: it does not fail of anything but of a failure, of
/// symbols without types, or of a process of another width.
pub proof fn a_search_fails_of_a_failure(
    search: SchemaSearch,
    reply: SchemaReply,
    after: SchemaSearch,
)
    requires
        search.leads_to(reply, after),
        after is Failed,
    ensures
        ({
            ||| reply matches SchemaReply::Poll(Err(_))
            ||| search matches SchemaSearch::AfterModule(Err(_))
            ||| reply matches SchemaReply::Layout(Err(_))
            ||| search is AfterIdentity && (search->identity is Err || !typed(
                search->identity->Ok_0,
            ))
            ||| reply matches SchemaReply::Provenance(Err(_))
            ||| reply matches SchemaReply::TebType(Err(_))
            ||| reply matches SchemaReply::TebField(Err(_))
            ||| reply matches SchemaReply::Teb(Err(_))
            ||| search is Teb && (reply matches SchemaReply::Teb(Ok(teb)) && (teb == 0 || teb
                + search->Teb_offset > u64::MAX))
            ||| search is Read
        }),
        reply matches SchemaReply::Poll(Err(error)) ==> after->Failed_0@ == ended_by(error),
{
}

/// A failed search holds what it failed of, and each question is answered in kind.
pub proof fn a_failed_search_holds_its_error(
    search: SchemaSearch,
    error: QueryErrorView,
    reply: SchemaReply,
    cause: DbgEngError,
)
    ensures
        search.failed_with(error) <==> search is Failed && search->Failed_0@ == error,
        search.asks() is Poll ==> (search.answered_by(reply) <==> reply is Poll),
        search.asks() is Module ==> (search.answered_by(reply) <==> reply is Module),
        search.asks() is Layout ==> (search.answered_by(reply) <==> reply is Layout),
        search.asks() is Identity ==> (search.answered_by(reply) <==> reply is Identity),
        search.asks() is Provenance ==> (search.answered_by(reply) <==> reply is Provenance),
        search.asks() is TebType ==> (search.answered_by(reply) <==> reply is TebType),
        search.asks() is TebField ==> (search.answered_by(reply) <==> reply is TebField),
        search.asks() is Teb ==> (search.answered_by(reply) <==> reply is Teb),
        search.asks() is Read ==> (search.answered_by(reply) <==> reply is Read),
        search.asks() is Nothing ==> !search.answered_by(reply),
        no_wow_field(cause) is Layout,
        cause.message().is_suffix_of(no_wow_field(cause)->Layout_0),
{
    let said = no_wow_field(cause)->Layout_0;
    let tail = cause.message();
    assert(said.skip(said.len() - tail.len()) =~= tail);
}

/// A search moves from one question to the next, and skips none.
pub proof fn no_question_is_skipped(search: SchemaSearch, reply: SchemaReply, after: SchemaSearch)
    requires
        search.leads_to(reply, after),
        !(after is Failed),
    ensures
        after.left() + 1 == search.left(),
        after is Module <==> search is Start,
        after is AfterModule <==> search is Module,
        after is AfterModule ==> reply == SchemaReply::Module(after->AfterModule_0),
        after is Layout <==> search is AfterModule,
        after is AfterLayout <==> search is Layout,
        after is Identity <==> search is AfterLayout,
        after is AfterIdentity <==> search is Identity,
        after is Provenance <==> search is AfterIdentity,
        after is Resolved <==> search is Provenance,
        after is TebType <==> search is Resolved,
        after is TebField <==> search is TebType,
        after is AfterField <==> search is TebField,
        after is Teb <==> search is AfterField,
        after is Read <==> search is Teb,
        after is Done <==> search is Read,
{
}

} // verus!
