use vstd::prelude::*;
use crate::blockconfig::{BlockConfig, BlockConfigView, configs_view};
use crate::blocktype::{BlockType, BlockTypeView, catalog_view};
use crate::resolve::{LookupTable, TargetView, UnknownBlockType, all_known, resolve_spec, table_of};
use crate::supervisor::{Supervisor, Transition, TransitionView, apply_spec, noop};

verus! {

/// Block id that stands for "no block active".
pub const NO_BLOCK_ID: u8 = 255;

/// Why a fetch of the current block failed; every kind is retried on the
/// next cycle.
#[derive(Debug, Clone, Copy, PartialEq, Eq, Structural)]
pub enum TransientError {
    Connection,
    Timeout,
    Decode,
}

/// The block that the server last reported.
#[derive(Debug)]
pub struct ActiveState {
    pub block_id: u8,
    pub block_name: String,
}

impl ActiveState {
    pub fn new(block_id: u8, block_name: String) -> (r: ActiveState)
        ensures
            r.block_id == block_id,
            r.block_name@ == block_name@,
    {
        ActiveState { block_id, block_name }
    }

    /// The state before any poll: no block active.
    pub fn none() -> (r: ActiveState)
        ensures
            r.block_id == NO_BLOCK_ID,
            r.block_name@ == Seq::<char>::empty(),
    {
        ActiveState { block_id: NO_BLOCK_ID, block_name: String::new() }
    }
}

pub open spec fn polled_view(p: Result<ActiveState, TransientError>) -> Option<(u8, Seq<char>)> {
    match p {
        Ok(s) => Some((s.block_id, s.block_name@)),
        Err(_) => None,
    }
}

pub struct ReconcilerView {
    pub block_id: u8,
    pub block_name: Seq<char>,
    pub table: Seq<(u8, BlockConfigView)>,
    pub current: Option<TargetView>,
    pub last_modified: u64,
}

/// One poll result handled: a failed poll (`None`) or an unchanged block
/// leaves everything as it was; a changed block is recorded, resolved
/// against the table, and handed to the supervisor.
pub open spec fn poll_spec(r: ReconcilerView, polled: Option<(u8, Seq<char>)>) -> (ReconcilerView, TransitionView) {
    match polled {
        None => (r, noop()),
        Some((id, name)) => if id == r.block_id && name == r.block_name {
            (r, noop())
        } else {
            let (cur, t) = apply_spec(r.current, resolve_spec(r.table, id, name));
            (ReconcilerView { block_id: id, block_name: name, current: cur, ..r }, t)
        },
    }
}

/// A reload from the catalog and entries stamped `modified`: the table is
/// rebuilt when every entry's block type is known, else kept.
pub open spec fn reload_spec(
    r: ReconcilerView,
    catalog: Seq<BlockTypeView>,
    entries: Seq<BlockConfigView>,
    modified: u64,
) -> ReconcilerView {
    if all_known(catalog, entries) {
        ReconcilerView { table: table_of(catalog, entries), last_modified: modified, ..r }
    } else {
        ReconcilerView { last_modified: modified, ..r }
    }
}

/// The loop's state between cycles: the block last seen, the lookup table,
/// the supervisor, and the modification time of the entries last loaded.
#[derive(Debug)]
pub struct Reconciler {
    pub active: ActiveState,
    pub table: LookupTable,
    pub supervisor: Supervisor,
    pub last_modified: u64,
}

impl View for Reconciler {
    type V = ReconcilerView;

    open spec fn view(&self) -> ReconcilerView {
        ReconcilerView {
            block_id: self.active.block_id,
            block_name: self.active.block_name@,
            table: self.table@,
            current: self.supervisor@,
            last_modified: self.last_modified,
        }
    }
}

impl Reconciler {
    /// Starts with no block active and no process, over `table`, built from
    /// entries stamped `last_modified`.
    pub fn new(table: LookupTable, last_modified: u64) -> (r: Reconciler)
        ensures
            r@.block_id == NO_BLOCK_ID,
            r@.block_name == Seq::<char>::empty(),
            r@.table == table@,
            r@.current is None,
            r@.last_modified == last_modified,
    {
        Reconciler { active: ActiveState::none(), table, supervisor: Supervisor::new(), last_modified }
    }

    /// Whether the entries stamped `modified` are newer than those loaded.
    pub fn needs_reload(&self, modified: u64) -> (r: bool)
        ensures
            r == (modified > self@.last_modified),
    {
        modified > self.last_modified
    }

    /// Rebuilds the lookup table from `catalog` and the reloaded `configs`,
    /// stamped `modified`. On an entry whose block type the catalog lacks,
    /// the old table stays and the error is returned.
    pub fn reload(&mut self, catalog: &Vec<BlockType>, configs: &Vec<BlockConfig>, modified: u64) -> (r: Result<(), UnknownBlockType>)
        ensures
            final(self)@ == reload_spec(old(self)@, catalog_view(catalog@), configs_view(configs@), modified),
            r.is_ok() == all_known(catalog_view(catalog@), configs_view(configs@)),
    {
        self.last_modified = modified;
        match LookupTable::build(catalog, configs) {
            Ok(t) => {
                self.table = t;
                Ok(())
            },
            Err(e) => Err(e),
        }
    }

    /// Handles one poll of the current block and returns what to do to the
    /// playback process.
    pub fn on_poll(&mut self, polled: Result<ActiveState, TransientError>) -> (t: Transition)
        ensures
            (final(self)@, t@) == poll_spec(old(self)@, polled_view(polled)),
    {
        match polled {
            Err(_) => Transition::none(),
            Ok(s) => {
                if s.block_id == self.active.block_id && s.block_name == self.active.block_name {
                    Transition::none()
                } else {
                    let target = self.table.resolve(s.block_id, &s.block_name);
                    self.active = s;
                    self.supervisor.apply(target)
                }
            },
        }
    }

    /// Records that the launch asked for did not come up: no process runs,
    /// and the active block is forgotten so that the next poll decides
    /// again.
    pub fn launch_failed(&mut self)
        ensures
            final(self)@ == forgotten(old(self)@),
    {
        self.supervisor.launch_failed();
        self.active = ActiveState::none();
    }

    /// Records that stopping the running process failed: it is treated as
    /// gone, and the next poll decides again.
    pub fn stop_failed(&mut self)
        ensures
            final(self)@ == forgotten(old(self)@),
    {
        self.launch_failed();
    }
}

/// The state after a failed launch or stop: no process recorded and no
/// block active, the table and modification time kept.
pub open spec fn forgotten(r: ReconcilerView) -> ReconcilerView {
    ReconcilerView { current: None, block_id: NO_BLOCK_ID, block_name: Seq::<char>::empty(), ..r }
}

/// After a failed launch or stop, the next successful poll of any block but
/// the "none active" one is resolved again and its target launched, even
/// when it is the block that was active before.
pub proof fn lemma_retry_after_failure(r: ReconcilerView, id: u8, name: Seq<char>)
    requires
        id != NO_BLOCK_ID || name != Seq::<char>::empty(),
    ensures
        poll_spec(forgotten(r), Some((id, name))).1 == (match resolve_spec(r.table, id, name) {
            Some(t) => TransitionView { stop_current: false, launch: Some(t) },
            None => noop(),
        }),
        poll_spec(forgotten(r), Some((id, name))).0.current == resolve_spec(r.table, id, name),
{
}

/// A failed poll changes nothing: the active block, the table and the
/// supervisor stay as they were and no transition is asked for.
pub proof fn lemma_transient_skip(r: ReconcilerView)
    ensures
        poll_spec(r, None) == (r, noop()),
{
}

/// Once the entries' modification time has advanced, the reload that the
/// loop then makes leaves a table built from the new entries, and the next
/// poll that reports a new block resolves it against them.
pub proof fn lemma_hot_reload(
    r: ReconcilerView,
    catalog: Seq<BlockTypeView>,
    entries: Seq<BlockConfigView>,
    modified: u64,
    id: u8,
    name: Seq<char>,
)
    requires
        modified > r.last_modified,
        all_known(catalog, entries),
    ensures
        ({
            let r2 = reload_spec(r, catalog, entries, modified);
            &&& r2.table == table_of(catalog, entries)
            &&& !(modified > r2.last_modified)
            &&& (id != r2.block_id || name != r2.block_name) ==> poll_spec(r2, Some((id, name))).0.current
                == resolve_spec(table_of(catalog, entries), id, name)
        }),
{
}

} // verus!
