use vstd::prelude::*;
use crate::blockconfig::{BlockConfig, BlockConfigView, configs_view};
use crate::blocktype::{BlockType, BlockTypeView, catalog_view, find_type_id, type_id_of};

verus! {

/// What plays for a block: a media reference and whether it is a playlist.
#[derive(Clone, Debug, PartialEq)]
pub struct ResolvedTarget {
    pub media_reference: String,
    pub is_playlist: bool,
}

pub struct TargetView {
    pub media_reference: Seq<char>,
    pub is_playlist: bool,
}

impl View for ResolvedTarget {
    type V = TargetView;

    open spec fn view(&self) -> TargetView {
        TargetView { media_reference: self.media_reference@, is_playlist: self.is_playlist }
    }
}

pub open spec fn opt_target_view(t: Option<ResolvedTarget>) -> Option<TargetView> {
    match t {
        Some(x) => Some(x@),
        None => None,
    }
}

pub open spec fn target_of(c: BlockConfigView) -> TargetView {
    TargetView { media_reference: c.music_url, is_playlist: c.is_playlist }
}

impl ResolvedTarget {
    pub fn new(media_reference: String, is_playlist: bool) -> (r: Self)
        ensures
            r@.media_reference == media_reference@,
            r@.is_playlist == is_playlist,
    {
        ResolvedTarget { media_reference, is_playlist }
    }

    /// A copy with the same contents.
    pub fn duplicate(&self) -> (r: Self)
        ensures
            r@ == self@,
    {
        ResolvedTarget { media_reference: self.media_reference.clone(), is_playlist: self.is_playlist }
    }
}

/// Whether two optional targets have the same contents.
pub fn same_target(a: &Option<ResolvedTarget>, b: &Option<ResolvedTarget>) -> (r: bool)
    ensures
        r == (opt_target_view(*a) == opt_target_view(*b)),
{
    match (a, b) {
        (Some(x), Some(y)) => x.media_reference == y.media_reference && x.is_playlist == y.is_playlist,
        (None, None) => true,
        _ => false,
    }
}

/// A stored entry together with the id of its block type.
#[derive(Debug)]
pub struct TableEntry {
    pub type_id: u8,
    pub config: BlockConfig,
}

/// The lookup table: the stored entries in stored order, each tagged with
/// the catalog id of its block type. It is rebuilt whole whenever the
/// catalog or the entries change.
#[derive(Debug)]
pub struct LookupTable {
    pub entries: Vec<TableEntry>,
}

impl View for LookupTable {
    type V = Seq<(u8, BlockConfigView)>;

    open spec fn view(&self) -> Seq<(u8, BlockConfigView)> {
        self.entries@.map_values(|e: TableEntry| (e.type_id, e.config@))
    }
}

/// Every entry names a block type that the catalog knows.
pub open spec fn all_known(catalog: Seq<BlockTypeView>, s: Seq<BlockConfigView>) -> bool {
    forall|i: int| 0 <= i < s.len() ==> (#[trigger] type_id_of(catalog, s[i].block_type)).is_some()
}

/// The table built from a catalog and the stored entries.
pub open spec fn table_of(catalog: Seq<BlockTypeView>, s: Seq<BlockConfigView>) -> Seq<(u8, BlockConfigView)> {
    s.map_values(|c: BlockConfigView| (type_id_of(catalog, c.block_type).unwrap(), c))
}

/// First entry of block type `id` whose block name is exactly `name`.
pub open spec fn first_exact(t: Seq<(u8, BlockConfigView)>, id: u8, name: Seq<char>) -> Option<BlockConfigView>
    decreases t.len(),
{
    if t.len() == 0 {
        None
    } else if t[0].0 == id && t[0].1.block_name == Some(name) {
        Some(t[0].1)
    } else {
        first_exact(t.drop_first(), id, name)
    }
}

/// First wildcard entry of block type `id`.
pub open spec fn first_wildcard(t: Seq<(u8, BlockConfigView)>, id: u8) -> Option<BlockConfigView>
    decreases t.len(),
{
    if t.len() == 0 {
        None
    } else if t[0].0 == id && t[0].1.block_name is None {
        Some(t[0].1)
    } else {
        first_wildcard(t.drop_first(), id)
    }
}

/// Resolution: an exact block-name match first, else the type's wildcard,
/// else nothing.
pub open spec fn resolve_spec(t: Seq<(u8, BlockConfigView)>, id: u8, name: Seq<char>) -> Option<TargetView> {
    match first_exact(t, id, name) {
        Some(c) => Some(target_of(c)),
        None => match first_wildcard(t, id) {
            Some(c) => Some(target_of(c)),
            None => None,
        },
    }
}

/// Resolution is a function of the catalog, the entries and the block: two
/// tables built from the same catalog and entries resolve every block alike.
pub proof fn lemma_resolution_deterministic(
    catalog: Seq<BlockTypeView>,
    entries: Seq<BlockConfigView>,
    t1: Seq<(u8, BlockConfigView)>,
    t2: Seq<(u8, BlockConfigView)>,
    id: u8,
    name: Seq<char>,
)
    requires
        t1 == table_of(catalog, entries),
        t2 == table_of(catalog, entries),
    ensures
        resolve_spec(t1, id, name) == resolve_spec(t2, id, name),
{
}

/// An entry of type `id` named exactly `name`, with no such entry before it,
/// is what resolution picks, whatever wildcards of that type are stored.
pub proof fn lemma_exact_over_wildcard(t: Seq<(u8, BlockConfigView)>, id: u8, name: Seq<char>, i: int)
    requires
        0 <= i < t.len(),
        t[i].0 == id,
        t[i].1.block_name == Some(name),
        forall|j: int| 0 <= j < i ==> !(#[trigger] t[j].0 == id && t[j].1.block_name == Some(name)),
    ensures
        resolve_spec(t, id, name) == Some(target_of(t[i].1)),
{
    lemma_first_exact_at(t, id, name, i);
}

proof fn lemma_first_exact_at(t: Seq<(u8, BlockConfigView)>, id: u8, name: Seq<char>, i: int)
    requires
        0 <= i < t.len(),
        t[i].0 == id,
        t[i].1.block_name == Some(name),
        forall|j: int| 0 <= j < i ==> !(#[trigger] t[j].0 == id && t[j].1.block_name == Some(name)),
    ensures
        first_exact(t, id, name) == Some(t[i].1),
    decreases i,
{
    if i > 0 {
        let r = t.drop_first();
        assert(!(t[0].0 == id && t[0].1.block_name == Some(name)));
        assert forall|j: int| 0 <= j < i - 1 implies !(#[trigger] r[j].0 == id && r[j].1.block_name == Some(name)) by {
            assert(r[j] == t[j + 1]);
        }
        lemma_first_exact_at(r, id, name, i - 1);
    }
}

/// With no entry of type `id` named exactly `name`, resolution falls back to
/// the first wildcard of that type, or to nothing.
pub proof fn lemma_wildcard_fallback(t: Seq<(u8, BlockConfigView)>, id: u8, name: Seq<char>)
    requires
        forall|j: int| 0 <= j < t.len() ==> !(#[trigger] t[j].0 == id && t[j].1.block_name == Some(name)),
    ensures
        resolve_spec(t, id, name) == match first_wildcard(t, id) {
            Some(c) => Some(target_of(c)),
            None => None,
        },
{
    lemma_no_exact(t, id, name);
}

proof fn lemma_no_exact(t: Seq<(u8, BlockConfigView)>, id: u8, name: Seq<char>)
    requires
        forall|j: int| 0 <= j < t.len() ==> !(#[trigger] t[j].0 == id && t[j].1.block_name == Some(name)),
    ensures
        first_exact(t, id, name) is None,
    decreases t.len(),
{
    if t.len() > 0 {
        let r = t.drop_first();
        assert(!(t[0].0 == id && t[0].1.block_name == Some(name)));
        assert forall|j: int| 0 <= j < r.len() implies !(#[trigger] r[j].0 == id && r[j].1.block_name == Some(name)) by {
            assert(r[j] == t[j + 1]);
        }
        lemma_no_exact(r, id, name);
    }
}

/// A stored entry names a block type that the catalog lacks.
#[derive(Debug)]
pub struct UnknownBlockType {
    /// Position of the first such entry.
    pub index: usize,
    /// The block type name it gives.
    pub block_type: String,
}

impl LookupTable {
    /// Joins each entry's block type name with the catalog. Fails on the
    /// first entry whose block type the catalog does not list.
    pub fn build(catalog: &Vec<BlockType>, configs: &Vec<BlockConfig>) -> (r: Result<LookupTable, UnknownBlockType>)
        ensures
            r.is_ok() == all_known(catalog_view(catalog@), configs_view(configs@)),
            r matches Ok(t) ==> t@ == table_of(catalog_view(catalog@), configs_view(configs@)),
            r matches Err(e) ==> e.index < configs.len()
                && e.block_type@ == configs@[e.index as int].block_type@
                && type_id_of(catalog_view(catalog@), e.block_type@) is None
                && forall|j: int| 0 <= j < e.index
                    ==> (#[trigger] type_id_of(catalog_view(catalog@), configs@[j].block_type@)).is_some(),
    {
        let ghost cat = catalog_view(catalog@);
        let ghost s = configs_view(configs@);
        let mut entries: Vec<TableEntry> = Vec::new();
        let mut i: usize = 0;
        while i < configs.len()
            invariant
                0 <= i <= configs.len(),
                cat == catalog_view(catalog@),
                s == configs_view(configs@),
                entries@.map_values(|e: TableEntry| (e.type_id, e.config@)) == table_of(cat, s.subrange(0, i as int)),
                forall|j: int| 0 <= j < i ==> (#[trigger] type_id_of(cat, configs@[j].block_type@)).is_some(),
            decreases configs.len() - i,
        {
            match find_type_id(catalog, &configs[i].block_type) {
                Some(id) => {
                    let ghost before = entries@.map_values(|e: TableEntry| (e.type_id, e.config@));
                    entries.push(TableEntry { type_id: id, config: configs[i].duplicate() });
                    assert(s.subrange(0, i + 1) =~= s.subrange(0, i as int).push(s[i as int]));
                    assert(entries@.map_values(|e: TableEntry| (e.type_id, e.config@)) =~= before.push((id, s[i as int])));
                    assert(table_of(cat, s.subrange(0, i + 1)) =~= table_of(cat, s.subrange(0, i as int)).push((id, s[i as int])));
                },
                None => {
                    assert(s[i as int] == configs@[i as int]@);
                    assert(type_id_of(cat, s[i as int].block_type) is None);
                    assert(!all_known(cat, s));
                    return Err(UnknownBlockType { index: i, block_type: configs[i].block_type.clone() });
                },
            }
            i += 1;
        }
        assert(s.subrange(0, i as int) =~= s);
        assert forall|j: int| 0 <= j < s.len() implies (#[trigger] type_id_of(cat, s[j].block_type)).is_some() by {
            assert(s[j] == configs@[j]@);
        }
        Ok(LookupTable { entries })
    }

    /// The target for block type `id` named `name`: the first entry of that
    /// type whose block name is exactly `name`, else the first wildcard of
    /// that type, else none.
    pub fn resolve(&self, id: u8, name: &String) -> (r: Option<ResolvedTarget>)
        ensures
            opt_target_view(r) == resolve_spec(self@, id, name@),
    {
        let ghost t = self@;
        let mut i: usize = 0;
        assert(t.subrange(0, t.len() as int) =~= t);
        while i < self.entries.len()
            invariant
                0 <= i <= self.entries.len(),
                t == self@,
                first_exact(t, id, name@) == first_exact(t.subrange(i as int, t.len() as int), id, name@),
            decreases self.entries.len() - i,
        {
            let ghost rest = t.subrange(i as int, t.len() as int);
            assert(rest.drop_first() =~= t.subrange(i + 1, t.len() as int));
            let e = &self.entries[i];
            if e.type_id == id {
                match &e.config.block_name {
                    Some(n) => {
                        if *n == *name {
                            return Some(ResolvedTarget::new(e.config.music_url.clone(), e.config.is_playlist));
                        }
                    },
                    None => {},
                }
            }
            i += 1;
        }
        let mut k: usize = 0;
        while k < self.entries.len()
            invariant
                0 <= k <= self.entries.len(),
                t == self@,
                first_exact(t, id, name@) is None,
                first_wildcard(t, id) == first_wildcard(t.subrange(k as int, t.len() as int), id),
            decreases self.entries.len() - k,
        {
            let ghost rest = t.subrange(k as int, t.len() as int);
            assert(rest.drop_first() =~= t.subrange(k + 1, t.len() as int));
            let e = &self.entries[k];
            if e.type_id == id && e.config.block_name.is_none() {
                return Some(ResolvedTarget::new(e.config.music_url.clone(), e.config.is_playlist));
            }
            k += 1;
        }
        None
    }
}

} // verus!
