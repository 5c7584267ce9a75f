use vstd::prelude::*;

verus! {

/// One configured mapping from a block type (and optionally a block name)
/// to the media that plays while that block is active. A `block_name` of
/// `None` is the wildcard default for its type.
#[derive(Clone, Debug, PartialEq)]
pub struct BlockConfig {
    pub block_type: String,
    pub block_name: Option<String>,
    pub music_url: String,
    pub is_playlist: bool,
}

pub struct BlockConfigView {
    pub block_type: Seq<char>,
    pub block_name: Option<Seq<char>>,
    pub music_url: Seq<char>,
    pub is_playlist: bool,
}

pub open spec fn opt_str_view(o: Option<String>) -> Option<Seq<char>> {
    match o {
        Some(s) => Some(s@),
        None => None,
    }
}

impl View for BlockConfig {
    type V = BlockConfigView;

    open spec fn view(&self) -> BlockConfigView {
        BlockConfigView {
            block_type: self.block_type@,
            block_name: opt_str_view(self.block_name),
            music_url: self.music_url@,
            is_playlist: self.is_playlist,
        }
    }
}

/// The stored entries as a sequence of views.
pub open spec fn configs_view(s: Seq<BlockConfig>) -> Seq<BlockConfigView> {
    s.map_values(|c: BlockConfig| c@)
}

/// Two entries collide when they name the same block type and the same block name
/// (two wildcards collide too).
pub open spec fn same_key(a: BlockConfigView, b: BlockConfigView) -> bool {
    a.block_type == b.block_type && a.block_name == b.block_name
}

/// Some stored entry collides with `e`.
pub open spec fn has_key(s: Seq<BlockConfigView>, e: BlockConfigView) -> bool {
    exists|i: int| 0 <= i < s.len() && same_key(#[trigger] s[i], e)
}

/// How many stored entries collide with `e`.
pub open spec fn key_count(s: Seq<BlockConfigView>, e: BlockConfigView) -> nat
    decreases s.len(),
{
    if s.len() == 0 {
        0
    } else {
        key_count(s.drop_last(), e) + if same_key(s.last(), e) { 1nat } else { 0nat }
    }
}

/// No two stored entries collide: the invariant that insertion keeps.
pub open spec fn keys_unique(s: Seq<BlockConfigView>) -> bool {
    forall|i: int, j: int| 0 <= i < j < s.len() ==> !same_key(#[trigger] s[i], #[trigger] s[j])
}

/// The entry set after adding `e`: unchanged when `e` collides, else `e`
/// appended at the end.
pub open spec fn added(s: Seq<BlockConfigView>, e: BlockConfigView) -> Seq<BlockConfigView> {
    if has_key(s, e) {
        s
    } else {
        s.push(e)
    }
}

/// An insertion refused because an entry with the same key is stored.
#[derive(Debug)]
pub struct DuplicateError {
    /// Position of the stored entry that collides.
    pub index: usize,
    /// A copy of that entry, for the report.
    pub existing: BlockConfig,
}

pub fn same_block_name(a: &Option<String>, b: &Option<String>) -> (r: bool)
    ensures
        r == (opt_str_view(*a) == opt_str_view(*b)),
{
    match (a, b) {
        (Some(x), Some(y)) => *x == *y,
        (None, None) => true,
        _ => false,
    }
}

impl BlockConfig {
    pub fn new(block_type: String, block_name: Option<String>, music_url: String, is_playlist: bool) -> (r: Self)
        ensures
            r@.block_type == block_type@,
            r@.block_name == opt_str_view(block_name),
            r@.music_url == music_url@,
            r@.is_playlist == is_playlist,
    {
        Self { block_type, block_name, music_url, is_playlist }
    }

    /// A copy with the same contents.
    pub fn duplicate(&self) -> (r: Self)
        ensures
            r@ == self@,
    {
        let block_name = match &self.block_name {
            Some(n) => Some(n.clone()),
            None => None,
        };
        Self {
            block_type: self.block_type.clone(),
            block_name,
            music_url: self.music_url.clone(),
            is_playlist: self.is_playlist,
        }
    }

    /// Whether `other` has the same key as this entry.
    pub fn same_key_as(&self, other: &BlockConfig) -> (r: bool)
        ensures
            r == same_key(self@, other@),
    {
        self.block_type == other.block_type && same_block_name(&self.block_name, &other.block_name)
    }

    /// Position of the first stored entry whose key equals this entry's.
    pub fn find_in(&self, blocks: &Vec<BlockConfig>) -> (r: Option<usize>)
        ensures
            r.is_some() == has_key(configs_view(blocks@), self@),
            r matches Some(i) ==> i < blocks.len() && same_key(blocks@[i as int]@, self@)
                && forall|j: int| 0 <= j < i ==> !same_key(#[trigger] blocks@[j]@, self@),
    {
        let ghost s = configs_view(blocks@);
        let mut i: usize = 0;
        while i < blocks.len()
            invariant
                0 <= i <= blocks.len(),
                s == configs_view(blocks@),
                forall|j: int| 0 <= j < i ==> !same_key(#[trigger] blocks@[j]@, self@),
            decreases blocks.len() - i,
        {
            if blocks[i].same_key_as(self) {
                assert(same_key(s[i as int], self@));
                return Some(i);
            }
            i += 1;
        }
        assert forall|j: int| 0 <= j < s.len() implies !same_key(#[trigger] s[j], self@) by {
            assert(s[j] == blocks@[j]@);
        }
        None
    }

    /// Appends a copy of this entry to `blocks`, unless an entry with the
    /// same type name and block name is stored already; then `blocks` is
    /// left as it was and the stored entry is reported.
    pub fn add_block(&self, blocks: &mut Vec<BlockConfig>) -> (r: Result<(), DuplicateError>)
        ensures
            configs_view(final(blocks)@) == added(configs_view(old(blocks)@), self@),
            r.is_ok() == !has_key(configs_view(old(blocks)@), self@),
            r matches Err(e) ==> e.index < old(blocks).len()
                && e.existing@ == old(blocks)@[e.index as int]@
                && same_key(e.existing@, self@)
                && forall|j: int| 0 <= j < e.index ==> !same_key(#[trigger] old(blocks)@[j]@, self@),
            keys_unique(configs_view(old(blocks)@)) ==> keys_unique(configs_view(final(blocks)@)),
    {
        match self.find_in(blocks) {
            Some(i) => {
                let existing = blocks[i].duplicate();
                Err(DuplicateError { index: i, existing })
            },
            None => {
                let ghost before = configs_view(blocks@);
                blocks.push(self.duplicate());
                assert(configs_view(blocks@) =~= before.push(self@));
                Ok(())
            },
        }
    }
}

/// Adding an entry whose key is already stored changes nothing: with the
/// keys unique, adding the same key twice leaves exactly one entry with that
/// key, and the second addition is refused.
pub proof fn lemma_duplicate_rejected(s: Seq<BlockConfigView>, e1: BlockConfigView, e2: BlockConfigView)
    requires
        keys_unique(s),
        same_key(e1, e2),
    ensures
        has_key(added(s, e1), e2),
        added(added(s, e1), e2) == added(s, e1),
        key_count(added(added(s, e1), e2), e2) == 1,
{
    let s1 = added(s, e1);
    if !has_key(s, e1) {
        assert(s1[s.len() as int] == e1);
        lemma_key_count_absent(s, e2);
        assert(s1.drop_last() =~= s);
    } else {
        let i = choose|i: int| 0 <= i < s.len() && same_key(#[trigger] s[i], e1);
        assert(same_key(s[i], e2));
        lemma_key_count_unique(s, e2, i);
    }
}

proof fn lemma_key_count_absent(s: Seq<BlockConfigView>, e: BlockConfigView)
    requires
        !has_key(s, e),
    ensures
        key_count(s, e) == 0,
    decreases s.len(),
{
    if s.len() > 0 {
        assert(!same_key(s[s.len() - 1], e));
        let t = s.drop_last();
        assert forall|i: int| 0 <= i < t.len() implies !same_key(#[trigger] t[i], e) by {
            assert(t[i] == s[i]);
        }
        lemma_key_count_absent(t, e);
    }
}

proof fn lemma_key_count_unique(s: Seq<BlockConfigView>, e: BlockConfigView, k: int)
    requires
        keys_unique(s),
        0 <= k < s.len(),
        same_key(s[k], e),
    ensures
        key_count(s, e) == 1,
    decreases s.len(),
{
    let t = s.drop_last();
    let n = s.len() - 1;
    if k == n {
        assert forall|i: int| 0 <= i < t.len() implies !same_key(#[trigger] t[i], e) by {
            assert(t[i] == s[i]);
            assert(!same_key(s[i], s[n]));
        }
        lemma_key_count_absent(t, e);
    } else {
        assert(!same_key(s[k], s[n]));
        assert(t[k] == s[k]);
        assert forall|i: int, j: int| 0 <= i < j < t.len() implies !same_key(#[trigger] t[i], #[trigger] t[j]) by {
            assert(t[i] == s[i] && t[j] == s[j]);
        }
        lemma_key_count_unique(t, e, k);
    }
}

} // verus!
