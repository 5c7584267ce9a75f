use vstd::prelude::*;

verus! {

/// Display colour of a block type, as the server reports it.
#[derive(Clone, Copy, Debug, PartialEq, Eq, Structural)]
pub struct Color {
    pub r: u8,
    pub g: u8,
    pub b: u8,
}

/// One entry of the server's catalog of block types.
#[derive(Clone, Debug, PartialEq)]
pub struct BlockType {
    pub id: u8,
    pub name: String,
    pub color: Color,
}

pub struct BlockTypeView {
    pub id: u8,
    pub name: Seq<char>,
    pub color: Color,
}

impl View for BlockType {
    type V = BlockTypeView;

    open spec fn view(&self) -> BlockTypeView {
        BlockTypeView { id: self.id, name: self.name@, color: self.color }
    }
}

/// The catalog as a sequence of views.
pub open spec fn catalog_view(catalog: Seq<BlockType>) -> Seq<BlockTypeView> {
    catalog.map_values(|t: BlockType| t@)
}

/// Id of the first catalog entry named `name`, if any.
pub open spec fn type_id_of(catalog: Seq<BlockTypeView>, name: Seq<char>) -> Option<u8>
    decreases catalog.len(),
{
    if catalog.len() == 0 {
        None
    } else if catalog[0].name == name {
        Some(catalog[0].id)
    } else {
        type_id_of(catalog.drop_first(), name)
    }
}

impl BlockType {
    pub fn new(id: u8, name: String, color: Color) -> (r: BlockType)
        ensures
            r.id == id,
            r.name@ == name@,
            r.color == color,
    {
        BlockType { id, name, color }
    }
}

/// Looks up the id of the block type called `name`; the first entry of the
/// catalog with that name wins.
pub fn find_type_id(catalog: &Vec<BlockType>, name: &String) -> (r: Option<u8>)
    ensures
        r == type_id_of(catalog_view(catalog@), name@),
{
    let ghost full = catalog_view(catalog@);
    let mut i: usize = 0;
    assert(full.subrange(0, full.len() as int) =~= full);
    while i < catalog.len()
        invariant
            0 <= i <= catalog.len(),
            full == catalog_view(catalog@),
            type_id_of(full, name@) == type_id_of(full.subrange(i as int, full.len() as int), name@),
        decreases catalog.len() - i,
    {
        let ghost rest = full.subrange(i as int, full.len() as int);
        assert(rest.drop_first() =~= full.subrange(i + 1, full.len() as int));
        if catalog[i].name == *name {
            return Some(catalog[i].id);
        }
        i += 1;
    }
    None
}

} // verus!
