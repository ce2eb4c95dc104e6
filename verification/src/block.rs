//! Views over one decoded block: the lazy walk over its groups, and per
//! group the four independent element sequences. A group with an absent or
//! empty collection yields an empty sequence, never an error.
use vstd::prelude::*;

use crate::dense::DenseNodeIterator;
use crate::elements::{members_of, tags_of, Node, Relation, Way};
use crate::error::OsmPbfError;
use crate::proto::{opt_dense_view, PrimitiveBlockData, PrimitiveGroupData};

verus! {

/// The decoded payload of a header blob. File-wide metadata is an opaque
/// passthrough in this core: the record is kept as its raw bytes.
pub struct HeaderBlock {
    pub header: Vec<u8>,
}

impl HeaderBlock {
    pub fn new(header: Vec<u8>) -> (r: Self)
        ensures
            r.header == header,
    {
        HeaderBlock { header }
    }
}

/// One decoded data block, owning the string table and coordinate
/// constants that all of its groups' elements refer to.
pub struct PrimitiveBlock {
    pub block: PrimitiveBlockData,
}

impl PrimitiveBlock {
    pub fn new(block: PrimitiveBlockData) -> (r: Self)
        ensures
            r.block == block,
    {
        PrimitiveBlock { block }
    }

    pub fn groups(&self) -> (r: PrimitiveGroupIterator<'_>)
        ensures
            r.block_of() == self.block,
            r.pos_of() == 0,
    {
        PrimitiveGroupIterator::new(&self.block)
    }
}

/// Lazy walk over the groups of one block.
pub struct PrimitiveGroupIterator<'a> {
    block: &'a PrimitiveBlockData,
    pos: usize,
}

impl<'a> PrimitiveGroupIterator<'a> {
    pub closed spec fn block_of(&self) -> PrimitiveBlockData {
        *self.block
    }

    pub closed spec fn pos_of(&self) -> int {
        self.pos as int
    }

    pub fn new(block: &'a PrimitiveBlockData) -> (r: Self)
        ensures
            r.block_of() == *block,
            r.pos_of() == 0,
    {
        PrimitiveGroupIterator { block, pos: 0 }
    }

    pub fn next(&mut self) -> (r: Option<PrimitiveGroup<'a>>)
        ensures
            final(self).block_of() == old(self).block_of(),
            old(self).pos_of() >= old(self).block_of().primitivegroup@.len() ==> r is None
                && final(self).pos_of() == old(self).pos_of(),
            old(self).pos_of() < old(self).block_of().primitivegroup@.len() ==> (r matches Some(g)
                && *g.block == old(self).block_of() && *g.group == old(self).block_of().primitivegroup@[old(self).pos_of()] && final(self).pos_of() == old(self).pos_of() + 1),
    {
        if self.pos < self.block.primitivegroup.len() {
            let g = PrimitiveGroup::new(self.block, &self.block.primitivegroup[self.pos]);
            self.pos = self.pos + 1;
            Some(g)
        } else {
            None
        }
    }
}

/// One group of a block, with its four element accessors. Real files
/// populate exactly one collection per group, but that is a convention,
/// not an invariant: all four are served independently.
pub struct PrimitiveGroup<'a> {
    pub block: &'a PrimitiveBlockData,
    pub group: &'a PrimitiveGroupData,
}

impl<'a> PrimitiveGroup<'a> {
    pub fn new(block: &'a PrimitiveBlockData, group: &'a PrimitiveGroupData) -> (r: Self)
        ensures
            r.block == block,
            r.group == group,
    {
        PrimitiveGroup { block, group }
    }

    pub fn dense_node(&self) -> (r: DenseNodeIterator<'a>)
        ensures
            r.wf(),
            r.block_of() == *self.block,
            r.dense_of() == opt_dense_view(self.group.dense),
            !(r.dense_of() is None) ==> r.pos_of() == 0 && r.kv_pos_of() == 0 && !r.is_finished(),
    {
        match &self.group.dense {
            Some(d) => DenseNodeIterator::new(self.block, d),
            None => DenseNodeIterator::empty(self.block),
        }
    }

    pub fn nodes(&self) -> (r: ElementNodeIter<'a>)
        ensures
            r.block_of() == *self.block,
            r.group_of() == *self.group,
            r.pos_of() == 0,
    {
        ElementNodeIter::new(self.block, self.group)
    }

    pub fn ways(&self) -> (r: ElementWayIter<'a>)
        ensures
            r.block_of() == *self.block,
            r.group_of() == *self.group,
            r.pos_of() == 0,
    {
        ElementWayIter::new(self.block, self.group)
    }

    pub fn relations(&self) -> (r: ElementRelationIter<'a>)
        ensures
            r.block_of() == *self.block,
            r.group_of() == *self.group,
            r.pos_of() == 0,
    {
        ElementRelationIter::new(self.block, self.group)
    }
}

/// Lazy walk over a group's explicit node records.
pub struct ElementNodeIter<'a> {
    block: &'a PrimitiveBlockData,
    group: &'a PrimitiveGroupData,
    pos: usize,
}

impl<'a> ElementNodeIter<'a> {
    pub closed spec fn block_of(&self) -> PrimitiveBlockData {
        *self.block
    }

    pub closed spec fn group_of(&self) -> PrimitiveGroupData {
        *self.group
    }

    pub closed spec fn pos_of(&self) -> int {
        self.pos as int
    }

    pub fn new(block: &'a PrimitiveBlockData, group: &'a PrimitiveGroupData) -> (r: Self)
        ensures
            r.block_of() == *block,
            r.group_of() == *group,
            r.pos_of() == 0,
    {
        ElementNodeIter { block, group, pos: 0 }
    }

    pub fn next(&mut self) -> (r: Option<Result<Node, OsmPbfError>>)
        ensures
            final(self).block_of() == old(self).block_of(),
            final(self).group_of() == old(self).group_of(),
            old(self).pos_of() >= old(self).group_of().nodes@.len() ==> r is None && final(self).pos_of() == old(self).pos_of(),
            old(self).pos_of() < old(self).group_of().nodes@.len() ==> {
                let nd = old(self).group_of().nodes@[old(self).pos_of()];
                final(self).pos_of() == old(self).pos_of() + 1 && match tags_of(
                    old(self).block_of()@.stringtable,
                    nd@.keys,
                    nd@.vals,
                ) {
                    Err(e) => r == Some(Err::<Node, OsmPbfError>(e)),
                    Ok(t) => r matches Some(nr) && nr matches Ok(n) && n.id == nd.id && n.tags@
                        == t && n.nano_lat == crate::elements::nano_of(
                        old(self).block_of().lat_offset,
                        nd.lat,
                        old(self).block_of().granularity,
                    ) && n.nano_lon == crate::elements::nano_of(
                        old(self).block_of().lon_offset,
                        nd.lon,
                        old(self).block_of().granularity,
                    ),
                }
            },
    {
        if self.pos < self.group.nodes.len() {
            let r = Node::from_node(self.block, &self.group.nodes[self.pos]);
            self.pos = self.pos + 1;
            Some(r)
        } else {
            None
        }
    }
}

/// Lazy walk over a group's way records.
pub struct ElementWayIter<'a> {
    block: &'a PrimitiveBlockData,
    group: &'a PrimitiveGroupData,
    pos: usize,
}

impl<'a> ElementWayIter<'a> {
    pub closed spec fn block_of(&self) -> PrimitiveBlockData {
        *self.block
    }

    pub closed spec fn group_of(&self) -> PrimitiveGroupData {
        *self.group
    }

    pub closed spec fn pos_of(&self) -> int {
        self.pos as int
    }

    pub fn new(block: &'a PrimitiveBlockData, group: &'a PrimitiveGroupData) -> (r: Self)
        ensures
            r.block_of() == *block,
            r.group_of() == *group,
            r.pos_of() == 0,
    {
        ElementWayIter { block, group, pos: 0 }
    }

    pub fn next(&mut self) -> (r: Option<Result<Way, OsmPbfError>>)
        ensures
            final(self).block_of() == old(self).block_of(),
            final(self).group_of() == old(self).group_of(),
            old(self).pos_of() >= old(self).group_of().ways@.len() ==> r is None && final(self).pos_of() == old(self).pos_of(),
            old(self).pos_of() < old(self).group_of().ways@.len() ==> {
                let wd = old(self).group_of().ways@[old(self).pos_of()];
                final(self).pos_of() == old(self).pos_of() + 1 && match tags_of(
                    old(self).block_of()@.stringtable,
                    wd@.keys,
                    wd@.vals,
                ) {
                    Err(e) => r == Some(Err::<Way, OsmPbfError>(e)),
                    Ok(t) => r matches Some(wr) && wr matches Ok(w) && w.id == wd.id && w.tags@
                        == t && w.nodes@ == crate::delta::decoded_deltas(wd@.refs),
                }
            },
    {
        if self.pos < self.group.ways.len() {
            let r = Way::new(self.block, &self.group.ways[self.pos]);
            self.pos = self.pos + 1;
            Some(r)
        } else {
            None
        }
    }
}

/// Lazy walk over a group's relation records.
pub struct ElementRelationIter<'a> {
    block: &'a PrimitiveBlockData,
    group: &'a PrimitiveGroupData,
    pos: usize,
}

impl<'a> ElementRelationIter<'a> {
    pub closed spec fn block_of(&self) -> PrimitiveBlockData {
        *self.block
    }

    pub closed spec fn group_of(&self) -> PrimitiveGroupData {
        *self.group
    }

    pub closed spec fn pos_of(&self) -> int {
        self.pos as int
    }

    pub fn new(block: &'a PrimitiveBlockData, group: &'a PrimitiveGroupData) -> (r: Self)
        ensures
            r.block_of() == *block,
            r.group_of() == *group,
            r.pos_of() == 0,
    {
        ElementRelationIter { block, group, pos: 0 }
    }

    pub fn next(&mut self) -> (r: Option<Result<Relation, OsmPbfError>>)
        ensures
            final(self).block_of() == old(self).block_of(),
            final(self).group_of() == old(self).group_of(),
            old(self).pos_of() >= old(self).group_of().relations@.len() ==> r is None && final(self).pos_of() == old(self).pos_of(),
            old(self).pos_of() < old(self).group_of().relations@.len() ==> {
                let rd = old(self).group_of().relations@[old(self).pos_of()];
                final(self).pos_of() == old(self).pos_of() + 1 && match tags_of(
                    old(self).block_of()@.stringtable,
                    rd@.keys,
                    rd@.vals,
                ) {
                    Err(e) => r == Some(Err::<Relation, OsmPbfError>(e)),
                    Ok(t) => match members_of(old(self).block_of()@.stringtable, rd@) {
                        Err(e) => r == Some(Err::<Relation, OsmPbfError>(e)),
                        Ok(ms) => r matches Some(rr) && rr matches Ok(rl) && rl.id == rd.id
                            && rl.tags@ == t && rl@.members == ms,
                    },
                }
            },
    {
        if self.pos < self.group.relations.len() {
            let r = Relation::new(self.block, &self.group.relations[self.pos]);
            self.pos = self.pos + 1;
            Some(r)
        } else {
            None
        }
    }
}

} // verus!
