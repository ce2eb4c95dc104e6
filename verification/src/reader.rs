//! The reader facade: drives framing, blob decoding and group iteration,
//! and hands every element of every data blob to a caller-supplied
//! callback, in the fixed order dense nodes, nodes, ways, relations.
use vstd::prelude::*;

use crate::blob::{
    blob_decode_of, frame_at, is_osm_data_kind, is_osm_header_kind, Blob, BlobDecode,
    BlobDecodeV, BlobReader, BlobType,
};
use crate::block::PrimitiveBlock;
use crate::dense::{dense_count, kv_cursor, kv_next, kv_seg_end};
use crate::elements::{dense_keys, dense_vals, members_of, tags_of, Element};
use crate::error::OsmPbfError;
use crate::proto::{BlockV, DenseNodesV, GroupV, NodeV, RelationV, WayV};

verus! {

/// Relies on `FnMut::call_mut`: hands one element to the caller's
/// callback. Nothing is assumed about what the callback does.
#[verifier::external_body]
fn invoke<F: FnMut(Element)>(f: &mut F, e: Element) {
    f(e)
}




/// Whether the first `n` nodes of a dense batch all decode: each step's tag
/// segment must resolve through the string table.
pub open spec fn dense_section(st: Seq<Seq<u8>>, d: DenseNodesV, n: int) -> Result<(), OsmPbfError>
    decreases n,
{
    if n <= 0 {
        Ok(())
    } else {
        match dense_section(st, d, n - 1) {
            Err(e) => Err(e),
            Ok(u) => {
                let start = kv_cursor(d.keys_vals, n - 1);
                let seg = d.keys_vals.subrange(start, kv_seg_end(d.keys_vals, start));
                match tags_of(st, dense_keys(seg), dense_vals(seg)) {
                    Err(e) => Err(e),
                    Ok(t) => Ok(()),
                }
            },
        }
    }
}

/// Whether the first `n` explicit node records all decode.
pub open spec fn nodes_section(st: Seq<Seq<u8>>, ns: Seq<NodeV>, n: int) -> Result<(), OsmPbfError>
    decreases n,
{
    if n <= 0 {
        Ok(())
    } else {
        match nodes_section(st, ns, n - 1) {
            Err(e) => Err(e),
            Ok(u) => match tags_of(st, ns[n - 1].keys, ns[n - 1].vals) {
                Err(e) => Err(e),
                Ok(t) => Ok(()),
            },
        }
    }
}

/// Whether the first `n` way records all decode.
pub open spec fn ways_section(st: Seq<Seq<u8>>, ws: Seq<WayV>, n: int) -> Result<(), OsmPbfError>
    decreases n,
{
    if n <= 0 {
        Ok(())
    } else {
        match ways_section(st, ws, n - 1) {
            Err(e) => Err(e),
            Ok(u) => match tags_of(st, ws[n - 1].keys, ws[n - 1].vals) {
                Err(e) => Err(e),
                Ok(t) => Ok(()),
            },
        }
    }
}

/// Whether the first `n` relation records all decode: tags, then members.
pub open spec fn rels_section(st: Seq<Seq<u8>>, rs: Seq<RelationV>, n: int) -> Result<(), OsmPbfError>
    decreases n,
{
    if n <= 0 {
        Ok(())
    } else {
        match rels_section(st, rs, n - 1) {
            Err(e) => Err(e),
            Ok(u) => match tags_of(st, rs[n - 1].keys, rs[n - 1].vals) {
                Err(e) => Err(e),
                Ok(t) => match members_of(st, rs[n - 1]) {
                    Err(e) => Err(e),
                    Ok(m) => Ok(()),
                },
            },
        }
    }
}

/// The first error met while traversing one group, in traversal order:
/// dense nodes, nodes, ways, relations.
pub open spec fn group_result(st: Seq<Seq<u8>>, g: GroupV) -> Result<(), OsmPbfError> {
    let dres = match g.dense {
        Option::Some(d) => dense_section(st, d, dense_count(d)),
        Option::None => Ok(()),
    };
    match dres {
        Err(e) => Err(e),
        Ok(u0) => match nodes_section(st, g.nodes, g.nodes.len() as int) {
            Err(e) => Err(e),
            Ok(u1) => match ways_section(st, g.ways, g.ways.len() as int) {
                Err(e) => Err(e),
                Ok(u2) => rels_section(st, g.relations, g.relations.len() as int),
            },
        },
    }
}

/// The first error met while traversing the first `n` groups of a block.
pub open spec fn block_result_upto(b: BlockV, n: int) -> Result<(), OsmPbfError>
    decreases n,
{
    if n <= 0 {
        Ok(())
    } else {
        match block_result_upto(b, n - 1) {
            Err(e) => Err(e),
            Ok(u) => group_result(b.stringtable, b.primitivegroup[n - 1]),
        }
    }
}

/// The first error met while traversing a whole block.
pub open spec fn block_result(b: BlockV) -> Result<(), OsmPbfError> {
    block_result_upto(b, b.primitivegroup.len() as int)
}

/// What a full traversal from `pos` returns: the first framing, decode or
/// element error, or success at clean end of input. Header and unknown
/// blobs are skipped without decoding them.
pub open spec fn stream_result(s: Seq<u8>, pos: int) -> Result<(), OsmPbfError>
    decreases s.len() - pos,
{
    match frame_at(s, pos) {
        Option::None => Ok(()),
        Option::Some(Err(e)) => Err(e),
        Option::Some(Ok(step)) => {
            if !(pos < step.2 <= s.len()) {
                Ok(())
            } else if !is_osm_header_kind(step.0.kind) && is_osm_data_kind(step.0.kind) {
                match blob_decode_of(step.0.kind, step.1) {
                    Err(e) => Err(e),
                    Ok(BlobDecodeV::OsmData(bv)) => match block_result(bv) {
                        Err(e) => Err(e),
                        Ok(u) => stream_result(s, step.2),
                    },
                    Ok(u) => Ok(()),
                }
            } else {
                stream_result(s, step.2)
            }
        },
    }
}

/// Determinism of the decode pipeline: every framing step, every blob
/// decode and the whole traversal result are functions of the input bytes
/// and cursor alone, so two independent readers over equal buffers yield
/// equal blob sequences and equal traversal results.
pub proof fn lemma_decode_deterministic(a: Seq<u8>, b: Seq<u8>, pos: int)
    requires
        a == b,
    ensures
        frame_at(a, pos) == frame_at(b, pos),
        stream_result(a, pos) == stream_result(b, pos),
{
}

proof fn lemma_dense_section_err(st: Seq<Seq<u8>>, d: DenseNodesV, n1: int, n2: int)
    requires
        0 <= n1 <= n2,
        dense_section(st, d, n1) is Err,
    ensures
        dense_section(st, d, n2) == dense_section(st, d, n1),
    decreases n2 - n1,
{
    if n2 > n1 {
        lemma_dense_section_err(st, d, n1, n2 - 1);
    }
}

proof fn lemma_nodes_section_err(st: Seq<Seq<u8>>, ns: Seq<NodeV>, n1: int, n2: int)
    requires
        0 <= n1 <= n2,
        nodes_section(st, ns, n1) is Err,
    ensures
        nodes_section(st, ns, n2) == nodes_section(st, ns, n1),
    decreases n2 - n1,
{
    if n2 > n1 {
        lemma_nodes_section_err(st, ns, n1, n2 - 1);
    }
}

proof fn lemma_ways_section_err(st: Seq<Seq<u8>>, ws: Seq<WayV>, n1: int, n2: int)
    requires
        0 <= n1 <= n2,
        ways_section(st, ws, n1) is Err,
    ensures
        ways_section(st, ws, n2) == ways_section(st, ws, n1),
    decreases n2 - n1,
{
    if n2 > n1 {
        lemma_ways_section_err(st, ws, n1, n2 - 1);
    }
}

proof fn lemma_rels_section_err(st: Seq<Seq<u8>>, rs: Seq<RelationV>, n1: int, n2: int)
    requires
        0 <= n1 <= n2,
        rels_section(st, rs, n1) is Err,
    ensures
        rels_section(st, rs, n2) == rels_section(st, rs, n1),
    decreases n2 - n1,
{
    if n2 > n1 {
        lemma_rels_section_err(st, rs, n1, n2 - 1);
    }
}

proof fn lemma_block_upto_err(b: BlockV, n1: int, n2: int)
    requires
        0 <= n1 <= n2,
        block_result_upto(b, n1) is Err,
    ensures
        block_result_upto(b, n2) == block_result_upto(b, n1),
    decreases n2 - n1,
{
    if n2 > n1 {
        lemma_block_upto_err(b, n1, n2 - 1);
    }
}

/// Push-style traversal over a whole byte stream.
pub struct OsmPbfReader {
    blob_reader: BlobReader,
}

impl OsmPbfReader {
    pub closed spec fn wf(&self) -> bool {
        self.blob_reader.wf()
    }

    pub closed spec fn data_of(&self) -> Seq<u8> {
        self.blob_reader.data_of()
    }

    pub closed spec fn pos_of(&self) -> int {
        self.blob_reader.pos_of()
    }

    pub closed spec fn is_finished(&self) -> bool {
        self.blob_reader.is_finished()
    }

    pub fn new(reader: Vec<u8>) -> (r: Self)
        ensures
            r.wf(),
            r.data_of() == reader@,
    {
        let blob_reader = BlobReader::new(reader);
        OsmPbfReader { blob_reader }
    }

    /// Walk every element of every data blob, calling `f` on each, dense
    /// nodes first, then nodes, ways and relations per group. Header and
    /// unknown blobs are skipped. The traversal aborts at the first
    /// framing or decode error and returns it, exactly as `stream_result`
    /// says; a caller that prefers to skip corrupt blobs and continue
    /// drives `BlobReader` and `Blob::decode` directly.
    pub fn for_each<F: FnMut(Element)>(&mut self, f: F) -> (r: Result<(), OsmPbfError>)
        requires
            old(self).wf(),
        ensures
            final(self).wf(),
            final(self).data_of() == old(self).data_of(),
            old(self).is_finished() ==> r == Ok::<(), OsmPbfError>(()),
            !old(self).is_finished() ==> r == stream_result(
                old(self).data_of(),
                old(self).pos_of(),
            ),
    {
        let mut cb = f;
        loop
            invariant
                self.blob_reader.wf(),
                self.data_of() == old(self).data_of(),
                !old(self).is_finished() ==> !self.blob_reader.is_finished(),
                !old(self).is_finished() ==> stream_result(old(self).data_of(), old(self).pos_of())
                    == stream_result(old(self).data_of(), self.blob_reader.pos_of()),
                old(self).is_finished() ==> self.blob_reader.is_finished(),
            decreases self.blob_reader.data_of().len() - self.blob_reader.pos_of(),
        {
            let ghost cur = self.blob_reader.pos_of();
            let blob: Blob = match self.blob_reader.next() {
                None => { return Ok(()); },
                Some(Err(e)) => { return Err(e); },
                Some(Ok(b)) => b,
            };
            match blob.get_type() {
                BlobType::OsmData => {
                    let block: PrimitiveBlock = match blob.decode() {
                        Err(e) => { return Err(e); },
                        Ok(BlobDecode::OsmData(b)) => b,
                        Ok(_) => {
                            proof {
                                assert(false);
                            }
                            return Ok(());
                        },
                    };
                    match Self::walk_block(&block, &mut cb) {
                        Ok(()) => {},
                        Err(e) => { return Err(e); },
                    }
                },
                _ => {},
            }
        }
    }

    /// Hand every element of one decoded block to the callback, dense
    /// nodes first, then nodes, ways and relations, group by group; the
    /// result is the first error of the traversal, as `block_result` says.
    #[verifier::rlimit(60)]
    pub fn walk_block<F: FnMut(Element)>(block: &PrimitiveBlock, cb: &mut F) -> (r: Result<
        (),
        OsmPbfError,
    >)
        ensures
            r == block_result(block.block@),
    {
        let ghost bv = block.block@;
        let ghost st = block.block@.stringtable;
        let mut git = block.groups();
        loop
            invariant
                git.block_of() == block.block,
                bv == block.block@,
                st == bv.stringtable,
                0 <= git.pos_of() <= bv.primitivegroup.len(),
                block_result_upto(bv, git.pos_of()) == Ok::<(), OsmPbfError>(()),
            decreases bv.primitivegroup.len() - git.pos_of(),
        {
            let ghost k = git.pos_of();
            let group = match git.next() {
                None => { return Ok(()); },
                Some(g) => g,
            };
            let ghost gv = bv.primitivegroup[k];
            proof {
                assert(gv == (*group.group)@);
            }
            let mut dit = group.dense_node();
            loop
                invariant_except_break
                    match dit.dense_of() {
                        Option::Some(d) => !dit.is_finished() && 0 <= dit.pos_of()
                            <= dense_count(d) && dit.kv_pos_of() == kv_cursor(
                            d.keys_vals,
                            dit.pos_of(),
                        ) && dense_section(st, d, dit.pos_of()) == Ok::<(), OsmPbfError>(()),
                        Option::None => true,
                    },
                invariant
                    dit.wf(),
                    dit.block_of() == block.block,
                    dit.dense_of() == gv.dense,
                    bv == block.block@,
                    st == bv.stringtable,
                    gv == (*group.group)@,
                    0 <= k < bv.primitivegroup.len(),
                    gv == bv.primitivegroup[k],
                    block_result_upto(bv, k) == Ok::<(), OsmPbfError>(()),
                ensures
                    match gv.dense {
                        Option::Some(d) => dense_section(st, d, dense_count(d)) == Ok::<
                            (),
                            OsmPbfError,
                        >(()),
                        Option::None => true,
                    },
                decreases (match dit.dense_of() {
                    Option::Some(d) => dense_count(d) - dit.pos_of(),
                    Option::None => 0,
                }),
            {
                let ghost oldpos = dit.pos_of();
                let ghost kvpre = dit.kv_pos_of();
                let ghost dpre = dit.dense_of();
                match dit.next() {
                    None => { break ; },
                    Some(Ok(n)) => {
                        proof {
                            let d = dpre->Some_0;
                            let kv = d.keys_vals;
                            assert(st == block.block@.stringtable);
                            assert(tags_of(
                                block.block@.stringtable,
                                dense_keys(kv.subrange(kvpre, kv_seg_end(kv, kvpre))),
                                dense_vals(kv.subrange(kvpre, kv_seg_end(kv, kvpre))),
                            ) is Ok);
                            assert(kvpre == kv_cursor(kv, oldpos));
                            assert(kv_cursor(kv, oldpos + 1) == kv_next(kv, kv_cursor(kv, oldpos)));
                            assert(kv_cursor(kv, oldpos + 1) == kv_next(kv, kvpre));
                            assert(dense_section(st, d, oldpos + 1) == Ok::<(), OsmPbfError>(()));
                        }
                        invoke(cb, Element::Node(n));
                    },
                    Some(Err(e)) => {
                        proof {
                            assert(dpre is Some);
                            let d = dpre->Some_0;
                            let kv = d.keys_vals;
                            assert(st == block.block@.stringtable);
                            assert(kvpre == kv_cursor(kv, oldpos));
                            assert(oldpos < dense_count(d));
                            assert(tags_of(
                                block.block@.stringtable,
                                dense_keys(kv.subrange(kvpre, kv_seg_end(kv, kvpre))),
                                dense_vals(kv.subrange(kvpre, kv_seg_end(kv, kvpre))),
                            ) == Err::<Seq<(Seq<char>, Seq<char>)>, OsmPbfError>(e));
                            assert(dense_section(st, d, oldpos + 1) == Err::<(), OsmPbfError>(e));
                            lemma_dense_section_err(st, d, oldpos + 1, dense_count(d));
                            assert(group_result(st, gv) == Err::<(), OsmPbfError>(e));
                            lemma_block_upto_err(bv, k + 1, bv.primitivegroup.len() as int);
                        }
                        return Err(e);
                    },
                }
            }
            let mut nit = group.nodes();
            loop
                invariant
                    nit.block_of() == block.block,
                    nit.group_of() == *group.group,
                    bv == block.block@,
                    st == bv.stringtable,
                    gv == (*group.group)@,
                    0 <= k < bv.primitivegroup.len(),
                    gv == bv.primitivegroup[k],
                    block_result_upto(bv, k) == Ok::<(), OsmPbfError>(()),
                    match gv.dense {
                        Option::Some(d) => dense_section(st, d, dense_count(d)) == Ok::<
                            (),
                            OsmPbfError,
                        >(()),
                        Option::None => true,
                    },
                    0 <= nit.pos_of() <= gv.nodes.len(),
                    nodes_section(st, gv.nodes, nit.pos_of()) == Ok::<(), OsmPbfError>(()),
                ensures
                    nodes_section(st, gv.nodes, gv.nodes.len() as int) == Ok::<(), OsmPbfError>(()),
                decreases gv.nodes.len() - nit.pos_of(),
            {
                let ghost oldpos = nit.pos_of();
                match nit.next() {
                    None => { break ; },
                    Some(Ok(n)) => {
                        proof {
                            assert(gv.nodes[oldpos] == group.group.nodes@[oldpos]@);
                        }
                        invoke(cb, Element::Node(n));
                    },
                    Some(Err(e)) => {
                        proof {
                            assert(gv.nodes[oldpos] == group.group.nodes@[oldpos]@);
                            assert(nodes_section(st, gv.nodes, oldpos + 1) == Err::<
                                (),
                                OsmPbfError,
                            >(e));
                            lemma_nodes_section_err(st, gv.nodes, oldpos + 1, gv.nodes.len() as int);
                            assert(group_result(st, gv) == Err::<(), OsmPbfError>(e));
                            lemma_block_upto_err(bv, k + 1, bv.primitivegroup.len() as int);
                        }
                        return Err(e);
                    },
                }
            }
            let mut wit = group.ways();
            loop
                invariant
                    wit.block_of() == block.block,
                    wit.group_of() == *group.group,
                    bv == block.block@,
                    st == bv.stringtable,
                    gv == (*group.group)@,
                    0 <= k < bv.primitivegroup.len(),
                    gv == bv.primitivegroup[k],
                    block_result_upto(bv, k) == Ok::<(), OsmPbfError>(()),
                    match gv.dense {
                        Option::Some(d) => dense_section(st, d, dense_count(d)) == Ok::<
                            (),
                            OsmPbfError,
                        >(()),
                        Option::None => true,
                    },
                    nodes_section(st, gv.nodes, gv.nodes.len() as int) == Ok::<(), OsmPbfError>(()),
                    0 <= wit.pos_of() <= gv.ways.len(),
                    ways_section(st, gv.ways, wit.pos_of()) == Ok::<(), OsmPbfError>(()),
                ensures
                    ways_section(st, gv.ways, gv.ways.len() as int) == Ok::<(), OsmPbfError>(()),
                decreases gv.ways.len() - wit.pos_of(),
            {
                let ghost oldpos = wit.pos_of();
                match wit.next() {
                    None => { break ; },
                    Some(Ok(w)) => {
                        proof {
                            assert(gv.ways[oldpos] == group.group.ways@[oldpos]@);
                        }
                        invoke(cb, Element::Way(w));
                    },
                    Some(Err(e)) => {
                        proof {
                            assert(gv.ways[oldpos] == group.group.ways@[oldpos]@);
                            assert(ways_section(st, gv.ways, oldpos + 1) == Err::<(), OsmPbfError>(
                                e,
                            ));
                            lemma_ways_section_err(st, gv.ways, oldpos + 1, gv.ways.len() as int);
                            assert(group_result(st, gv) == Err::<(), OsmPbfError>(e));
                            lemma_block_upto_err(bv, k + 1, bv.primitivegroup.len() as int);
                        }
                        return Err(e);
                    },
                }
            }
            let mut rit = group.relations();
            loop
                invariant
                    rit.block_of() == block.block,
                    rit.group_of() == *group.group,
                    bv == block.block@,
                    st == bv.stringtable,
                    gv == (*group.group)@,
                    0 <= k < bv.primitivegroup.len(),
                    gv == bv.primitivegroup[k],
                    block_result_upto(bv, k) == Ok::<(), OsmPbfError>(()),
                    match gv.dense {
                        Option::Some(d) => dense_section(st, d, dense_count(d)) == Ok::<
                            (),
                            OsmPbfError,
                        >(()),
                        Option::None => true,
                    },
                    nodes_section(st, gv.nodes, gv.nodes.len() as int) == Ok::<(), OsmPbfError>(()),
                    ways_section(st, gv.ways, gv.ways.len() as int) == Ok::<(), OsmPbfError>(()),
                    0 <= rit.pos_of() <= gv.relations.len(),
                    rels_section(st, gv.relations, rit.pos_of()) == Ok::<(), OsmPbfError>(()),
                ensures
                    rels_section(st, gv.relations, gv.relations.len() as int) == Ok::<
                        (),
                        OsmPbfError,
                    >(()),
                decreases gv.relations.len() - rit.pos_of(),
            {
                let ghost oldpos = rit.pos_of();
                match rit.next() {
                    None => { break ; },
                    Some(Ok(rl)) => {
                        proof {
                            assert(gv.relations[oldpos] == group.group.relations@[oldpos]@);
                        }
                        invoke(cb, Element::Relation(rl));
                    },
                    Some(Err(e)) => {
                        proof {
                            assert(gv.relations[oldpos] == group.group.relations@[oldpos]@);
                            assert(rels_section(st, gv.relations, oldpos + 1) == Err::<
                                (),
                                OsmPbfError,
                            >(e));
                            lemma_rels_section_err(
                                st,
                                gv.relations,
                                oldpos + 1,
                                gv.relations.len() as int,
                            );
                            assert(group_result(st, gv) == Err::<(), OsmPbfError>(e));
                            lemma_block_upto_err(bv, k + 1, bv.primitivegroup.len() as int);
                        }
                        return Err(e);
                    },
                }
            }
            proof {
                assert(group_result(st, gv) == Ok::<(), OsmPbfError>(()));
                assert(block_result_upto(bv, k + 1) == Ok::<(), OsmPbfError>(()));
            }
        }
    }
}

} // verus!
