//! The dense-node decoder: walks the columnar id/lat/lon delta arrays in
//! lockstep while segmenting the flat `keys_vals` tag-index array, one node
//! per step. Tag segments are coupled to node order by the `0` sentinels; a
//! misplaced sentinel shifts every later node's tags, which is a property of
//! the format itself, preserved here.
use vstd::prelude::*;

use crate::delta::{wrapped_prefix_sum, DeltaDecoder};
use crate::elements::{dense_keys, dense_vals, min3, nano_of, tags_of, Node};
use crate::error::OsmPbfError;
use crate::proto::{DenseNodesData, DenseNodesV, PrimitiveBlockData};

verus! {

/// End of the tag segment that starts at cursor `c`: pairs are consumed
/// while a full pair is available and its first element is nonzero.
pub open spec fn kv_seg_end(kv: Seq<i32>, c: int) -> int
    decreases kv.len() - c,
{
    if c + 2 <= kv.len() && kv[c] != 0 {
        kv_seg_end(kv, c + 2)
    } else {
        c
    }
}

/// Cursor after consuming the segment at `c`: one past the sentinel, or the
/// end of the array when it is exhausted (a trailing lone index is consumed
/// without joining any segment).
pub open spec fn kv_next(kv: Seq<i32>, c: int) -> int {
    if kv_seg_end(kv, c) < kv.len() {
        kv_seg_end(kv, c) + 1
    } else {
        kv_seg_end(kv, c)
    }
}

/// Cursor before the tag segment of the `n`-th node of the batch.
pub open spec fn kv_cursor(kv: Seq<i32>, n: int) -> int
    decreases n,
{
    if n <= 0 {
        0
    } else {
        kv_next(kv, kv_cursor(kv, n - 1))
    }
}

pub proof fn lemma_kv_seg_end_bounds(kv: Seq<i32>, c: int)
    requires
        0 <= c <= kv.len(),
    ensures
        c <= kv_seg_end(kv, c) <= kv.len(),
    decreases kv.len() - c,
{
    if c + 2 <= kv.len() && kv[c] != 0 {
        lemma_kv_seg_end_bounds(kv, c + 2);
    }
}

/// Number of nodes in a batch: a step exists only while all three delta
/// arrays have a next value.
pub open spec fn dense_count(d: DenseNodesV) -> int {
    min3(d.id.len() as int, d.lat.len() as int, d.lon.len() as int)
}

/// Lazy walk over one dense batch. Running sums and the tag cursor start at
/// 0 for the batch; after the first error the iterator is exhausted.
pub struct DenseNodeIterator<'a> {
    block: &'a PrimitiveBlockData,
    dense: Option<&'a DenseNodesData>,
    pos: usize,
    kv_pos: usize,
    id_dec: DeltaDecoder,
    lat_dec: DeltaDecoder,
    lon_dec: DeltaDecoder,
    finished: bool,
}

impl<'a> DenseNodeIterator<'a> {
    pub closed spec fn wf(&self) -> bool {
        match self.dense {
            Option::None => true,
            Option::Some(d) => !self.finished ==> {
                &&& self.pos <= dense_count(d@)
                &&& self.kv_pos == kv_cursor(d@.keys_vals, self.pos as int)
                &&& self.kv_pos <= d@.keys_vals.len()
                &&& self.id_dec.acc == wrapped_prefix_sum(d@.id, self.pos as int)
                &&& self.lat_dec.acc == wrapped_prefix_sum(d@.lat, self.pos as int)
                &&& self.lon_dec.acc == wrapped_prefix_sum(d@.lon, self.pos as int)
            },
        }
    }

    pub closed spec fn block_of(&self) -> PrimitiveBlockData {
        *self.block
    }

    pub closed spec fn dense_of(&self) -> Option<DenseNodesV> {
        match self.dense {
            Option::None => Option::None,
            Option::Some(d) => Option::Some(d@),
        }
    }

    pub closed spec fn pos_of(&self) -> int {
        self.pos as int
    }

    pub closed spec fn kv_pos_of(&self) -> int {
        self.kv_pos as int
    }

    pub closed spec fn is_finished(&self) -> bool {
        self.finished
    }

    pub fn new(block: &'a PrimitiveBlockData, dense_node: &'a DenseNodesData) -> (r: Self)
        ensures
            r.wf(),
            r.block_of() == *block,
            r.dense_of() == Some(dense_node@),
            r.pos_of() == 0,
            r.kv_pos_of() == 0,
            !r.is_finished(),
    {
        DenseNodeIterator {
            block,
            dense: Some(dense_node),
            pos: 0,
            kv_pos: 0,
            id_dec: DeltaDecoder::new(),
            lat_dec: DeltaDecoder::new(),
            lon_dec: DeltaDecoder::new(),
            finished: false,
        }
    }

    /// The iterator of a group without a dense batch: immediately exhausted.
    pub fn empty(block: &'a PrimitiveBlockData) -> (r: Self)
        ensures
            r.wf(),
            r.block_of() == *block,
            r.dense_of() is None,
    {
        DenseNodeIterator {
            block,
            dense: None,
            pos: 0,
            kv_pos: 0,
            id_dec: DeltaDecoder::new(),
            lat_dec: DeltaDecoder::new(),
            lon_dec: DeltaDecoder::new(),
            finished: false,
        }
    }

    pub fn next(&mut self) -> (r: Option<Result<Node, OsmPbfError>>)
        requires
            old(self).wf(),
        ensures
            final(self).wf(),
            final(self).block_of() == old(self).block_of(),
            final(self).dense_of() == old(self).dense_of(),
            old(self).dense_of() is None ==> r is None && *final(self) == *old(self),
            old(self).is_finished() ==> r is None && *final(self) == *old(self),
            !old(self).is_finished() ==> match old(self).dense_of() {
                Option::None => r is None,
                Option::Some(d) => {
                let kv = d.keys_vals;
                let start = old(self).kv_pos_of();
                let seg = kv.subrange(start, kv_seg_end(kv, start));
                if old(self).pos_of() >= dense_count(d) {
                    r is None && final(self).is_finished()
                } else {
                    let n = old(self).pos_of() + 1;
                    let idv = wrapped_prefix_sum(d.id, n);
                    let latv = wrapped_prefix_sum(d.lat, n);
                    let lonv = wrapped_prefix_sum(d.lon, n);
                    match tags_of(
                        old(self).block_of()@.stringtable,
                        dense_keys(seg),
                        dense_vals(seg),
                    ) {
                        Err(er) => r == Some(Err::<Node, OsmPbfError>(er))
                            && final(self).is_finished(),
                        Ok(t) => (r matches Some(nr) && nr matches Ok(nd) && nd.id == idv
                            && nd.nano_lat == nano_of(
                            old(self).block_of().lat_offset,
                            latv,
                            old(self).block_of().granularity,
                        ) && nd.nano_lon == nano_of(
                            old(self).block_of().lon_offset,
                            lonv,
                            old(self).block_of().granularity,
                        ) && nd.tags@ == t) && !final(self).is_finished() && final(self).pos_of()
                            == n && final(self).kv_pos_of() == kv_next(kv, start),
                    }
                }
                },
            },
    {
        let d: &DenseNodesData = match self.dense {
            None => { return None; },
            Some(d) => d,
        };
        if self.finished {
            return None;
        }
        let ghost kv = d@.keys_vals;
        let kv_len: usize = d.keys_vals.len();
        let start = self.kv_pos;
        let mut e = start;
        proof {
            lemma_kv_seg_end_bounds(kv, start as int);
        }
        while e < kv_len && e + 1 < kv_len && d.keys_vals[e] != 0
            invariant
                start <= e <= kv_len,
                kv == d@.keys_vals,
                kv_len == kv.len(),
                kv_seg_end(kv, start as int) == kv_seg_end(kv, e as int),
            decreases kv_len - e,
        {
            e = e + 2;
        }
        proof {
            assert(kv_seg_end(kv, e as int) == e);
        }
        let seg_end = e;
        self.kv_pos = if seg_end < kv_len {
            seg_end + 1
        } else {
            seg_end
        };
        let n_id = d.id.len();
        let n_lat = d.lat.len();
        let n_lon = d.lon.len();
        let m: usize = if n_id <= n_lat && n_id <= n_lon {
            n_id
        } else if n_lat <= n_lon {
            n_lat
        } else {
            n_lon
        };
        if self.pos >= m {
            self.finished = true;
            return None;
        }
        let idv = self.id_dec.push(d.id[self.pos]);
        let latv = self.lat_dec.push(d.lat[self.pos]);
        let lonv = self.lon_dec.push(d.lon[self.pos]);
        let seg = vstd::slice::slice_subrange(d.keys_vals.as_slice(), start, seg_end);
        let node_r = Node::from_dense(self.block, idv, latv, lonv, seg);
        self.pos = self.pos + 1;
        match node_r {
            Ok(n) => Some(Ok(n)),
            Err(er) => {
                self.finished = true;
                Some(Err(er))
            },
        }
    }
}

} // verus!
