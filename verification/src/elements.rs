//! The domain entities decoded out of a block: tagged nodes, ways and
//! relations, together with the string-table accessor and the ordered tag
//! mapping they share. Every entity copies its strings out of the block, so
//! it outlives the decode pass.
use vstd::prelude::*;

use crate::delta::{decode_deltas, decoded_deltas, wrapped_prefix_sum, DeltaDecoder};
use crate::error::OsmPbfError;
use crate::proto::{NodeData, PrimitiveBlockData, RelationData, WayData};
use crate::text::{str_eq, utf8_to_string};

verus! {

/// Resolving one string-table index: out-of-range and invalid UTF-8 are
/// errors, never a silent empty string.
pub open spec fn str_entry(st: Seq<Seq<u8>>, index: int) -> Result<Seq<char>, OsmPbfError> {
    if !(0 <= index < st.len()) {
        Err(OsmPbfError::StringTableIndexOutOfRange)
    } else if !vstd::utf8::valid_utf8(st[index]) {
        Err(OsmPbfError::InvalidUtf8InStringTable)
    } else {
        Ok(vstd::utf8::decode_utf8(st[index]))
    }
}

/// Look one index up in the block's string table.
pub fn str_from_stringtable(block: &PrimitiveBlockData, index: usize) -> (r: Result<String, OsmPbfError>)
    ensures
        match str_entry(block@.stringtable, index as int) {
            Ok(cs) => r matches Ok(s) && s@ == cs,
            Err(e) => r == Err::<String, OsmPbfError>(e),
        },
{
    proof {
        assert(block@.stringtable.len() == block.stringtable@.len());
    }
    if index < block.stringtable.len() {
        proof {
            assert(block@.stringtable[index as int] == block.stringtable@[index as int]@);
        }
        match utf8_to_string(block.stringtable[index].as_slice()) {
            Some(s) => Ok(s),
            None => Err(OsmPbfError::InvalidUtf8InStringTable),
        }
    } else {
        Err(OsmPbfError::StringTableIndexOutOfRange)
    }
}

// ---------------------------------------------------------------------------
// Tags: an ordered string-to-string mapping. Insertion order is table
// order; a repeated key overwrites the value in place (last write wins).
// ---------------------------------------------------------------------------

pub struct TagEntry {
    pub key: String,
    pub value: String,
}

pub struct Tags {
    pub entries: Vec<TagEntry>,
}

impl View for Tags {
    type V = Seq<(Seq<char>, Seq<char>)>;

    open spec fn view(&self) -> Seq<(Seq<char>, Seq<char>)> {
        self.entries@.map_values(|e: TagEntry| (e.key@, e.value@))
    }
}

/// Index of the first entry with key `k` at or after `i`, or -1.
pub open spec fn find_key(s: Seq<(Seq<char>, Seq<char>)>, k: Seq<char>, i: int) -> int
    decreases s.len() - i,
{
    if !(0 <= i < s.len()) {
        -1
    } else if s[i].0 == k {
        i
    } else {
        find_key(s, k, i + 1)
    }
}

/// Last-write-wins insertion that keeps the position of an existing key.
pub open spec fn tags_insert(s: Seq<(Seq<char>, Seq<char>)>, k: Seq<char>, v: Seq<char>) -> Seq<(Seq<char>, Seq<char>)> {
    let i = find_key(s, k, 0);
    if i < 0 {
        s.push((k, v))
    } else {
        s.update(i, (k, v))
    }
}

/// The tag mapping built from the first `n` index pairs, resolving each
/// key and value through the string table; the first failure aborts the
/// whole mapping.
pub open spec fn tags_upto(st: Seq<Seq<u8>>, keys: Seq<u32>, vals: Seq<u32>, n: int) -> Result<
    Seq<(Seq<char>, Seq<char>)>,
    OsmPbfError,
>
    decreases n,
{
    if n <= 0 {
        Ok(Seq::empty())
    } else {
        match tags_upto(st, keys, vals, n - 1) {
            Err(e) => Err(e),
            Ok(acc) => match str_entry(st, keys[n - 1] as int) {
                Err(e) => Err(e),
                Ok(k) => match str_entry(st, vals[n - 1] as int) {
                    Err(e) => Err(e),
                    Ok(v) => Ok(tags_insert(acc, k, v)),
                },
            },
        }
    }
}

pub open spec fn min2(a: int, b: int) -> int {
    if a <= b {
        a
    } else {
        b
    }
}

/// The tag mapping of parallel key/value index arrays: pairs are read while
/// both arrays have a next element.
pub open spec fn tags_of(st: Seq<Seq<u8>>, keys: Seq<u32>, vals: Seq<u32>) -> Result<
    Seq<(Seq<char>, Seq<char>)>,
    OsmPbfError,
> {
    tags_upto(st, keys, vals, min2(keys.len() as int, vals.len() as int))
}

proof fn lemma_tags_err_stable(st: Seq<Seq<u8>>, keys: Seq<u32>, vals: Seq<u32>, n1: int, n2: int)
    requires
        0 <= n1 <= n2,
        tags_upto(st, keys, vals, n1) is Err,
    ensures
        tags_upto(st, keys, vals, n2) == tags_upto(st, keys, vals, n1),
    decreases n2 - n1,
{
    if n2 > n1 {
        lemma_tags_err_stable(st, keys, vals, n1, n2 - 1);
    }
}

impl Tags {
    fn insert(&mut self, key: String, value: String)
        ensures
            final(self)@ == tags_insert(old(self)@, key@, value@),
    {
        let ghost v0 = self@;
        let n: usize = self.entries.len();
        let mut i: usize = 0;
        while i < n
            invariant
                i <= n,
                n == self.entries@.len(),
                *self == *old(self),
                v0 == self@,
                find_key(v0, key@, 0) == find_key(v0, key@, i as int),
            decreases n - i,
        {
            if str_eq(self.entries[i].key.as_str(), key.as_str()) {
                proof {
                    assert(v0[i as int].0 == self.entries@[i as int].key@);
                    assert(find_key(v0, key@, i as int) == i);
                }
                self.entries.remove(i);
                self.entries.insert(i, TagEntry { key, value });
                proof {
                    assert(self@ =~= tags_insert(v0, key@, value@));
                }
                return ;
            }
            proof {
                assert(v0[i as int].0 == self.entries@[i as int].key@);
            }
            i += 1;
        }
        proof {
            assert(find_key(v0, key@, n as int) == -1);
        }
        self.entries.push(TagEntry { key, value });
        proof {
            assert(self@ =~= v0.push((key@, value@)));
        }
    }

    /// Build the ordered mapping from parallel index arrays; any resolution
    /// failure aborts the whole tag set.
    pub fn new(block: &PrimitiveBlockData, keys: &Vec<u32>, vals: &Vec<u32>) -> (r: Result<Tags, OsmPbfError>)
        ensures
            match tags_of(block@.stringtable, keys@, vals@) {
                Ok(t) => r matches Ok(tg) && tg@ == t,
                Err(e) => r == Err::<Tags, OsmPbfError>(e),
            },
    {
        let mut tags = Tags { entries: Vec::new() };
        proof {
            assert(tags@ =~= Seq::<(Seq<char>, Seq<char>)>::empty());
        }
        let m: usize = if keys.len() <= vals.len() {
            keys.len()
        } else {
            vals.len()
        };
        let mut k: usize = 0;
        while k < m
            invariant
                k <= m,
                m == min2(keys@.len() as int, vals@.len() as int),
                tags_upto(block@.stringtable, keys@, vals@, k as int) == Ok::<_, OsmPbfError>(tags@),
            decreases m - k,
        {
            let key = match str_from_stringtable(block, keys[k] as usize) {
                Ok(s) => s,
                Err(e) => {
                    proof {
                        lemma_tags_err_stable(
                            block@.stringtable,
                            keys@,
                            vals@,
                            k as int + 1,
                            m as int,
                        );
                    }
                    return Err(e);
                },
            };
            let value = match str_from_stringtable(block, vals[k] as usize) {
                Ok(s) => s,
                Err(e) => {
                    proof {
                        lemma_tags_err_stable(
                            block@.stringtable,
                            keys@,
                            vals@,
                            k as int + 1,
                            m as int,
                        );
                    }
                    return Err(e);
                },
            };
            tags.insert(key, value);
            k += 1;
        }
        Ok(tags)
    }

    /// Pairs read off a dense `keys_vals` segment: even positions are key
    /// indices, odd positions value indices; a trailing unpaired index is
    /// dropped.
    pub fn from_dense_keys_vals(block: &PrimitiveBlockData, keys_vals_indices: &[i32]) -> (r: Result<Tags, OsmPbfError>)
        ensures
            match tags_of(
                block@.stringtable,
                dense_keys(keys_vals_indices@),
                dense_vals(keys_vals_indices@),
            ) {
                Ok(t) => r matches Ok(tg) && tg@ == t,
                Err(e) => r == Err::<Tags, OsmPbfError>(e),
            },
    {
        let n: usize = keys_vals_indices.len();
        let mut keys: Vec<u32> = Vec::new();
        let mut vals: Vec<u32> = Vec::new();
        let pairs: usize = n / 2;
        let mut j: usize = 0;
        while j < pairs
            invariant
                n == keys_vals_indices@.len(),
                pairs == n / 2,
                j <= pairs,
                keys@.len() == j && vals@.len() == j,
                forall|t: int| 0 <= t < j ==> keys@[t] == keys_vals_indices@[2 * t] as u32,
                forall|t: int| 0 <= t < j ==> vals@[t] == keys_vals_indices@[2 * t + 1] as u32,
            decreases pairs - j,
        {
            let kk = #[verifier::truncate] (keys_vals_indices[2 * j] as u32);
            let vv = #[verifier::truncate] (keys_vals_indices[2 * j + 1] as u32);
            keys.push(kk);
            vals.push(vv);
            j += 1;
        }
        proof {
            assert(keys@ =~= dense_keys(keys_vals_indices@));
            assert(vals@ =~= dense_vals(keys_vals_indices@));
        }
        Tags::new(block, &keys, &vals)
    }
}

/// Key indices of a dense tag segment: the even positions.
pub open spec fn dense_keys(kv: Seq<i32>) -> Seq<u32> {
    Seq::new((kv.len() / 2) as nat, |i: int| kv[2 * i] as u32)
}

/// Value indices of a dense tag segment: the odd positions.
pub open spec fn dense_vals(kv: Seq<i32>) -> Seq<u32> {
    Seq::new((kv.len() / 2) as nat, |i: int| kv[2 * i + 1] as u32)
}

// ---------------------------------------------------------------------------
// Node
// ---------------------------------------------------------------------------

/// A coordinate in nanodegrees: the block offset plus the (cumulative)
/// coordinate value scaled by the block granularity, in wrap-around `i64`
/// arithmetic.
pub open spec fn nano_of(offset: i64, value: i64, granularity: i32) -> i64 {
    offset.wrapping_add(value.wrapping_mul(granularity as i64))
}

pub struct Node {
    pub id: i64,
    pub nano_lat: i64,
    pub nano_lon: i64,
    pub tags: Tags,
}

pub struct NodeView {
    pub id: i64,
    pub nano_lat: i64,
    pub nano_lon: i64,
    pub tags: Seq<(Seq<char>, Seq<char>)>,
}

impl View for Node {
    type V = NodeView;

    open spec fn view(&self) -> NodeView {
        NodeView { id: self.id, nano_lat: self.nano_lat, nano_lon: self.nano_lon, tags: self.tags@ }
    }
}

impl Node {
    /// Apply the block's granularity and offsets to raw coordinate values.
    pub fn new(block: &PrimitiveBlockData, id: i64, lat: i64, lon: i64, tags: Tags) -> (r: Node)
        ensures
            r.id == id,
            r.nano_lat == nano_of(block.lat_offset, lat, block.granularity),
            r.nano_lon == nano_of(block.lon_offset, lon, block.granularity),
            r.tags == tags,
    {
        let g: i64 = block.granularity as i64;
        let nano_lat = block.lat_offset.wrapping_add(lat.wrapping_mul(g));
        let nano_lon = block.lon_offset.wrapping_add(lon.wrapping_mul(g));
        Node { id, nano_lat, nano_lon, tags }
    }

    /// Decode one explicit (non-dense) node record.
    pub fn from_node(block: &PrimitiveBlockData, node: &NodeData) -> (r: Result<Node, OsmPbfError>)
        ensures
            match tags_of(block@.stringtable, node@.keys, node@.vals) {
                Err(e) => r == Err::<Node, OsmPbfError>(e),
                Ok(t) => r matches Ok(n) && n.id == node.id && n.nano_lat == nano_of(
                    block.lat_offset,
                    node.lat,
                    block.granularity,
                ) && n.nano_lon == nano_of(block.lon_offset, node.lon, block.granularity) && n.tags@
                    == t,
            },
    {
        let tags = match Tags::new(block, &node.keys, &node.vals) {
            Ok(t) => t,
            Err(e) => { return Err(e); },
        };
        Ok(Node::new(block, node.id, node.lat, node.lon, tags))
    }

    /// Decode one dense step: the already-reconstructed running sums plus
    /// this node's slice of the flat tag-index array.
    pub fn from_dense(
        block: &PrimitiveBlockData,
        id: i64,
        lat: i64,
        lon: i64,
        keys_vals_indices: &[i32],
    ) -> (r: Result<Node, OsmPbfError>)
        ensures
            match tags_of(
                block@.stringtable,
                dense_keys(keys_vals_indices@),
                dense_vals(keys_vals_indices@),
            ) {
                Err(e) => r == Err::<Node, OsmPbfError>(e),
                Ok(t) => r matches Ok(n) && n.id == id && n.nano_lat == nano_of(
                    block.lat_offset,
                    lat,
                    block.granularity,
                ) && n.nano_lon == nano_of(block.lon_offset, lon, block.granularity) && n.tags@ == t,
            },
    {
        let tags = match Tags::from_dense_keys_vals(block, keys_vals_indices) {
            Ok(t) => t,
            Err(e) => { return Err(e); },
        };
        Ok(Node::new(block, id, lat, lon, tags))
    }
}

// ---------------------------------------------------------------------------
// Way
// ---------------------------------------------------------------------------

pub struct Way {
    pub id: i64,
    pub nodes: Vec<i64>,
    pub tags: Tags,
}

pub struct WayView {
    pub id: i64,
    pub nodes: Seq<i64>,
    pub tags: Seq<(Seq<char>, Seq<char>)>,
}

impl View for Way {
    type V = WayView;

    open spec fn view(&self) -> WayView {
        WayView { id: self.id, nodes: self.nodes@, tags: self.tags@ }
    }
}

impl Way {
    /// Decode one way record: the node references are the running sums of
    /// the delta-coded refs array, restarted at 0 for this way.
    pub fn new(block: &PrimitiveBlockData, way: &WayData) -> (r: Result<Way, OsmPbfError>)
        ensures
            match tags_of(block@.stringtable, way@.keys, way@.vals) {
                Err(e) => r == Err::<Way, OsmPbfError>(e),
                Ok(t) => r matches Ok(w) && w.id == way.id && w.nodes@ == decoded_deltas(way@.refs)
                    && w.tags@ == t,
            },
    {
        let tags = match Tags::new(block, &way.keys, &way.vals) {
            Ok(t) => t,
            Err(e) => { return Err(e); },
        };
        let nodes = decode_deltas(&way.refs);
        Ok(Way { id: way.id, nodes, tags })
    }
}

// ---------------------------------------------------------------------------
// Relation
// ---------------------------------------------------------------------------

/// An element reference: which kind of element a relation member points at,
/// with its id.
#[derive(Clone, Copy, Debug, PartialEq, Eq, Structural)]
pub enum ElementId {
    Node(i64),
    Way(i64),
    Relation(i64),
}

/// The member kind named by a wire type value: 0 node, 1 way, 2 relation;
/// anything else is no kind at all.
pub open spec fn member_id_of(t: i32, id: i64) -> Option<ElementId> {
    if t == 0 {
        Some(ElementId::Node(id))
    } else if t == 1 {
        Some(ElementId::Way(id))
    } else if t == 2 {
        Some(ElementId::Relation(id))
    } else {
        None
    }
}

pub struct RelMember {
    pub member: ElementId,
    pub role: String,
}

pub struct RelMemberView {
    pub member: ElementId,
    pub role: Seq<char>,
}

impl View for RelMember {
    type V = RelMemberView;

    open spec fn view(&self) -> RelMemberView {
        RelMemberView { member: self.member, role: self.role@ }
    }
}

pub open spec fn min3(a: int, b: int, c: int) -> int {
    min2(a, min2(b, c))
}

/// Number of members a relation record yields: ids, roles and types are
/// walked in lockstep while all three have a next element.
pub open spec fn member_count(rel: crate::proto::RelationV) -> int {
    min3(rel.memids.len() as int, rel.roles_sid.len() as int, rel.types.len() as int)
}

/// The members decoded from the first `n` lockstep positions: member ids
/// are running sums restarted at 0, an out-of-range type value is an error,
/// and roles resolve through the string table.
pub open spec fn members_upto(st: Seq<Seq<u8>>, rel: crate::proto::RelationV, n: int) -> Result<
    Seq<RelMemberView>,
    OsmPbfError,
>
    decreases n,
{
    if n <= 0 {
        Ok(Seq::empty())
    } else {
        match members_upto(st, rel, n - 1) {
            Err(e) => Err(e),
            Ok(acc) => {
                let mid = wrapped_prefix_sum(rel.memids, n);
                match member_id_of(rel.types[n - 1], mid) {
                    None => Err(OsmPbfError::UnrecognizedRelationMemberType),
                    Some(m) => match str_entry(st, rel.roles_sid[n - 1] as int) {
                        Err(e) => Err(e),
                        Ok(role) => Ok(acc.push(RelMemberView { member: m, role: role })),
                    },
                }
            },
        }
    }
}

/// All members of a relation record.
pub open spec fn members_of(st: Seq<Seq<u8>>, rel: crate::proto::RelationV) -> Result<
    Seq<RelMemberView>,
    OsmPbfError,
> {
    members_upto(st, rel, member_count(rel))
}

proof fn lemma_members_err_stable(st: Seq<Seq<u8>>, rel: crate::proto::RelationV, n1: int, n2: int)
    requires
        0 <= n1 <= n2,
        members_upto(st, rel, n1) is Err,
    ensures
        members_upto(st, rel, n2) == members_upto(st, rel, n1),
    decreases n2 - n1,
{
    if n2 > n1 {
        lemma_members_err_stable(st, rel, n1, n2 - 1);
    }
}

proof fn lemma_members_decode_upto(st: Seq<Seq<u8>>, rel: crate::proto::RelationV, n: int)
    requires
        0 <= n,
    ensures
        members_upto(st, rel, n) matches Ok(ms) ==> ms.len() == n && forall|k: int|
            0 <= k < n ==> member_id_of(
                rel.types[k],
                wrapped_prefix_sum(rel.memids, k + 1),
            ) == Some(#[trigger] ms[k].member) && str_entry(st, rel.roles_sid[k] as int) == Ok::<
                Seq<char>,
                OsmPbfError,
            >(ms[k].role),
    decreases n,
{
    if n > 0 {
        lemma_members_decode_upto(st, rel, n - 1);
    }
}

/// Relation member decode: when a relation's member list decodes, it has
/// one member per lockstep position; the k-th member's kind is named by the
/// k-th type value, its id is the running sum of the first k+1 member-id
/// deltas, and its role is the k-th role index resolved through the string
/// table. A type value outside the three kinds never yields a truncated
/// list: decoding surfaces the error instead (see `members_upto`).
pub proof fn lemma_members_decode(st: Seq<Seq<u8>>, rel: crate::proto::RelationV)
    ensures
        members_of(st, rel) matches Ok(ms) ==> ms.len() == member_count(rel) && forall|k: int|
            0 <= k < member_count(rel) ==> member_id_of(
                rel.types[k],
                wrapped_prefix_sum(rel.memids, k + 1),
            ) == Some(#[trigger] ms[k].member) && str_entry(st, rel.roles_sid[k] as int) == Ok::<
                Seq<char>,
                OsmPbfError,
            >(ms[k].role),
{
    lemma_members_decode_upto(st, rel, member_count(rel));
}

/// Lockstep walk over a relation's member arrays. After the first error the
/// iterator is exhausted.
pub struct RelationMemberIter<'a> {
    block: &'a PrimitiveBlockData,
    rel: &'a RelationData,
    pos: usize,
    dec: DeltaDecoder,
    finished: bool,
}

impl<'a> RelationMemberIter<'a> {
    pub closed spec fn wf(&self) -> bool {
        !self.finished ==> self.pos <= member_count(self.rel@) && self.dec.acc
            == wrapped_prefix_sum(self.rel@.memids, self.pos as int)
    }

    pub closed spec fn block_of(&self) -> PrimitiveBlockData {
        *self.block
    }

    pub closed spec fn rel_of(&self) -> RelationData {
        *self.rel
    }

    pub closed spec fn pos_of(&self) -> int {
        self.pos as int
    }

    pub closed spec fn is_finished(&self) -> bool {
        self.finished
    }

    pub fn new(block: &'a PrimitiveBlockData, rel: &'a RelationData) -> (r: Self)
        ensures
            r.wf(),
            r.block_of() == *block,
            r.rel_of() == *rel,
            r.pos_of() == 0,
            !r.is_finished(),
    {
        RelationMemberIter { block, rel, pos: 0, dec: DeltaDecoder::new(), finished: false }
    }

    pub fn next(&mut self) -> (r: Option<Result<RelMember, OsmPbfError>>)
        requires
            old(self).wf(),
        ensures
            final(self).wf(),
            final(self).block_of() == old(self).block_of(),
            final(self).rel_of() == old(self).rel_of(),
            old(self).is_finished() ==> r is None && *final(self) == *old(self),
            !old(self).is_finished() && old(self).pos_of() >= member_count(old(self).rel_of()@)
                ==> r is None && final(self).is_finished(),
            !old(self).is_finished() && old(self).pos_of() < member_count(old(self).rel_of()@) ==> {
                let st = old(self).block_of()@.stringtable;
                let rel = old(self).rel_of()@;
                let n = old(self).pos_of() + 1;
                let mid = wrapped_prefix_sum(rel.memids, n);
                match member_id_of(rel.types[n - 1], mid) {
                    None => r == Some(
                        Err::<RelMember, OsmPbfError>(OsmPbfError::UnrecognizedRelationMemberType),
                    ) && final(self).is_finished(),
                    Some(m) => match str_entry(st, rel.roles_sid[n - 1] as int) {
                        Err(e) => r == Some(Err::<RelMember, OsmPbfError>(e))
                            && final(self).is_finished(),
                        Ok(role) => (r matches Some(rr) && rr matches Ok(mem) && mem.member == m
                            && mem.role@ == role) && !final(self).is_finished()
                            && final(self).pos_of() == n,
                    },
                }
            },
    {
        if self.finished {
            return None;
        }
        let n_mem = self.rel.memids.len();
        let n_role = self.rel.roles_sid.len();
        let n_typ = self.rel.types.len();
        let m: usize = if n_mem <= n_role && n_mem <= n_typ {
            n_mem
        } else if n_role <= n_typ {
            n_role
        } else {
            n_typ
        };
        if self.pos >= m {
            self.finished = true;
            return None;
        }
        let mid = self.dec.push(self.rel.memids[self.pos]);
        let t = self.rel.types[self.pos];
        let member = if t == 0 {
            ElementId::Node(mid)
        } else if t == 1 {
            ElementId::Way(mid)
        } else if t == 2 {
            ElementId::Relation(mid)
        } else {
            self.finished = true;
            return Some(Err(OsmPbfError::UnrecognizedRelationMemberType));
        };
        let role_idx = self.rel.roles_sid[self.pos];
        let role_r = if role_idx < 0 {
            Err(OsmPbfError::StringTableIndexOutOfRange)
        } else {
            str_from_stringtable(self.block, role_idx as usize)
        };
        let role = match role_r {
            Ok(s) => s,
            Err(e) => {
                self.finished = true;
                return Some(Err(e));
            },
        };
        self.pos = self.pos + 1;
        Some(Ok(RelMember { member, role }))
    }
}

pub struct Relation {
    pub id: i64,
    pub tags: Tags,
    pub members: Vec<RelMember>,
}

pub struct RelationView {
    pub id: i64,
    pub tags: Seq<(Seq<char>, Seq<char>)>,
    pub members: Seq<RelMemberView>,
}

impl View for Relation {
    type V = RelationView;

    open spec fn view(&self) -> RelationView {
        RelationView {
            id: self.id,
            tags: self.tags@,
            members: self.members@.map_values(|m: RelMember| m@),
        }
    }
}

impl Relation {
    /// Decode one relation record: its tag set, then its member list.
    pub fn new(block: &PrimitiveBlockData, relation: &RelationData) -> (r: Result<Relation, OsmPbfError>)
        ensures
            match tags_of(block@.stringtable, relation@.keys, relation@.vals) {
                Err(e) => r == Err::<Relation, OsmPbfError>(e),
                Ok(t) => match members_of(block@.stringtable, relation@) {
                    Err(e) => r == Err::<Relation, OsmPbfError>(e),
                    Ok(ms) => r matches Ok(rl) && rl.id == relation.id && rl.tags@ == t
                        && rl@.members == ms,
                },
            },
    {
        let tags = match Tags::new(block, &relation.keys, &relation.vals) {
            Ok(t) => t,
            Err(e) => { return Err(e); },
        };
        let members = match Relation::members(block, relation) {
            Ok(m) => m,
            Err(e) => { return Err(e); },
        };
        Ok(Relation { id: relation.id, tags, members })
    }

    /// Collect the whole member list of one relation record.
    pub fn members(block: &PrimitiveBlockData, rel: &RelationData) -> (r: Result<Vec<RelMember>, OsmPbfError>)
        ensures
            match members_of(block@.stringtable, rel@) {
                Err(e) => r == Err::<Vec<RelMember>, OsmPbfError>(e),
                Ok(ms) => r matches Ok(v) && v@.map_values(|m: RelMember| m@) == ms,
            },
    {
        let mut it = RelationMemberIter::new(block, rel);
        let mut out: Vec<RelMember> = Vec::new();
        proof {
            assert(out@.map_values(|m: RelMember| m@) =~= Seq::<RelMemberView>::empty());
        }
        loop
            invariant
                it.wf(),
                !it.is_finished(),
                it.block_of() == *block,
                it.rel_of() == *rel,
                0 <= it.pos_of() <= member_count(rel@),
                members_upto(block@.stringtable, rel@, it.pos_of()) == Ok::<_, OsmPbfError>(
                    out@.map_values(|m: RelMember| m@),
                ),
            decreases member_count(rel@) - it.pos_of(),
        {
            let ghost prev_pos = it.pos_of();
            let ghost prev = out@;
            match it.next() {
                None => {
                    return Ok(out);
                },
                Some(Ok(m)) => {
                    out.push(m);
                    proof {
                        assert(out@.map_values(|mm: RelMember| mm@) =~= prev.map_values(
                            |mm: RelMember| mm@,
                        ).push(m@));
                    }
                },
                Some(Err(e)) => {
                    proof {
                        lemma_members_err_stable(
                            block@.stringtable,
                            rel@,
                            prev_pos + 1,
                            member_count(rel@),
                        );
                    }
                    return Err(e);
                },
            }
        }
    }
}

// ---------------------------------------------------------------------------
// Element: the union handed to the traversal callback.
// ---------------------------------------------------------------------------

pub enum Element {
    Node(Node),
    Way(Way),
    Relation(Relation),
}

pub enum ElementView {
    Node(NodeView),
    Way(WayView),
    Relation(RelationView),
}

impl View for Element {
    type V = ElementView;

    open spec fn view(&self) -> ElementView {
        match self {
            Element::Node(n) => ElementView::Node(n@),
            Element::Way(w) => ElementView::Way(w@),
            Element::Relation(r) => ElementView::Relation(r@),
        }
    }
}

} // verus!
