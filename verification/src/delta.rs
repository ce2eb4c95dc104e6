//! Running-sum primitive for the delta-coded arrays of the format: dense node
//! ids and coordinates, way node references, and relation member ids all store
//! successive differences, and the decoder reconstructs the absolute values.
use vstd::prelude::*;

verus! {

/// Value of the running sum after the first `n` deltas, with `i64` wrap-around
/// (the machine addition the decoder performs).
pub open spec fn wrapped_prefix_sum(deltas: Seq<i64>, n: int) -> i64
    decreases n,
{
    if n <= 0 {
        0i64
    } else {
        wrapped_prefix_sum(deltas, n - 1).wrapping_add(deltas[n - 1])
    }
}

/// Mathematical prefix sum `d_1 + ... + d_n`, without wrap-around.
pub open spec fn prefix_sum(deltas: Seq<i64>, n: int) -> int
    decreases n,
{
    if n <= 0 {
        0
    } else {
        prefix_sum(deltas, n - 1) + deltas[n - 1]
    }
}

/// The decoded form of a delta array: its sequence of running sums.
pub open spec fn decoded_deltas(deltas: Seq<i64>) -> Seq<i64> {
    Seq::new(deltas.len(), |i: int| wrapped_prefix_sum(deltas, i + 1))
}

/// Running-sum state. A fresh decoder starts at 0; each `push` adds one delta
/// and returns the reconstructed absolute value.
pub struct DeltaDecoder {
    pub acc: i64,
}

impl DeltaDecoder {
    pub fn new() -> (r: Self)
        ensures
            r.acc == 0,
    {
        DeltaDecoder { acc: 0 }
    }

    pub fn push(&mut self, d: i64) -> (r: i64)
        ensures
            r == old(self).acc.wrapping_add(d),
            final(self).acc == r,
    {
        self.acc = self.acc.wrapping_add(d);
        self.acc
    }
}

/// Decode a whole delta array into its running sums, starting from 0.
pub fn decode_deltas(deltas: &Vec<i64>) -> (r: Vec<i64>)
    ensures
        r@ == decoded_deltas(deltas@),
{
    let mut out: Vec<i64> = Vec::new();
    let mut dec = DeltaDecoder::new();
    let mut i: usize = 0;
    while i < deltas.len()
        invariant
            i <= deltas.len(),
            out@.len() == i,
            dec.acc == wrapped_prefix_sum(deltas@, i as int),
            forall|j: int| 0 <= j < i ==> out@[j] == wrapped_prefix_sum(deltas@, j + 1),
        decreases deltas.len() - i,
    {
        let v = dec.push(deltas[i]);
        out.push(v);
        i += 1;
    }
    proof {
        assert(out@ =~= decoded_deltas(deltas@));
    }
    out
}

proof fn lemma_prefix_sum_exact_upto(deltas: Seq<i64>, n: int)
    requires
        forall|k: int| 0 <= k <= deltas.len() ==> i64::MIN <= #[trigger] prefix_sum(deltas, k) <= i64::MAX,
        0 <= n <= deltas.len(),
    ensures
        wrapped_prefix_sum(deltas, n) == prefix_sum(deltas, n),
    decreases n,
{
    if n > 0 {
        lemma_prefix_sum_exact_upto(deltas, n - 1);
    }
}

/// Delta-decode correctness: as long as no prefix sum leaves the `i64` range,
/// the decoded sequence is exactly the sequence of mathematical prefix sums
/// `d_1, d_1 + d_2, ...`. The running sum starts from 0, so a decoder used for
/// one way's references or one dense batch never carries state into the next.
pub proof fn lemma_delta_decode_correct(deltas: Seq<i64>)
    requires
        forall|k: int| 0 <= k <= deltas.len() ==> i64::MIN <= #[trigger] prefix_sum(deltas, k) <= i64::MAX,
    ensures
        decoded_deltas(deltas).len() == deltas.len(),
        forall|i: int| 0 <= i < deltas.len() ==> decoded_deltas(deltas)[i] == prefix_sum(deltas, i + 1),
{
    assert forall|i: int| 0 <= i < deltas.len() implies decoded_deltas(deltas)[i] == prefix_sum(
        deltas,
        i + 1,
    ) by {
        lemma_prefix_sum_exact_upto(deltas, i + 1);
    }
}

} // verus!
