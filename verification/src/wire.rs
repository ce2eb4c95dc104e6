//! The wire layer of the container: base-128 varints, zigzag-coded signed
//! integers, and the tag/length framing that splits an encoded message into
//! raw fields. Every decoder in this crate works over the field sequence this
//! module produces.
use vstd::prelude::*;

verus! {

/// Raw varint value starting at `i`, together with the position after it.
/// `fuel` bounds the number of bytes a single varint may span; the wire
/// format caps it at ten. The value is unbounded here; `varint_at` applies
/// the 64-bit cap.
pub open spec fn varint_val(s: Seq<u8>, i: int, fuel: nat) -> Option<(int, int)>
    decreases fuel,
{
    if fuel == 0 || !(0 <= i < s.len()) {
        None
    } else if s[i] < 128 {
        Some((s[i] as int, i + 1))
    } else {
        match varint_val(s, i + 1, (fuel - 1) as nat) {
            None => None,
            Some((v, j)) => Some(((s[i] - 128) + 128 * v, j)),
        }
    }
}

/// A varint decodes at `i` exactly when at most ten continuation bytes are
/// present before the end of input and the value fits in 64 bits.
pub open spec fn varint_at(s: Seq<u8>, i: int) -> Option<(u64, int)> {
    match varint_val(s, i, 10) {
        None => None,
        Some((v, j)) => if v < 0x1_0000_0000_0000_0000 {
            Some((v as u64, j))
        } else {
            None
        },
    }
}

pub proof fn lemma_varint_val_bounds(s: Seq<u8>, i: int, fuel: nat)
    ensures
        varint_val(s, i, fuel) matches Some(r) ==> i < r.1 <= s.len() && r.0 >= 0,
    decreases fuel,
{
    if fuel > 0 && 0 <= i < s.len() && s[i] >= 128 {
        lemma_varint_val_bounds(s, i + 1, (fuel - 1) as nat);
    }
}

fn read_varint_fuel(s: &[u8], i: usize, fuel: u64) -> (r: Option<(u64, usize)>)
    ensures
        match varint_val(s@, i as int, fuel as nat) {
            None => r is None,
            Some(vj) => if vj.0 < 0x1_0000_0000_0000_0000 {
                r == Some((vj.0 as u64, vj.1 as usize))
            } else {
                r is None
            },
        },
    decreases fuel,
{
    proof {
        lemma_varint_val_bounds(s@, i as int, fuel as nat);
    }
    if fuel == 0 || i >= s.len() {
        return None;
    }
    let b = s[i];
    if b < 128 {
        return Some((b as u64, i + 1));
    }
    match read_varint_fuel(s, i + 1, fuel - 1) {
        None => None,
        Some((v, j)) => {
            proof {
                lemma_varint_val_bounds(s@, i as int + 1, (fuel - 1) as nat);
            }
            if v < 0x0200_0000_0000_0000 {
                Some(((b - 128) as u64 + 128 * v, j))
            } else {
                None
            }
        },
    }
}

/// Read one varint; the result is pinned by `varint_at`.
pub fn read_varint(s: &[u8], i: usize) -> (r: Option<(u64, usize)>)
    ensures
        match varint_at(s@, i as int) {
            None => r is None,
            Some(vj) => r == Some((vj.0, vj.1 as usize)),
        },
{
    read_varint_fuel(s, i, 10)
}

/// Zigzag decoding: even raw values are the non-negative integers in order,
/// odd raw values the negative ones.
pub open spec fn zigzag_decode(n: u64) -> int {
    if n % 2 == 0 {
        n as int / 2
    } else {
        -((n as int + 1) / 2)
    }
}

/// The zigzag value always fits in `i64`; this names it at that type.
pub open spec fn sint64_of(n: u64) -> i64 {
    zigzag_decode(n) as i64
}

/// Varint payload reinterpreted as the low 32 bits, signed.
pub open spec fn int32_of(n: u64) -> i32 {
    n as i32
}

/// Varint payload reinterpreted as a signed 64-bit value.
pub open spec fn int64_of(n: u64) -> i64 {
    n as i64
}

/// Varint payload reinterpreted as the low 32 bits, unsigned.
pub open spec fn uint32_of(n: u64) -> u32 {
    n as u32
}

pub fn unzigzag(n: u64) -> (r: i64)
    ensures
        r == sint64_of(n),
        r as int == zigzag_decode(n),
{
    let h = n / 2;
    if n % 2 == 0 {
        h as i64
    } else {
        -(h as i64) - 1
    }
}

/// One field as framing sees it: its number and its payload, still untyped.
pub enum WireValue {
    Varint(u64),
    Fixed64(Vec<u8>),
    Bytes(Vec<u8>),
    Fixed32(Vec<u8>),
}

pub enum WireValueV {
    Varint(u64),
    Fixed64(Seq<u8>),
    Bytes(Seq<u8>),
    Fixed32(Seq<u8>),
}

pub struct RawField {
    pub field: u64,
    pub value: WireValue,
}

pub struct RawFieldV {
    pub field: u64,
    pub value: WireValueV,
}

impl View for WireValue {
    type V = WireValueV;

    open spec fn view(&self) -> WireValueV {
        match self {
            WireValue::Varint(n) => WireValueV::Varint(*n),
            WireValue::Fixed64(b) => WireValueV::Fixed64(b@),
            WireValue::Bytes(b) => WireValueV::Bytes(b@),
            WireValue::Fixed32(b) => WireValueV::Fixed32(b@),
        }
    }
}

impl View for RawField {
    type V = RawFieldV;

    open spec fn view(&self) -> RawFieldV {
        RawFieldV { field: self.field, value: self.value@ }
    }
}

pub open spec fn fields_view(v: Seq<RawField>) -> Seq<RawFieldV> {
    v.map_values(|f: RawField| f@)
}

/// One field record decoded at position `i`: a varint key holding field
/// number and wire type, then the payload that the wire type dictates.
/// Field number 0 and the two deprecated group wire types are rejected.
pub open spec fn field_at(s: Seq<u8>, i: int) -> Option<(RawFieldV, int)> {
    match varint_at(s, i) {
        None => None,
        Some((key, j)) => {
            let f = key / 8;
            let wt = key % 8;
            if f == 0 {
                None
            } else if wt == 0 {
                match varint_at(s, j) {
                    None => None,
                    Some((v, k)) => Some((RawFieldV { field: f, value: WireValueV::Varint(v) }, k)),
                }
            } else if wt == 1 {
                if j + 8 <= s.len() {
                    Some((RawFieldV { field: f, value: WireValueV::Fixed64(s.subrange(j, j + 8)) }, j + 8))
                } else {
                    None
                }
            } else if wt == 2 {
                match varint_at(s, j) {
                    None => None,
                    Some((len, k)) => if len <= s.len() - k {
                        Some((RawFieldV { field: f, value: WireValueV::Bytes(s.subrange(k, k + len)) }, k + len))
                    } else {
                        None
                    },
                }
            } else if wt == 5 {
                if j + 4 <= s.len() {
                    Some((RawFieldV { field: f, value: WireValueV::Fixed32(s.subrange(j, j + 4)) }, j + 4))
                } else {
                    None
                }
            } else {
                None
            }
        },
    }
}

pub proof fn lemma_field_at_bounds(s: Seq<u8>, i: int)
    ensures
        field_at(s, i) matches Some(r) ==> i < r.1 <= s.len(),
{
    lemma_varint_val_bounds(s, i, 10);
    match varint_at(s, i) {
        None => {},
        Some((key, j)) => {
            lemma_varint_val_bounds(s, j, 10);
        },
    }
}

/// The whole byte range split into fields; `None` when any field is
/// malformed or runs past the end.
pub open spec fn parse_fields_from(s: Seq<u8>, i: int) -> Option<Seq<RawFieldV>>
    decreases s.len() - i,
{
    if i == s.len() {
        Some(Seq::empty())
    } else if !(0 <= i < s.len()) {
        None
    } else {
        match field_at(s, i) {
            None => None,
            Some((f, j)) => if j <= i || j > s.len() {
                None
            } else {
                match parse_fields_from(s, j) {
                    None => None,
                    Some(rest) => Some(seq![f] + rest),
                }
            },
        }
    }
}

fn read_field(s: &[u8], i: usize) -> (r: Option<(RawField, usize)>)
    requires
        i < s@.len(),
    ensures
        match field_at(s@, i as int) {
            None => r is None,
            Some(fj) => r matches Some(rr) && rr.0@ == fj.0 && rr.1 == fj.1 && i < rr.1 <= s@.len(),
        },
{
    proof {
        lemma_field_at_bounds(s@, i as int);
    }
    let slen: usize = s.len();
    proof {
        assert(slen == s@.len());
    }
    let (key, j) = match read_varint(s, i) {
        None => { return None; },
        Some(kj) => kj,
    };
    proof {
        lemma_varint_val_bounds(s@, i as int, 10);
        lemma_varint_val_bounds(s@, j as int, 10);
    }
    let f = key / 8;
    let wt = key % 8;
    if f == 0 {
        return None;
    }
    if wt == 0 {
        match read_varint(s, j) {
            None => None,
            Some((v, k)) => Some((RawField { field: f, value: WireValue::Varint(v) }, k)),
        }
    } else if wt == 1 {
        if j <= s.len() && s.len() - j >= 8 {
            let b = vstd::slice::slice_to_vec(vstd::slice::slice_subrange(s, j, j + 8));
            Some((RawField { field: f, value: WireValue::Fixed64(b) }, j + 8))
        } else {
            None
        }
    } else if wt == 2 {
        match read_varint(s, j) {
            None => None,
            Some((len, k)) => {
                if len <= (s.len() - k) as u64 {
                    let end = k + len as usize;
                    let b = vstd::slice::slice_to_vec(vstd::slice::slice_subrange(s, k, end));
                    Some((RawField { field: f, value: WireValue::Bytes(b) }, end))
                } else {
                    None
                }
            },
        }
    } else if wt == 5 {
        if j <= s.len() && s.len() - j >= 4 {
            let b = vstd::slice::slice_to_vec(vstd::slice::slice_subrange(s, j, j + 4));
            Some((RawField { field: f, value: WireValue::Fixed32(b) }, j + 4))
        } else {
            None
        }
    } else {
        None
    }
}

/// Split an encoded message into its fields; the result is pinned by
/// `parse_fields_from`.
pub fn parse_fields(s: &[u8]) -> (r: Option<Vec<RawField>>)
    ensures
        match parse_fields_from(s@, 0) {
            None => r is None,
            Some(fs) => r matches Some(v) && fields_view(v@) == fs,
        },
{
    let mut out: Vec<RawField> = Vec::new();
    let mut i: usize = 0;
    loop
        invariant
            i <= s@.len(),
            match parse_fields_from(s@, i as int) {
                None => parse_fields_from(s@, 0) is None,
                Some(rest) => parse_fields_from(s@, 0) == Some(fields_view(out@) + rest),
            },
        decreases s@.len() - i,
    {
        if i == s.len() {
            proof {
                assert(fields_view(out@) + Seq::<RawFieldV>::empty() =~= fields_view(out@));
            }
            return Some(out);
        }
        match read_field(s, i) {
            None => { return None; },
            Some((fld, j)) => {
                proof {
                    let ghost prev = out@;
                    assert(fields_view(prev.push(fld)) =~= fields_view(prev) + seq![fld@]);
                }
                let ghost prev = out@;
                out.push(fld);
                proof {
                    match parse_fields_from(s@, j as int) {
                        None => {},
                        Some(rest) => {
                            assert(fields_view(prev) + (seq![fld@] + rest) =~= fields_view(prev.push(fld)) + rest);
                        },
                    }
                }
                i = j;
            },
        }
    }
}

/// A packed repeated field: varints back to back filling the whole payload.
pub open spec fn packed_from(s: Seq<u8>, i: int) -> Option<Seq<u64>>
    decreases s.len() - i,
{
    if i == s.len() {
        Some(Seq::empty())
    } else if !(0 <= i < s.len()) {
        None
    } else {
        match varint_at(s, i) {
            None => None,
            Some((v, j)) => if j <= i || j > s.len() {
                None
            } else {
                match packed_from(s, j) {
                    None => None,
                    Some(rest) => Some(seq![v] + rest),
                }
            },
        }
    }
}

/// The raw values a repeated varint field contributes: one value in the
/// plain encoding, a whole packed run in the packed encoding.
pub open spec fn packed_u64s(v: WireValueV) -> Option<Seq<u64>> {
    match v {
        WireValueV::Varint(n) => Some(seq![n]),
        WireValueV::Bytes(b) => packed_from(b, 0),
        _ => None,
    }
}

fn parse_packed(s: &[u8]) -> (r: Option<Vec<u64>>)
    ensures
        match packed_from(s@, 0) {
            None => r is None,
            Some(vs) => r matches Some(v) && v@ == vs,
        },
{
    let mut out: Vec<u64> = Vec::new();
    let mut i: usize = 0;
    loop
        invariant
            i <= s@.len(),
            match packed_from(s@, i as int) {
                None => packed_from(s@, 0) is None,
                Some(rest) => packed_from(s@, 0) == Some(out@ + rest),
            },
        decreases s@.len() - i,
    {
        if i == s.len() {
            proof {
                assert(out@ + Seq::<u64>::empty() =~= out@);
            }
            return Some(out);
        }
        proof {
            lemma_varint_val_bounds(s@, i as int, 10);
        }
        match read_varint(s, i) {
            None => { return None; },
            Some((v, j)) => {
                let ghost prev = out@;
                out.push(v);
                proof {
                    match packed_from(s@, j as int) {
                        None => {},
                        Some(rest) => {
                            assert(prev + (seq![v] + rest) =~= prev.push(v) + rest);
                        },
                    }
                }
                i = j;
            },
        }
    }
}

/// Raw values of a repeated varint field, plain or packed.
pub fn wire_packed_u64s(v: &WireValue) -> (r: Option<Vec<u64>>)
    ensures
        match packed_u64s(v@) {
            None => r is None,
            Some(vs) => r matches Some(rv) && rv@ == vs,
        },
{
    match v {
        WireValue::Varint(n) => {
            let mut out: Vec<u64> = Vec::new();
            out.push(*n);
            proof {
                assert(out@ =~= seq![*n]);
            }
            Some(out)
        },
        WireValue::Bytes(b) => parse_packed(b.as_slice()),
        _ => None,
    }
}

pub open spec fn seq_sint64(s: Seq<u64>) -> Seq<i64> {
    s.map_values(|n: u64| sint64_of(n))
}

pub open spec fn seq_int32(s: Seq<u64>) -> Seq<i32> {
    s.map_values(|n: u64| int32_of(n))
}

pub open spec fn seq_uint32(s: Seq<u64>) -> Seq<u32> {
    s.map_values(|n: u64| uint32_of(n))
}

pub fn map_sint64(v: &Vec<u64>) -> (r: Vec<i64>)
    ensures
        r@ == seq_sint64(v@),
{
    let mut out: Vec<i64> = Vec::new();
    let mut i: usize = 0;
    while i < v.len()
        invariant
            i <= v@.len(),
            out@.len() == i,
            forall|j: int| 0 <= j < i ==> out@[j] == sint64_of(v@[j]),
        decreases v@.len() - i,
    {
        out.push(unzigzag(v[i]));
        i += 1;
    }
    proof {
        assert(out@ =~= seq_sint64(v@));
    }
    out
}

pub fn map_int32(v: &Vec<u64>) -> (r: Vec<i32>)
    ensures
        r@ == seq_int32(v@),
{
    let mut out: Vec<i32> = Vec::new();
    let mut i: usize = 0;
    while i < v.len()
        invariant
            i <= v@.len(),
            out@.len() == i,
            forall|j: int| 0 <= j < i ==> out@[j] == int32_of(v@[j]),
        decreases v@.len() - i,
    {
        #[verifier::truncate]
        let x = v[i] as i32;
        out.push(x);
        i += 1;
    }
    proof {
        assert(out@ =~= seq_int32(v@));
    }
    out
}

pub fn map_uint32(v: &Vec<u64>) -> (r: Vec<u32>)
    ensures
        r@ == seq_uint32(v@),
{
    let mut out: Vec<u32> = Vec::new();
    let mut i: usize = 0;
    while i < v.len()
        invariant
            i <= v@.len(),
            out@.len() == i,
            forall|j: int| 0 <= j < i ==> out@[j] == uint32_of(v@[j]),
        decreases v@.len() - i,
    {
        #[verifier::truncate]
        let x = v[i] as u32;
        out.push(x);
        i += 1;
    }
    proof {
        assert(out@ =~= seq_uint32(v@));
    }
    out
}

/// Big-endian 32-bit value at `i`: the length prefix of the blob framing.
pub open spec fn be32_at(s: Seq<u8>, i: int) -> u32 {
    (0x1000000 * (s[i] as int) + 0x10000 * (s[i + 1] as int) + 0x100 * (s[i + 2] as int) + (
    s[i + 3] as int)) as u32
}

pub fn read_be32(s: &[u8], i: usize) -> (r: u32)
    requires
        i + 4 <= s@.len(),
    ensures
        r == be32_at(s@, i as int),
{
    let b0 = s[i] as u32;
    let b1 = s[i + 1] as u32;
    let b2 = s[i + 2] as u32;
    let b3 = s[i + 3] as u32;
    0x1000000 * b0 + 0x10000 * b1 + 0x100 * b2 + b3
}

} // verus!
