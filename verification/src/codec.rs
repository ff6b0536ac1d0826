//! The persisted binary format of a model state, verified end to end.
//!
//! A snapshot is laid out as its four tensors in the fixed order
//! `w1, b1, w2, b2`.  Each tensor is its element count as a little-endian
//! 64-bit header followed by the elements, four little-endian bytes each —
//! exactly a scalar's single-precision bit pattern, so files keep their
//! meaning for any consumer that reads the scalars as floats.
//!
//! [`is_state_encoding`] is the format's definition; [`encode_state`]
//! produces a witness of it and [`decode_state`] accepts exactly the byte
//! strings that satisfy it.  Uniqueness in both directions is proved: one
//! snapshot has one encoding, and one encoding decodes to one snapshot.

use vstd::prelude::*;

use vstd::bytes::lemma_auto_spec_u32_to_from_le_bytes;
use vstd::bytes::lemma_auto_spec_u64_to_from_le_bytes;
use vstd::bytes::spec_u32_from_le_bytes;
use vstd::bytes::spec_u32_to_le_bytes;
use vstd::bytes::spec_u64_from_le_bytes;
use vstd::bytes::spec_u64_to_le_bytes;
use vstd::bytes::u32_from_le_bytes;
use vstd::bytes::u32_to_le_bytes;
use vstd::bytes::u64_from_le_bytes;
use vstd::bytes::u64_to_le_bytes;
use vstd::slice::slice_subrange;

use crate::error::NNError;
use crate::state::ModelState;
use crate::state::StateView;

verus! {

/// How many bytes the encoding of one tensor occupies: an 8-byte length
/// header plus four bytes per element.
pub open spec fn tensor_encoding_len(t: Seq<u32>) -> int {
    8 + 4 * (t.len() as int)
}

/// `b` is exactly the encoding of the tensor `t`: the element count as a
/// little-endian 64-bit header, then each element as four little-endian
/// bytes, in order.
pub open spec fn is_tensor_encoding(b: Seq<u8>, t: Seq<u32>) -> bool {
    &&& t.len() <= u64::MAX
    &&& b.len() == tensor_encoding_len(t)
    &&& b.subrange(0, 8) == spec_u64_to_le_bytes(t.len() as u64)
    &&& forall|i: int|
        0 <= i < t.len() ==> #[trigger] b.subrange(8 + 4 * i, 12 + 4 * i) == spec_u32_to_le_bytes(
            t[i],
        )
}

/// `b` is exactly the encoding of the snapshot `s`: the four tensor
/// encodings concatenated in the fixed field order `w1, b1, w2, b2`.
pub open spec fn is_state_encoding(b: Seq<u8>, s: StateView) -> bool {
    let m1 = tensor_encoding_len(s.w1);
    let m2 = m1 + tensor_encoding_len(s.b1);
    let m3 = m2 + tensor_encoding_len(s.w2);
    let m4 = m3 + tensor_encoding_len(s.b2);
    &&& b.len() == m4
    &&& is_tensor_encoding(b.subrange(0, m1), s.w1)
    &&& is_tensor_encoding(b.subrange(m1, m2), s.b1)
    &&& is_tensor_encoding(b.subrange(m2, m3), s.w2)
    &&& is_tensor_encoding(b.subrange(m3, m4), s.b2)
}

/// Appends the four little-endian bytes of `x`.
fn encode_u32_into(out: &mut Vec<u8>, x: u32)
    ensures
        final(out)@ == old(out)@ + spec_u32_to_le_bytes(x),
{
    let mut bytes = u32_to_le_bytes(x);
    out.append(&mut bytes);
}

/// Appends the eight little-endian bytes of `x`.
fn encode_u64_into(out: &mut Vec<u8>, x: u64)
    ensures
        final(out)@ == old(out)@ + spec_u64_to_le_bytes(x),
{
    let mut bytes = u64_to_le_bytes(x);
    out.append(&mut bytes);
}

/// Appends the encoding of one tensor: length header, then the elements.
fn encode_tensor_into(out: &mut Vec<u8>, t: &Vec<u32>)
    ensures
        final(out)@.len() == old(out)@.len() + tensor_encoding_len(t@),
        final(out)@.subrange(0, old(out)@.len() as int) == old(out)@,
        is_tensor_encoding(
            final(out)@.subrange(old(out)@.len() as int, final(out)@.len() as int),
            t@,
        ),
{
    let ghost prefix: Seq<u8> = out@;
    let ghost base: int = out@.len() as int;
    let n = t.len();
    encode_u64_into(out, n as u64);
    proof {
        lemma_auto_spec_u64_to_from_le_bytes();
        assert(out@.subrange(0, base) =~= prefix);
        assert(out@.subrange(base, base + 8) =~= spec_u64_to_le_bytes(n as u64));
    }
    let mut i: usize = 0;
    while i < n
        invariant
            i <= n,
            n == t@.len(),
            out@.len() == base + 8 + 4 * i,
            base == prefix.len(),
            out@.subrange(0, base) == prefix,
            out@.subrange(base, base + 8) == spec_u64_to_le_bytes(n as u64),
            forall|j: int|
                0 <= j < i ==> #[trigger] out@.subrange(base + 8 + 4 * j, base + 12 + 4 * j)
                    == spec_u32_to_le_bytes(t@[j]),
        decreases n - i,
    {
        let ghost before: Seq<u8> = out@;
        encode_u32_into(out, t[i]);
        proof {
            lemma_auto_spec_u32_to_from_le_bytes();
            assert(out@.subrange(0, base) =~= before.subrange(0, base));
            assert(out@.subrange(base, base + 8) =~= before.subrange(base, base + 8));
            assert forall|j: int| 0 <= j < i + 1 implies #[trigger] out@.subrange(
                base + 8 + 4 * j,
                base + 12 + 4 * j,
            ) == spec_u32_to_le_bytes(t@[j]) by {
                if j < i {
                    assert(out@.subrange(base + 8 + 4 * j, base + 12 + 4 * j) =~= before.subrange(
                        base + 8 + 4 * j,
                        base + 12 + 4 * j,
                    ));
                } else {
                    assert(out@.subrange(base + 8 + 4 * j, base + 12 + 4 * j)
                        =~= spec_u32_to_le_bytes(t@[i as int]));
                }
            }
        }
        i = i + 1;
    }
    proof {
        let seg = out@.subrange(base, base + 8 + 4 * t@.len());
        assert(seg.subrange(0, 8) =~= out@.subrange(base, base + 8));
        assert forall|j: int| 0 <= j < t@.len() implies #[trigger] seg.subrange(
            8 + 4 * j,
            12 + 4 * j,
        ) == spec_u32_to_le_bytes(t@[j]) by {
            assert(seg.subrange(8 + 4 * j, 12 + 4 * j) =~= out@.subrange(
                base + 8 + 4 * j,
                base + 12 + 4 * j,
            ));
        }
    }
}

/// Encodes a snapshot into the persisted byte layout.
///
/// Total: the result always satisfies [`is_state_encoding`] for the given
/// snapshot, whatever the tensor lengths.
pub fn encode_state(state: &ModelState) -> (bytes: Vec<u8>)
    ensures
        is_state_encoding(bytes@, state@),
{
    let mut out: Vec<u8> = Vec::new();
    let ghost v: StateView = state@;
    encode_tensor_into(&mut out, &state.w1);
    let ghost s1: Seq<u8> = out@;
    encode_tensor_into(&mut out, &state.b1);
    let ghost s2: Seq<u8> = out@;
    encode_tensor_into(&mut out, &state.w2);
    let ghost s3: Seq<u8> = out@;
    encode_tensor_into(&mut out, &state.b2);
    proof {
        let m1 = tensor_encoding_len(v.w1);
        let m2 = m1 + tensor_encoding_len(v.b1);
        let m3 = m2 + tensor_encoding_len(v.w2);
        let m4 = m3 + tensor_encoding_len(v.b2);
        assert(out@.subrange(0, m3) =~= s3.subrange(0, m3));
        assert(s3.subrange(0, m2) =~= s2.subrange(0, m2));
        assert(s2.subrange(0, m1) =~= s1.subrange(0, m1));
        assert(out@.subrange(0, m1) =~= s1.subrange(0, m1));
        assert(out@.subrange(m1, m2) =~= s2.subrange(m1, m2));
        assert(out@.subrange(m2, m3) =~= s3.subrange(m2, m3));
        assert(s1.subrange(0, m1) =~= s1);
        assert(s2.subrange(m1, m2) =~= s2.subrange(s1.len() as int, s2.len() as int));
        assert(s3.subrange(m2, m3) =~= s3.subrange(s2.len() as int, s3.len() as int));
        assert(out@.subrange(m3, m4) =~= out@.subrange(s3.len() as int, out@.len() as int));
    }
    out
}

/// A tensor encoding that starts at a given position is unique: its length
/// header pins the end position and every element byte for byte.
pub proof fn lemma_tensor_encoding_unique(
    b: Seq<u8>,
    start: int,
    e1: int,
    t1: Seq<u32>,
    e2: int,
    t2: Seq<u32>,
)
    requires
        0 <= start <= e1 <= b.len(),
        start <= e2 <= b.len(),
        is_tensor_encoding(b.subrange(start, e1), t1),
        is_tensor_encoding(b.subrange(start, e2), t2),
    ensures
        e1 == e2,
        t1 == t2,
{
    lemma_auto_spec_u64_to_from_le_bytes();
    lemma_auto_spec_u32_to_from_le_bytes();
    let s1 = b.subrange(start, e1);
    let s2 = b.subrange(start, e2);
    assert(s1.subrange(0, 8) =~= b.subrange(start, start + 8));
    assert(s2.subrange(0, 8) =~= b.subrange(start, start + 8));
    assert(spec_u64_from_le_bytes(spec_u64_to_le_bytes(t1.len() as u64)) == t1.len() as u64);
    assert(spec_u64_from_le_bytes(spec_u64_to_le_bytes(t2.len() as u64)) == t2.len() as u64);
    assert(t1.len() == t2.len());
    assert forall|i: int| 0 <= i < t1.len() implies t1[i] == t2[i] by {
        assert(s1.subrange(8 + 4 * i, 12 + 4 * i) == spec_u32_to_le_bytes(t1[i]));
        assert(s2.subrange(8 + 4 * i, 12 + 4 * i) == spec_u32_to_le_bytes(t2[i]));
        assert(spec_u32_from_le_bytes(spec_u32_to_le_bytes(t1[i])) == t1[i]);
        assert(spec_u32_from_le_bytes(spec_u32_to_le_bytes(t2[i])) == t2[i]);
    }
    assert(t1 =~= t2);
}

/// One tensor has one encoding: two byte strings that both encode `t` are
/// equal byte for byte.
pub proof fn lemma_tensor_encoding_deterministic(x: Seq<u8>, y: Seq<u8>, t: Seq<u32>)
    requires
        is_tensor_encoding(x, t),
        is_tensor_encoding(y, t),
    ensures
        x == y,
{
    assert forall|k: int| 0 <= k < x.len() implies x[k] == y[k] by {
        if k < 8 {
            assert(x.subrange(0, 8)[k] == x[k]);
            assert(y.subrange(0, 8)[k] == y[k]);
        } else {
            let j = (k - 8) / 4;
            let r = (k - 8) % 4;
            assert(k - 8 == 4 * j + r && 0 <= r < 4);
            assert(0 <= j < t.len());
            assert(x.subrange(8 + 4 * j, 12 + 4 * j) == spec_u32_to_le_bytes(t[j]));
            assert(y.subrange(8 + 4 * j, 12 + 4 * j) == spec_u32_to_le_bytes(t[j]));
            assert(x.subrange(8 + 4 * j, 12 + 4 * j)[r] == x[8 + 4 * j + r]);
            assert(y.subrange(8 + 4 * j, 12 + 4 * j)[r] == y[8 + 4 * j + r]);
        }
    }
    assert(x =~= y);
}

/// One snapshot has one encoding: the persisted byte layout is
/// deterministic.
pub proof fn lemma_state_encoding_deterministic(x: Seq<u8>, y: Seq<u8>, v: StateView)
    requires
        is_state_encoding(x, v),
        is_state_encoding(y, v),
    ensures
        x == y,
{
    let m1 = tensor_encoding_len(v.w1);
    let m2 = m1 + tensor_encoding_len(v.b1);
    let m3 = m2 + tensor_encoding_len(v.w2);
    let m4 = m3 + tensor_encoding_len(v.b2);
    lemma_tensor_encoding_deterministic(x.subrange(0, m1), y.subrange(0, m1), v.w1);
    lemma_tensor_encoding_deterministic(x.subrange(m1, m2), y.subrange(m1, m2), v.b1);
    lemma_tensor_encoding_deterministic(x.subrange(m2, m3), y.subrange(m2, m3), v.w2);
    lemma_tensor_encoding_deterministic(x.subrange(m3, m4), y.subrange(m3, m4), v.b2);
    assert forall|k: int| 0 <= k < x.len() implies x[k] == y[k] by {
        if k < m1 {
            assert(x.subrange(0, m1)[k] == x[k]);
            assert(y.subrange(0, m1)[k] == y[k]);
        } else if k < m2 {
            assert(x.subrange(m1, m2)[k - m1] == x[k]);
            assert(y.subrange(m1, m2)[k - m1] == y[k]);
        } else if k < m3 {
            assert(x.subrange(m2, m3)[k - m2] == x[k]);
            assert(y.subrange(m2, m3)[k - m2] == y[k]);
        } else {
            assert(x.subrange(m3, m4)[k - m3] == x[k]);
            assert(y.subrange(m3, m4)[k - m3] == y[k]);
        }
    }
    assert(x =~= y);
}

/// One encoding decodes to one snapshot: two snapshots with the same
/// encoding are equal, tensor by tensor.  Together with
/// [`lemma_state_encoding_deterministic`] this makes encode followed by
/// decode the identity on snapshots.
pub proof fn lemma_state_encoding_injective(b: Seq<u8>, v1: StateView, v2: StateView)
    requires
        is_state_encoding(b, v1),
        is_state_encoding(b, v2),
    ensures
        v1 == v2,
{
    let m1 = tensor_encoding_len(v1.w1);
    let m2 = m1 + tensor_encoding_len(v1.b1);
    let m3 = m2 + tensor_encoding_len(v1.w2);
    let m4 = m3 + tensor_encoding_len(v1.b2);
    let p1 = tensor_encoding_len(v2.w1);
    let p2 = p1 + tensor_encoding_len(v2.b1);
    let p3 = p2 + tensor_encoding_len(v2.w2);
    let p4 = p3 + tensor_encoding_len(v2.b2);
    lemma_tensor_encoding_unique(b, 0, m1, v1.w1, p1, v2.w1);
    lemma_tensor_encoding_unique(b, m1, m2, v1.b1, p2, v2.b1);
    lemma_tensor_encoding_unique(b, m2, m3, v1.w2, p3, v2.w2);
    lemma_tensor_encoding_unique(b, m3, m4, v1.b2, p4, v2.b2);
    assert(v1 =~= v2);
}

/// Reads one tensor encoding that starts at `start`.
///
/// On success the returned end position and tensor are the unique ones
/// whose encoding sits there; on failure no tensor encoding at all starts
/// at `start` within `bytes`.
fn decode_tensor(bytes: &Vec<u8>, start: usize) -> (r: Result<(Vec<u32>, usize), NNError>)
    requires
        start <= bytes@.len(),
    ensures
        r matches Ok(p) ==> start <= p.1 <= bytes@.len() && is_tensor_encoding(
            bytes@.subrange(start as int, p.1 as int),
            p.0@,
        ),
        r is Err ==> forall|t: Seq<u32>, end: int|
            start <= end <= bytes@.len() ==> !is_tensor_encoding(
                bytes@.subrange(start as int, end),
                t,
            ),
        r matches Err(e) ==> e == NNError::PersistenceError,
{
    let total = bytes.len();
    if total - start < 8 {
        proof {
            assert forall|t: Seq<u32>, end: int|
                start <= end <= bytes@.len() implies !is_tensor_encoding(
                bytes@.subrange(start as int, end),
                t,
            ) by {
                assert(bytes@.subrange(start as int, end).len() == end - start);
            }
        }
        return Err(NNError::PersistenceError);
    }
    let header = slice_subrange(bytes.as_slice(), start, start + 8);
    let n64 = u64_from_le_bytes(header);
    let rem = total - (start + 8);
    if n64 > (rem / 4) as u64 {
        proof {
            lemma_auto_spec_u64_to_from_le_bytes();
            assert forall|t: Seq<u32>, end: int|
                start <= end <= bytes@.len() implies !is_tensor_encoding(
                bytes@.subrange(start as int, end),
                t,
            ) by {
                let seg = bytes@.subrange(start as int, end);
                if is_tensor_encoding(seg, t) {
                    assert(seg.subrange(0, 8) =~= bytes@.subrange(
                        start as int,
                        start as int + 8,
                    ));
                    assert(spec_u64_from_le_bytes(spec_u64_to_le_bytes(t.len() as u64)) == t.len()
                        as u64);
                    assert(t.len() == n64);
                    assert(4 * (rem as int / 4) + (rem as int % 4) == rem as int);
                    assert(4 * (t.len() as int) > rem as int);
                    assert(end - start == 8 + 4 * (t.len() as int));
                    assert(end > bytes@.len());
                    assert(false);
                }
            }
        }
        return Err(NNError::PersistenceError);
    }
    let n = n64 as usize;
    assert(4 * (rem as int / 4) + (rem as int % 4) == rem as int);
    assert(start + 8 + 4 * n <= total);
    let mut t: Vec<u32> = Vec::new();
    let mut i: usize = 0;
    while i < n
        invariant
            i <= n,
            t@.len() == i,
            total == bytes@.len(),
            start + 8 + 4 * n <= total,
            forall|j: int|
                0 <= j < i ==> t@[j] == spec_u32_from_le_bytes(
                    #[trigger] bytes@.subrange(
                        start + 8 + 4 * j,
                        start + 12 + 4 * j,
                    ),
                ),
        decreases n - i,
    {
        let off = start + 8 + 4 * i;
        let chunk = slice_subrange(bytes.as_slice(), off, off + 4);
        let v = u32_from_le_bytes(chunk);
        t.push(v);
        i = i + 1;
    }
    let end = start + 8 + 4 * n;
    proof {
        lemma_auto_spec_u64_to_from_le_bytes();
        lemma_auto_spec_u32_to_from_le_bytes();
        let seg = bytes@.subrange(start as int, end as int);
        assert(seg.subrange(0, 8) =~= bytes@.subrange(start as int, start as int + 8));
        assert(spec_u64_to_le_bytes(spec_u64_from_le_bytes(seg.subrange(0, 8))) == seg.subrange(
            0,
            8,
        ));
        assert(t@.len() as u64 == n64);
        assert forall|j: int| 0 <= j < t@.len() implies #[trigger] seg.subrange(
            8 + 4 * j,
            12 + 4 * j,
        ) == spec_u32_to_le_bytes(t@[j]) by {
            assert(seg.subrange(8 + 4 * j, 12 + 4 * j) =~= bytes@.subrange(
                start + 8 + 4 * j,
                start + 12 + 4 * j,
            ));
            assert(spec_u32_to_le_bytes(spec_u32_from_le_bytes(seg.subrange(8 + 4 * j, 12 + 4 * j)))
                == seg.subrange(8 + 4 * j, 12 + 4 * j));
        }
    }
    Ok((t, end))
}

/// Decodes the persisted byte layout back into a snapshot.
///
/// Accepts exactly the encodings: on success the bytes are the encoding of
/// the returned snapshot, and on failure no snapshot at all has these bytes
/// as its encoding.  A failure is a `PersistenceError`.
pub fn decode_state(bytes: &Vec<u8>) -> (r: Result<ModelState, NNError>)
    ensures
        r matches Ok(s) ==> is_state_encoding(bytes@, s@),
        r is Err ==> forall|v: StateView| !is_state_encoding(bytes@, v),
        r matches Err(e) ==> e == NNError::PersistenceError,
{
    let (w1, e1) = match decode_tensor(bytes, 0) {
        Ok(p) => p,
        Err(e) => {
            proof {
                assert forall|v: StateView| !is_state_encoding(bytes@, v) by {
                    if is_state_encoding(bytes@, v) {
                        let m1 = tensor_encoding_len(v.w1);
                        assert(is_tensor_encoding(bytes@.subrange(0, m1), v.w1));
                    }
                }
            }
            return Err(e);
        },
    };
    let (b1, e2) = match decode_tensor(bytes, e1) {
        Ok(p) => p,
        Err(e) => {
            proof {
                assert forall|v: StateView| !is_state_encoding(bytes@, v) by {
                    if is_state_encoding(bytes@, v) {
                        let m1 = tensor_encoding_len(v.w1);
                        let m2 = m1 + tensor_encoding_len(v.b1);
                        lemma_tensor_encoding_unique(bytes@, 0, e1 as int, w1@, m1, v.w1);
                        assert(is_tensor_encoding(bytes@.subrange(e1 as int, m2), v.b1));
                    }
                }
            }
            return Err(e);
        },
    };
    let (w2, e3) = match decode_tensor(bytes, e2) {
        Ok(p) => p,
        Err(e) => {
            proof {
                assert forall|v: StateView| !is_state_encoding(bytes@, v) by {
                    if is_state_encoding(bytes@, v) {
                        let m1 = tensor_encoding_len(v.w1);
                        let m2 = m1 + tensor_encoding_len(v.b1);
                        let m3 = m2 + tensor_encoding_len(v.w2);
                        lemma_tensor_encoding_unique(bytes@, 0, e1 as int, w1@, m1, v.w1);
                        lemma_tensor_encoding_unique(bytes@, e1 as int, e2 as int, b1@, m2, v.b1);
                        assert(is_tensor_encoding(bytes@.subrange(e2 as int, m3), v.w2));
                    }
                }
            }
            return Err(e);
        },
    };
    let (b2, e4) = match decode_tensor(bytes, e3) {
        Ok(p) => p,
        Err(e) => {
            proof {
                assert forall|v: StateView| !is_state_encoding(bytes@, v) by {
                    if is_state_encoding(bytes@, v) {
                        let m1 = tensor_encoding_len(v.w1);
                        let m2 = m1 + tensor_encoding_len(v.b1);
                        let m3 = m2 + tensor_encoding_len(v.w2);
                        let m4 = m3 + tensor_encoding_len(v.b2);
                        lemma_tensor_encoding_unique(bytes@, 0, e1 as int, w1@, m1, v.w1);
                        lemma_tensor_encoding_unique(bytes@, e1 as int, e2 as int, b1@, m2, v.b1);
                        lemma_tensor_encoding_unique(bytes@, e2 as int, e3 as int, w2@, m3, v.w2);
                        assert(is_tensor_encoding(bytes@.subrange(e3 as int, m4), v.b2));
                    }
                }
            }
            return Err(e);
        },
    };
    if e4 != bytes.len() {
        proof {
            assert forall|v: StateView| !is_state_encoding(bytes@, v) by {
                if is_state_encoding(bytes@, v) {
                    let m1 = tensor_encoding_len(v.w1);
                    let m2 = m1 + tensor_encoding_len(v.b1);
                    let m3 = m2 + tensor_encoding_len(v.w2);
                    let m4 = m3 + tensor_encoding_len(v.b2);
                    lemma_tensor_encoding_unique(bytes@, 0, e1 as int, w1@, m1, v.w1);
                    lemma_tensor_encoding_unique(bytes@, e1 as int, e2 as int, b1@, m2, v.b1);
                    lemma_tensor_encoding_unique(bytes@, e2 as int, e3 as int, w2@, m3, v.w2);
                    lemma_tensor_encoding_unique(bytes@, e3 as int, e4 as int, b2@, m4, v.b2);
                }
            }
        }
        return Err(NNError::PersistenceError);
    }
    Ok(ModelState { w1, b1, w2, b2 })
}

} // verus!
