use vstd::prelude::*;
use crate::binary32::{milli_bits, milli_to_bits32};
use crate::geometry::{tri_ok, Mesh, Triangle};

verus! {

/// The fixed binary layout: an 80-byte header, a 4-byte little-endian
/// triangle count, then 50 bytes per triangle — twelve little-endian
/// binary32 words (normal, then three vertices, each x, y, z) and a 2-byte
/// attribute field fixed to zero.

/// The little-endian bytes of one 32-bit word.
pub open spec fn le32_bytes(w: u32) -> Seq<u8> {
    seq![
        (w & 0xff) as u8,
        ((w >> 8) & 0xff) as u8,
        ((w >> 16) & 0xff) as u8,
        ((w >> 24) & 0xff) as u8,
    ]
}

/// The 32-bit word read from four little-endian bytes.
pub open spec fn le32_val(b0: u8, b1: u8, b2: u8, b3: u8) -> u32 {
    (b0 as u32) | ((b1 as u32) << 8) | ((b2 as u32) << 16) | ((b3 as u32) << 24)
}

proof fn lemma_le32_roundtrip(w: u32)
    ensures
        le32_val(
            (w & 0xff) as u8,
            ((w >> 8) & 0xff) as u8,
            ((w >> 16) & 0xff) as u8,
            ((w >> 24) & 0xff) as u8,
        ) == w,
{
    assert((((w & 0xff) as u8) as u32) | (((((w >> 8) & 0xff) as u8) as u32) << 8) | (((((w >> 16)
        & 0xff) as u8) as u32) << 16) | (((((w >> 24) & 0xff) as u8) as u32) << 24) == w)
        by (bit_vector);
}

/// The j-th encoded word of a triangle record: its normal, then its three
/// vertices, each as x, y, z.
pub open spec fn tri_word(t: Triangle, j: int) -> u32 {
    if j == 0 {
        milli_bits(t.normal.x as int)
    } else if j == 1 {
        milli_bits(t.normal.y as int)
    } else if j == 2 {
        milli_bits(t.normal.z as int)
    } else if j == 3 {
        milli_bits(t.a.x as int)
    } else if j == 4 {
        milli_bits(t.a.y as int)
    } else if j == 5 {
        milli_bits(t.a.z as int)
    } else if j == 6 {
        milli_bits(t.b.x as int)
    } else if j == 7 {
        milli_bits(t.b.y as int)
    } else if j == 8 {
        milli_bits(t.b.z as int)
    } else if j == 9 {
        milli_bits(t.c.x as int)
    } else if j == 10 {
        milli_bits(t.c.y as int)
    } else {
        milli_bits(t.c.z as int)
    }
}

/// One 50-byte triangle record.
pub open spec fn tri_bytes(t: Triangle) -> Seq<u8> {
    Seq::new(50, |i: int|
        if i < 48 {
            le32_bytes(tri_word(t, i / 4))[i % 4]
        } else {
            0u8
        })
}

/// All triangle records, in sequence order.
pub open spec fn tris_bytes(ts: Seq<Triangle>) -> Seq<u8> {
    Seq::new(50 * ts.len(), |i: int| tri_bytes(ts[i / 50])[i % 50])
}

/// The header carries no information; it is written as 80 zero bytes.
pub open spec fn header_bytes() -> Seq<u8> {
    Seq::new(80, |i: int| 0u8)
}

/// The complete serialized form of a mesh.
pub open spec fn mesh_bytes(m: Mesh) -> Seq<u8> {
    header_bytes() + le32_bytes(m.triangles@.len() as u32) + tris_bytes(m.triangles@)
}

/// The twelve words of every record, flattened in file order.
pub open spec fn mesh_words(ts: Seq<Triangle>) -> Seq<u32> {
    Seq::new(12 * ts.len(), |k: int| tri_word(ts[k / 12], k % 12))
}

/// What re-reading a serialized mesh yields: the triangle count and the
/// stored words, provided the byte length is exactly `84 + 50 * count`.
pub open spec fn parse_spec(b: Seq<u8>) -> Option<(u32, Seq<u32>)> {
    if b.len() < 84 {
        None
    } else {
        let n = le32_val(b[80], b[81], b[82], b[83]);
        if b.len() == 84 + 50 * n {
            Some((n, Seq::new(12 * n as nat, |k: int| word_at(b, k))))
        } else {
            None
        }
    }
}

/// The k-th stored word of a serialized mesh: word `k % 12` of record
/// `k / 12`.
pub open spec fn word_at(b: Seq<u8>, k: int) -> u32 {
    let off = 84 + 50 * (k / 12) + 4 * (k % 12);
    le32_val(b[off], b[off + 1], b[off + 2], b[off + 3])
}

fn push_word(out: &mut Vec<u8>, w: u32)
    ensures
        final(out)@ == old(out)@ + le32_bytes(w),
{
    out.push((w & 0xff) as u8);
    out.push(((w >> 8) & 0xff) as u8);
    out.push(((w >> 16) & 0xff) as u8);
    out.push(((w >> 24) & 0xff) as u8);
    assert(out@ =~= old(out)@ + le32_bytes(w));
}

fn push_triangle(out: &mut Vec<u8>, t: &Triangle)
    requires
        tri_ok(*t),
    ensures
        final(out)@ == old(out)@ + tri_bytes(*t),
{
    push_word(out, milli_to_bits32(t.normal.x));
    push_word(out, milli_to_bits32(t.normal.y));
    push_word(out, milli_to_bits32(t.normal.z));
    push_word(out, milli_to_bits32(t.a.x));
    push_word(out, milli_to_bits32(t.a.y));
    push_word(out, milli_to_bits32(t.a.z));
    push_word(out, milli_to_bits32(t.b.x));
    push_word(out, milli_to_bits32(t.b.y));
    push_word(out, milli_to_bits32(t.b.z));
    push_word(out, milli_to_bits32(t.c.x));
    push_word(out, milli_to_bits32(t.c.y));
    push_word(out, milli_to_bits32(t.c.z));
    out.push(0u8);
    out.push(0u8);
    assert(out@ =~= old(out)@ + tri_bytes(*t));
}

/// Serializes a mesh into the fixed binary layout.  The output length is
/// exactly `84 + 50 * triangle_count` bytes.
pub fn serialize_mesh(m: &Mesh) -> (r: Vec<u8>)
    requires
        m.wf(),
        m.triangles@.len() < 0x1_0000_0000,
    ensures
        r@ == mesh_bytes(*m),
        r@.len() == 84 + 50 * m.triangles@.len(),
{
    let mut out: Vec<u8> = Vec::new();
    let mut i: usize = 0;
    while i < 80
        invariant
            i <= 80,
            out@.len() == i,
            forall|j: int| 0 <= j < i ==> out@[j] == 0u8,
        decreases 80 - i,
    {
        out.push(0u8);
        i += 1;
    }
    assert(out@ =~= header_bytes());
    let n = m.triangles.len();
    push_word(&mut out, n as u32);
    let ghost prefix = header_bytes() + le32_bytes(n as u32);
    let mut i: usize = 0;
    while i < n
        invariant
            n == m.triangles@.len(),
            n < 0x1_0000_0000,
            i <= n,
            m.wf(),
            prefix == header_bytes() + le32_bytes(n as u32),
            out@ == prefix + tris_bytes(m.triangles@.take(i as int)),
        decreases n - i,
    {
        let t = &m.triangles[i];
        push_triangle(&mut out, t);
        proof {
            let taken = m.triangles@.take(i + 1 as int);
            assert(out@ =~= prefix + tris_bytes(taken));
        }
        i += 1;
    }
    proof {
        assert(m.triangles@.take(n as int) =~= m.triangles@);
    }
    out
}

/// Reads the triangle count and the stored 32-bit words back from the fixed
/// binary layout; rejects any byte sequence whose length does not match its
/// own count field.
pub fn parse_mesh(bytes: &Vec<u8>) -> (r: Option<(u32, Vec<u32>)>)
    ensures
        (r matches Some(p) ==> parse_spec(bytes@) == Some((p.0, p.1@))),
        (r is None ==> parse_spec(bytes@) is None),
{
    let blen = bytes.len();
    if blen < 84 {
        return None;
    }
    let n = read_word(bytes, 80);
    proof {
        assert(n == le32_val(bytes@[80], bytes@[81], bytes@[82], bytes@[83]));
    }
    let expected: u64 = 84 + 50 * (n as u64);
    if bytes.len() as u64 != expected {
        return None;
    }
    let mut words: Vec<u32> = Vec::new();
    let mut p: usize = 0;
    while p < n as usize
        invariant
            bytes@.len() == 84 + 50 * n,
            blen == bytes@.len(),
            p <= n,
            words@.len() == 12 * p,
            forall|k: int| 0 <= k < 12 * p ==> words@[k] == word_at(bytes@, k),
        decreases n - p,
    {
        let mut j: usize = 0;
        while j < 12
            invariant
                bytes@.len() == 84 + 50 * n,
                blen == bytes@.len(),
                p < n,
                j <= 12,
                words@.len() == 12 * p + j,
                forall|k: int| 0 <= k < 12 * p + j ==> words@[k] == word_at(bytes@, k),
            decreases 12 - j,
        {
            proof {
                assert(50 * p + 50 <= 50 * n) by (nonlinear_arith)
                    requires
                        p < n,
                ;
                assert(4 * j <= 44);
                assert(84 + 50 * p + 4 * j + 4 <= blen);
            }
            let off = 84 + 50 * p + 4 * j;
            let w = read_word(bytes, off);
            words.push(w);
            proof {
                let k = 12 * p + j;
                assert(k / 12 == p && k % 12 == j) by (nonlinear_arith)
                    requires
                        0 <= j < 12,
                        0 <= p,
                        k == 12 * p + j,
                ;
                assert(words@[k as int] == word_at(bytes@, k as int));
            }
            j += 1;
        }
        p += 1;
    }
    proof {
        assert(Seq::new(12 * n as nat, |k: int| word_at(bytes@, k)) =~= words@);
    }
    Some((n, words))
}

/// Reads one little-endian 32-bit word at byte offset `off`.
fn read_word(bytes: &Vec<u8>, off: usize) -> (w: u32)
    requires
        off + 4 <= bytes@.len(),
    ensures
        w == le32_val(bytes@[off as int], bytes@[off + 1], bytes@[off + 2], bytes@[off + 3]),
{
    let l = bytes.len();
    assert(off + 4 <= l);
    (bytes[off] as u32) | ((bytes[off + 1] as u32) << 8) | ((bytes[off + 2] as u32) << 16) | ((
    bytes[off + 3] as u32) << 24)
}

/// Writing a mesh and re-reading it through the same binary layout loses
/// nothing: the file length is exactly `84 + 50 * count`, the count is
/// reproduced, and every stored normal and vertex word is exactly the
/// encoding of the source coordinate.
pub proof fn lemma_write_read_round_trip(m: Mesh)
    requires
        m.wf(),
        m.triangles@.len() < 0x1_0000_0000,
    ensures
        mesh_bytes(m).len() == 84 + 50 * m.triangles@.len(),
        parse_spec(mesh_bytes(m)) == Some(
            (m.triangles@.len() as u32, mesh_words(m.triangles@)),
        ),
{
    let b = mesh_bytes(m);
    let n = m.triangles@.len();
    let nw = n as u32;
    lemma_le32_roundtrip(nw);
    assert(b[80] == le32_bytes(nw)[0] && b[81] == le32_bytes(nw)[1] && b[82] == le32_bytes(nw)[2]
        && b[83] == le32_bytes(nw)[3]);
    assert(le32_val(b[80], b[81], b[82], b[83]) == nw);
    assert(b.len() == 84 + 50 * n);
    assert forall|k: int| 0 <= k < 12 * n implies #[trigger] word_at(b, k) == tri_word(
        m.triangles@[k / 12],
        k % 12,
    ) by {
        let p = k / 12;
        let j = k % 12;
        assert(0 <= p < n && 0 <= j < 12 && k == 12 * p + j) by (nonlinear_arith)
            requires
                0 <= k < 12 * n,
                p == k / 12,
                j == k % 12,
        ;
        let off = 84 + 50 * p + 4 * j;
        let t = m.triangles@[p];
        assert forall|i: int| 0 <= i < 4 implies b[off + i] == le32_bytes(tri_word(t, j))[i] by {
            let gi = 50 * p + 4 * j + i;
            assert(0 <= gi < 50 * n && gi / 50 == p && gi % 50 == 4 * j + i) by (nonlinear_arith)
                requires
                    0 <= p < n,
                    0 <= j < 12,
                    0 <= i < 4,
                    gi == 50 * p + 4 * j + i,
            ;
            assert(b[off + i] == tris_bytes(m.triangles@)[gi]);
            assert(tri_bytes(t)[4 * j + i] == le32_bytes(tri_word(t, (4 * j + i) / 4))[(4 * j + i)
                % 4]);
            assert((4 * j + i) / 4 == j && (4 * j + i) % 4 == i) by (nonlinear_arith)
                requires
                    0 <= j,
                    0 <= i < 4,
            ;
        }
        let w = tri_word(t, j);
        lemma_le32_roundtrip(w);
        assert(word_at(b, k) == le32_val(
            le32_bytes(w)[0],
            le32_bytes(w)[1],
            le32_bytes(w)[2],
            le32_bytes(w)[3],
        ));
    }
    assert(Seq::new(12 * nw as nat, |k: int| word_at(b, k)) =~= mesh_words(m.triangles@));
}

} // verus!
