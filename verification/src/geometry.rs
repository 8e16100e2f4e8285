use vstd::prelude::*;

verus! {

/// All coordinates are integers counted in milli-units: one unit is one
/// thousandth of a model millimetre.  Working on integers keeps every
/// geometric step exact; values are converted to their binary32 bit
/// pattern only when a mesh is serialized.
pub const MILLI_ONE: i64 = 1000;

/// Largest magnitude a coordinate may have so that its binary32 encoding
/// stays inside the normal range handled by the encoder
/// (one thousand times two to the twenty-fourth).
pub const COORD_LIMIT: i64 = 16_777_216_000;

/// A point or direction in model space, in milli-units.
#[derive(Clone, Copy, PartialEq, Eq, Structural, Debug)]
pub struct Vec3 {
    pub x: i64,
    pub y: i64,
    pub z: i64,
}

/// An axis-aligned rectangle in the horizontal plane, in milli-units.
#[derive(Clone, Copy, PartialEq, Eq, Structural, Debug)]
pub struct Rect {
    pub x0: i64,
    pub y0: i64,
    pub x1: i64,
    pub y1: i64,
}

/// One oriented triangle: a flat-shaded normal and three vertices.
/// Vertices are not shared between triangles.
#[derive(Clone, Copy, PartialEq, Eq, Structural, Debug)]
pub struct Triangle {
    pub normal: Vec3,
    pub a: Vec3,
    pub b: Vec3,
    pub c: Vec3,
}

/// An ordered triangle soup; built once, then serialized.
#[derive(Clone, Debug)]
pub struct Mesh {
    pub triangles: Vec<Triangle>,
}

pub open spec fn coord_ok(v: int) -> bool {
    -(COORD_LIMIT as int) < v < COORD_LIMIT as int
}

pub open spec fn vec3_ok(v: Vec3) -> bool {
    coord_ok(v.x as int) && coord_ok(v.y as int) && coord_ok(v.z as int)
}

pub open spec fn tri_ok(t: Triangle) -> bool {
    vec3_ok(t.normal) && vec3_ok(t.a) && vec3_ok(t.b) && vec3_ok(t.c)
}

impl Mesh {
    /// Every coordinate of every triangle is small enough to encode.
    pub open spec fn wf(self) -> bool {
        forall|k: int| 0 <= k < self.triangles@.len() ==> tri_ok(#[trigger] self.triangles@[k])
    }
}

pub open spec fn v3(x: int, y: int, z: int) -> Vec3 {
    Vec3 { x: x as i64, y: y as i64, z: z as i64 }
}

pub open spec fn tri(n: Vec3, a: Vec3, b: Vec3, c: Vec3) -> Triangle {
    Triangle { normal: n, a: a, b: b, c: c }
}

/// The twelve triangles of a six-faced prism spanned by rectangle `ra` at
/// height `za` and rectangle `rb` at height `zb`.  When `a_up` holds, face
/// `ra` is the upper face (its normal points up); otherwise it is the lower
/// face.  Face order: the `ra` face, the `rb` face, then the sides facing
/// +y, -y, -x and +x.  Side normals are kept axis-aligned even when the two
/// rectangles differ, reproducing the flat-shaded convention of the format's
/// usual consumers.  Windings follow the right-hand rule around each stated
/// normal.
pub open spec fn prism_tris(ra: Rect, za: i64, rb: Rect, zb: i64, a_up: bool) -> Seq<Triangle> {
    let a0 = v3(ra.x0 as int, ra.y0 as int, za as int);
    let a1 = v3(ra.x1 as int, ra.y0 as int, za as int);
    let a2 = v3(ra.x1 as int, ra.y1 as int, za as int);
    let a3 = v3(ra.x0 as int, ra.y1 as int, za as int);
    let b0 = v3(rb.x0 as int, rb.y0 as int, zb as int);
    let b1 = v3(rb.x1 as int, rb.y0 as int, zb as int);
    let b2 = v3(rb.x1 as int, rb.y1 as int, zb as int);
    let b3 = v3(rb.x0 as int, rb.y1 as int, zb as int);
    let up = v3(0, 0, MILLI_ONE as int);
    let dn = v3(0, 0, -MILLI_ONE as int);
    let py = v3(0, MILLI_ONE as int, 0);
    let ny = v3(0, -MILLI_ONE as int, 0);
    let px = v3(MILLI_ONE as int, 0, 0);
    let nx = v3(-MILLI_ONE as int, 0, 0);
    if a_up {
        seq![
            tri(up, a0, a1, a2),
            tri(up, a0, a2, a3),
            tri(dn, b0, b2, b1),
            tri(dn, b0, b3, b2),
            tri(py, a3, a2, b2),
            tri(py, a3, b2, b3),
            tri(ny, a0, b1, a1),
            tri(ny, a0, b0, b1),
            tri(nx, a0, a3, b3),
            tri(nx, a0, b3, b0),
            tri(px, a1, b2, a2),
            tri(px, a1, b1, b2),
        ]
    } else {
        seq![
            tri(dn, a0, a2, a1),
            tri(dn, a0, a3, a2),
            tri(up, b0, b1, b2),
            tri(up, b0, b2, b3),
            tri(py, a3, b2, a2),
            tri(py, a3, b3, b2),
            tri(ny, a0, a1, b1),
            tri(ny, a0, b1, b0),
            tri(nx, a0, b3, a3),
            tri(nx, a0, b0, b3),
            tri(px, a1, a2, b2),
            tri(px, a1, b2, b1),
        ]
    }
}

pub open spec fn rect_ok(r: Rect) -> bool {
    coord_ok(r.x0 as int) && coord_ok(r.y0 as int) && coord_ok(r.x1 as int) && coord_ok(r.y1 as int)
}

pub proof fn lemma_prism_tris_ok(ra: Rect, za: i64, rb: Rect, zb: i64, a_up: bool)
    requires
        rect_ok(ra),
        rect_ok(rb),
        coord_ok(za as int),
        coord_ok(zb as int),
    ensures
        forall|k: int|
            0 <= k < 12 ==> tri_ok(#[trigger] prism_tris(ra, za, rb, zb, a_up)[k]),
{
}

/// x-component of the cross product of the edges a->b and a->c of `t`.
pub open spec fn cross_x(t: Triangle) -> int {
    (t.b.y - t.a.y) * (t.c.z - t.a.z) - (t.b.z - t.a.z) * (t.c.y - t.a.y)
}

/// y-component of the cross product of the edges a->b and a->c of `t`.
pub open spec fn cross_y(t: Triangle) -> int {
    (t.b.z - t.a.z) * (t.c.x - t.a.x) - (t.b.x - t.a.x) * (t.c.z - t.a.z)
}

/// z-component of the cross product of the edges a->b and a->c of `t`.
pub open spec fn cross_z(t: Triangle) -> int {
    (t.b.x - t.a.x) * (t.c.y - t.a.y) - (t.b.y - t.a.y) * (t.c.x - t.a.x)
}

/// The winding of `t` agrees with its stated normal under the right-hand
/// rule: the cross product of its edges is parallel to the normal and
/// points the same way, so the normalized cross product equals the unit
/// normal exactly.
pub open spec fn winding_matches_normal(t: Triangle) -> bool {
    &&& cross_x(t) * t.normal.y == cross_y(t) * t.normal.x
    &&& cross_y(t) * t.normal.z == cross_z(t) * t.normal.y
    &&& cross_x(t) * t.normal.z == cross_z(t) * t.normal.x
    &&& cross_x(t) * t.normal.x + cross_y(t) * t.normal.y + cross_z(t) * t.normal.z > 0
}

/// Every triangle of a straight box — both rectangles equal, with positive
/// extent on all three axes — is wound so that the cross product of its
/// edges points along its stated axis-aligned normal.  This covers every
/// non-degenerate cell box and the base plate.  It is not claimed for a
/// zero-height cell box, whose side faces have zero area, nor for the
/// pedestal's side faces, which keep approximate axis-aligned normals on
/// purpose (see `lemma_prism_cap_winding` for the pedestal's top and
/// bottom faces).
#[verifier::rlimit(100)]
pub proof fn lemma_box_winding(r: Rect, za: i64, zb: i64, a_up: bool)
    requires
        r.x0 < r.x1,
        r.y0 < r.y1,
        a_up ==> zb < za,
        !a_up ==> za < zb,
    ensures
        forall|k: int|
            0 <= k < 12 ==> winding_matches_normal(#[trigger] prism_tris(r, za, r, zb, a_up)[k]),
{
    broadcast use {
        vstd::arithmetic::mul::group_mul_basics,
        vstd::arithmetic::mul::lemma_mul_by_zero_is_zero,
        vstd::arithmetic::mul::lemma_mul_is_commutative,
        vstd::arithmetic::mul::lemma_mul_strictly_positive,
        vstd::arithmetic::mul::lemma_mul_unary_negation,
    };

    let tris = prism_tris(r, za, r, zb, a_up);
    let w = r.x1 - r.x0;
    let d = r.y1 - r.y0;
    let h = if a_up {
        za - zb
    } else {
        zb - za
    };
    if a_up {
        assert(cross_z(tris[0]) == w * d);
        assert(cross_z(tris[1]) == w * d);
        assert(cross_z(tris[2]) == -(w * d));
        assert(cross_z(tris[3]) == -(w * d));
        assert(cross_y(tris[4]) == w * h);
        assert(cross_y(tris[5]) == w * h);
        assert(cross_y(tris[6]) == -(w * h));
        assert(cross_y(tris[7]) == -(w * h));
        assert(cross_x(tris[8]) == -(d * h));
        assert(cross_x(tris[9]) == -(d * h));
        assert(cross_x(tris[10]) == d * h);
        assert(cross_x(tris[11]) == d * h);
    } else {
        assert(cross_z(tris[0]) == -(w * d));
        assert(cross_z(tris[1]) == -(w * d));
        assert(cross_z(tris[2]) == w * d);
        assert(cross_z(tris[3]) == w * d);
        assert(cross_y(tris[4]) == w * h);
        assert(cross_y(tris[5]) == w * h);
        assert(cross_y(tris[6]) == -(w * h));
        assert(cross_y(tris[7]) == -(w * h));
        assert(cross_x(tris[8]) == -(d * h));
        assert(cross_x(tris[9]) == -(d * h));
        assert(cross_x(tris[10]) == d * h);
        assert(cross_x(tris[11]) == d * h);
    }
    assert forall|k: int| 0 <= k < 12 implies winding_matches_normal(#[trigger] tris[k]) by {
    }
}

/// The top and bottom faces of any prism with positive extent match their
/// stated vertical normals, whether or not the two rectangles coincide;
/// in particular this holds for the pedestal frustum's caps.
pub proof fn lemma_prism_cap_winding(ra: Rect, za: i64, rb: Rect, zb: i64, a_up: bool)
    requires
        ra.x0 < ra.x1,
        ra.y0 < ra.y1,
        rb.x0 < rb.x1,
        rb.y0 < rb.y1,
    ensures
        forall|k: int|
            0 <= k < 4 ==> winding_matches_normal(
                #[trigger] prism_tris(ra, za, rb, zb, a_up)[k],
            ),
{
    broadcast use {
        vstd::arithmetic::mul::group_mul_basics,
        vstd::arithmetic::mul::lemma_mul_by_zero_is_zero,
        vstd::arithmetic::mul::lemma_mul_is_commutative,
        vstd::arithmetic::mul::lemma_mul_strictly_positive,
        vstd::arithmetic::mul::lemma_mul_unary_negation,
    };

    let tris = prism_tris(ra, za, rb, zb, a_up);
    let wa = ra.x1 - ra.x0;
    let da = ra.y1 - ra.y0;
    let wb = rb.x1 - rb.x0;
    let db = rb.y1 - rb.y0;
    if a_up {
        assert(cross_z(tris[0]) == wa * da);
        assert(cross_z(tris[1]) == wa * da);
        assert(cross_z(tris[2]) == -(wb * db));
        assert(cross_z(tris[3]) == -(wb * db));
    } else {
        assert(cross_z(tris[0]) == -(wa * da));
        assert(cross_z(tris[1]) == -(wa * da));
        assert(cross_z(tris[2]) == wb * db);
        assert(cross_z(tris[3]) == wb * db);
    }
    assert forall|k: int| 0 <= k < 4 implies winding_matches_normal(#[trigger] tris[k]) by {
    }
}

/// Appends the twelve triangles of one prism to `out`.
pub fn push_prism(out: &mut Vec<Triangle>, ra: Rect, za: i64, rb: Rect, zb: i64, a_up: bool)
    ensures
        final(out)@ == old(out)@ + prism_tris(ra, za, rb, zb, a_up),
{
    let a0 = Vec3 { x: ra.x0, y: ra.y0, z: za };
    let a1 = Vec3 { x: ra.x1, y: ra.y0, z: za };
    let a2 = Vec3 { x: ra.x1, y: ra.y1, z: za };
    let a3 = Vec3 { x: ra.x0, y: ra.y1, z: za };
    let b0 = Vec3 { x: rb.x0, y: rb.y0, z: zb };
    let b1 = Vec3 { x: rb.x1, y: rb.y0, z: zb };
    let b2 = Vec3 { x: rb.x1, y: rb.y1, z: zb };
    let b3 = Vec3 { x: rb.x0, y: rb.y1, z: zb };
    let up = Vec3 { x: 0, y: 0, z: MILLI_ONE };
    let dn = Vec3 { x: 0, y: 0, z: -MILLI_ONE };
    let py = Vec3 { x: 0, y: MILLI_ONE, z: 0 };
    let ny = Vec3 { x: 0, y: -MILLI_ONE, z: 0 };
    let px = Vec3 { x: MILLI_ONE, y: 0, z: 0 };
    let nx = Vec3 { x: -MILLI_ONE, y: 0, z: 0 };
    if a_up {
        out.push(Triangle { normal: up, a: a0, b: a1, c: a2 });
        out.push(Triangle { normal: up, a: a0, b: a2, c: a3 });
        out.push(Triangle { normal: dn, a: b0, b: b2, c: b1 });
        out.push(Triangle { normal: dn, a: b0, b: b3, c: b2 });
        out.push(Triangle { normal: py, a: a3, b: a2, c: b2 });
        out.push(Triangle { normal: py, a: a3, b: b2, c: b3 });
        out.push(Triangle { normal: ny, a: a0, b: b1, c: a1 });
        out.push(Triangle { normal: ny, a: a0, b: b0, c: b1 });
        out.push(Triangle { normal: nx, a: a0, b: a3, c: b3 });
        out.push(Triangle { normal: nx, a: a0, b: b3, c: b0 });
        out.push(Triangle { normal: px, a: a1, b: b2, c: a2 });
        out.push(Triangle { normal: px, a: a1, b: b1, c: b2 });
    } else {
        out.push(Triangle { normal: dn, a: a0, b: a2, c: a1 });
        out.push(Triangle { normal: dn, a: a0, b: a3, c: a2 });
        out.push(Triangle { normal: up, a: b0, b: b1, c: b2 });
        out.push(Triangle { normal: up, a: b0, b: b2, c: b3 });
        out.push(Triangle { normal: py, a: a3, b: b2, c: a2 });
        out.push(Triangle { normal: py, a: a3, b: b3, c: b2 });
        out.push(Triangle { normal: ny, a: a0, b: a1, c: b1 });
        out.push(Triangle { normal: ny, a: a0, b: b1, c: b0 });
        out.push(Triangle { normal: nx, a: a0, b: b3, c: a3 });
        out.push(Triangle { normal: nx, a: a0, b: b0, c: b3 });
        out.push(Triangle { normal: px, a: a1, b: a2, c: b2 });
        out.push(Triangle { normal: px, a: a1, b: b2, c: b1 });
    }
    assert(out@ =~= old(out)@ + prism_tris(ra, za, rb, zb, a_up));
}

} // verus!
