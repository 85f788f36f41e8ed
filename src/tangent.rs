use vstd::prelude::*;

verus! {

/// Geometry is fixed-point: `FIXED_ONE` stands for 1.0.
pub const FIXED_ONE: i32 = 65536;

/// A position, normal or other vector in fixed-point coordinates.
#[derive(Clone, Copy, Debug, PartialEq, Eq)]
pub struct Fixed3 {
    pub x: i32,
    pub y: i32,
    pub z: i32,
}

/// Texture coordinates in fixed point.
#[derive(Clone, Copy, Debug, PartialEq, Eq)]
pub struct Fixed2 {
    pub u: i32,
    pub v: i32,
}

/// A tangent-space vector in fixed point. It is wide because a triangle
/// whose texture mapping is nearly flat yields a long tangent.
#[derive(Clone, Copy, Debug, PartialEq, Eq)]
pub struct Wide3 {
    pub x: i128,
    pub y: i128,
    pub z: i128,
}

#[derive(Clone, Copy, Debug, PartialEq, Eq)]
pub struct Vertex {
    pub position: Fixed3,
    pub normal: Fixed3,
    pub tex_coord: Fixed2,
    pub tangent: Wide3,
    pub bitangent: Wide3,
}

/// Vertices and the triangles over them, three indices per triangle.
pub struct Mesh<V> {
    pub vertices: Vec<V>,
    pub indices: Vec<u16>,
}

pub open spec fn zero3() -> Wide3 {
    Wide3 { x: 0, y: 0, z: 0 }
}

pub open spec fn f3(p: Fixed3, a: int) -> int {
    if a == 0 {
        p.x as int
    } else if a == 1 {
        p.y as int
    } else {
        p.z as int
    }
}

pub open spec fn w3(p: Wide3, a: int) -> int {
    if a == 0 {
        p.x as int
    } else if a == 1 {
        p.y as int
    } else {
        p.z as int
    }
}

pub open spec fn abs(a: int) -> int {
    if a < 0 {
        -a
    } else {
        a
    }
}

/// Division rounding toward zero.
pub open spec fn div_trunc(a: int, b: int) -> int {
    if (a >= 0) == (b >= 0) {
        abs(a) / abs(b)
    } else {
        -(abs(a) / abs(b))
    }
}

/// The determinant of the triangle's two texture-space edges.
pub open spec fn uv_det(v0: Vertex, v1: Vertex, v2: Vertex) -> int {
    let du1 = v1.tex_coord.u - v0.tex_coord.u;
    let dv1 = v1.tex_coord.v - v0.tex_coord.v;
    let du2 = v2.tex_coord.u - v0.tex_coord.u;
    let dv2 = v2.tex_coord.v - v0.tex_coord.v;
    du1 * dv2 - dv1 * du2
}

/// `dp1·duv2.v − dp2·duv1.v` along axis `a`: the tangent times the determinant.
pub open spec fn tangent_num(v0: Vertex, v1: Vertex, v2: Vertex, a: int) -> int {
    let dp1 = f3(v1.position, a) - f3(v0.position, a);
    let dp2 = f3(v2.position, a) - f3(v0.position, a);
    dp1 * (v2.tex_coord.v - v0.tex_coord.v) - dp2 * (v1.tex_coord.v - v0.tex_coord.v)
}

/// `dp1·duv2.u − dp2·duv1.u` along axis `a`: the bitangent times the
/// determinant, with its sign flipped for a texture space whose v axis
/// points down.
pub open spec fn bitangent_num(v0: Vertex, v1: Vertex, v2: Vertex, a: int) -> int {
    let dp1 = f3(v1.position, a) - f3(v0.position, a);
    let dp2 = f3(v2.position, a) - f3(v0.position, a);
    dp1 * (v2.tex_coord.u - v0.tex_coord.u) - dp2 * (v1.tex_coord.u - v0.tex_coord.u)
}

/// The triangle's tangent along axis `a`, in fixed point.
pub open spec fn frame_tangent(v0: Vertex, v1: Vertex, v2: Vertex, a: int) -> int {
    div_trunc(tangent_num(v0, v1, v2, a) * FIXED_ONE, uv_det(v0, v1, v2))
}

/// The triangle's bitangent along axis `a`, in fixed point.
pub open spec fn frame_bitangent(v0: Vertex, v1: Vertex, v2: Vertex, a: int) -> int {
    div_trunc(bitangent_num(v0, v1, v2, a) * FIXED_ONE, uv_det(v0, v1, v2))
}

pub open spec fn corner(ix: Seq<u16>, t: int, j: int) -> int {
    ix[3 * t + j] as int
}

pub open spec fn tri_vertex(vs: Seq<Vertex>, ix: Seq<u16>, t: int, j: int) -> Vertex {
    vs[corner(ix, t, j)]
}

/// A triangle counts when its texture mapping is not degenerate.
pub open spec fn tri_counts(vs: Seq<Vertex>, ix: Seq<u16>, t: int) -> bool {
    uv_det(tri_vertex(vs, ix, t, 0), tri_vertex(vs, ix, t, 1), tri_vertex(vs, ix, t, 2)) != 0
}

/// How many corners of triangle `t` are vertex `v`.
pub open spec fn hits(ix: Seq<u16>, t: int, v: int) -> int {
    (if corner(ix, t, 0) == v { 1int } else { 0 }) + (if corner(ix, t, 1) == v { 1int } else { 0 })
        + (if corner(ix, t, 2) == v { 1int } else { 0 })
}

pub open spec fn tri_tangent(vs: Seq<Vertex>, ix: Seq<u16>, t: int, a: int) -> int {
    frame_tangent(tri_vertex(vs, ix, t, 0), tri_vertex(vs, ix, t, 1), tri_vertex(vs, ix, t, 2), a)
}

pub open spec fn tri_bitangent(vs: Seq<Vertex>, ix: Seq<u16>, t: int, a: int) -> int {
    frame_bitangent(tri_vertex(vs, ix, t, 0), tri_vertex(vs, ix, t, 1), tri_vertex(vs, ix, t, 2), a)
}

/// Number of corners of the first `n` counting triangles that are vertex `v`.
pub open spec fn incidence(vs: Seq<Vertex>, ix: Seq<u16>, n: nat, v: int) -> int
    decreases n,
{
    if n == 0 {
        0
    } else {
        incidence(vs, ix, (n - 1) as nat, v) + if tri_counts(vs, ix, n - 1) {
            hits(ix, n - 1, v)
        } else {
            0
        }
    }
}

/// Sum of the tangents (axis `a`) that the first `n` triangles give vertex `v`.
pub open spec fn tangent_sum(vs: Seq<Vertex>, ix: Seq<u16>, n: nat, v: int, a: int) -> int
    decreases n,
{
    if n == 0 {
        0
    } else {
        tangent_sum(vs, ix, (n - 1) as nat, v, a) + if tri_counts(vs, ix, n - 1) {
            hits(ix, n - 1, v) * tri_tangent(vs, ix, n - 1, a)
        } else {
            0
        }
    }
}

/// Sum of the bitangents (axis `a`) that the first `n` triangles give vertex `v`.
pub open spec fn bitangent_sum(vs: Seq<Vertex>, ix: Seq<u16>, n: nat, v: int, a: int) -> int
    decreases n,
{
    if n == 0 {
        0
    } else {
        bitangent_sum(vs, ix, (n - 1) as nat, v, a) + if tri_counts(vs, ix, n - 1) {
            hits(ix, n - 1, v) * tri_bitangent(vs, ix, n - 1, a)
        } else {
            0
        }
    }
}

pub open spec fn tri_total(ix: Seq<u16>) -> nat {
    ix.len() / 3
}

/// The mean of `sum` over `count` contributions, zero when there are none.
pub open spec fn mean(sum: int, count: int) -> int {
    if count == 0 {
        0
    } else {
        div_trunc(sum, count)
    }
}

/// The tangent of vertex `v` along axis `a`: the mean of what every
/// counting triangle gives it, once per corner that it takes.
pub open spec fn mean_tangent(vs: Seq<Vertex>, ix: Seq<u16>, v: int, a: int) -> int {
    mean(tangent_sum(vs, ix, tri_total(ix), v, a), incidence(vs, ix, tri_total(ix), v))
}

pub open spec fn mean_bitangent(vs: Seq<Vertex>, ix: Seq<u16>, v: int, a: int) -> int {
    mean(bitangent_sum(vs, ix, tri_total(ix), v, a), incidence(vs, ix, tri_total(ix), v))
}

/// Largest size of a triangle's tangent or bitangent component.
pub open spec fn frame_bound() -> int {
    0x2_0000_0000_0000_0000_0000
}

impl Vertex {
    /// A vertex with zero tangent and bitangent.
    pub fn raw(x: i32, y: i32, z: i32, n_x: i32, n_y: i32, n_z: i32, u: i32, v: i32) -> (r: Vertex)
        ensures
            r == (Vertex {
                position: Fixed3 { x, y, z },
                normal: Fixed3 { x: n_x, y: n_y, z: n_z },
                tex_coord: Fixed2 { u, v },
                tangent: zero3(),
                bitangent: zero3(),
            }),
    {
        Vertex {
            position: Fixed3 { x, y, z },
            normal: Fixed3 { x: n_x, y: n_y, z: n_z },
            tex_coord: Fixed2 { u, v },
            tangent: Wide3 { x: 0, y: 0, z: 0 },
            bitangent: Wide3 { x: 0, y: 0, z: 0 },
        }
    }
}

fn div_trunc_exec(a: i128, b: i128) -> (r: i128)
    requires
        b != 0,
        abs(a as int) <= frame_bound() * 0x1_0000_0000,
        abs(b as int) <= frame_bound() * 0x1_0000_0000,
    ensures
        r == div_trunc(a as int, b as int),
        abs(r as int) <= abs(a as int),
{
    let ua: u128 = if a < 0 { (-a) as u128 } else { a as u128 };
    let ub: u128 = if b < 0 { (-b) as u128 } else { b as u128 };
    let q = ua / ub;
    proof {
        assert(q <= ua) by (nonlinear_arith) requires q == ua / ub, ub >= 1;
    }
    if (a >= 0) == (b >= 0) {
        q as i128
    } else {
        -(q as i128)
    }
}

proof fn lemma_frame_parts(v0: Vertex, v1: Vertex, v2: Vertex, a: int)
    requires
        0 <= a < 3,
    ensures
        abs(uv_det(v0, v1, v2)) <= 0x2_0000_0000_0000_0000,
        abs(tangent_num(v0, v1, v2, a) * FIXED_ONE) <= frame_bound(),
        abs(bitangent_num(v0, v1, v2, a) * FIXED_ONE) <= frame_bound(),
{
    let du1 = v1.tex_coord.u - v0.tex_coord.u;
    let dv1 = v1.tex_coord.v - v0.tex_coord.v;
    let du2 = v2.tex_coord.u - v0.tex_coord.u;
    let dv2 = v2.tex_coord.v - v0.tex_coord.v;
    let dp1 = f3(v1.position, a) - f3(v0.position, a);
    let dp2 = f3(v2.position, a) - f3(v0.position, a);
    let m: int = 0x1_0000_0000;
    assert(abs(du1) <= m && abs(dv1) <= m && abs(du2) <= m && abs(dv2) <= m);
    assert(abs(dp1) <= m && abs(dp2) <= m);
    lemma_abs_mul_le(du1, dv2, m);
    lemma_abs_mul_le(dv1, du2, m);
    lemma_abs_mul_le(dp1, dv2, m);
    lemma_abs_mul_le(dp2, dv1, m);
    lemma_abs_mul_le(dp1, du2, m);
    lemma_abs_mul_le(dp2, du1, m);
    let t = tangent_num(v0, v1, v2, a);
    let b = bitangent_num(v0, v1, v2, a);
    assert(abs(t) <= 2 * m * m);
    assert(abs(b) <= 2 * m * m);
    assert(abs(t * 65536) <= 2 * m * m * 65536) by (nonlinear_arith)
        requires abs(t) <= 2 * m * m;
    assert(abs(b * 65536) <= 2 * m * m * 65536) by (nonlinear_arith)
        requires abs(b) <= 2 * m * m;
}

proof fn lemma_abs_mul_le(x: int, y: int, m: int)
    requires
        abs(x) <= m,
        abs(y) <= m,
    ensures
        abs(x * y) <= m * m,
{
    assert(abs(x * y) == abs(x) * abs(y)) by (nonlinear_arith);
    assert(abs(x) * abs(y) <= m * m) by (nonlinear_arith)
        requires abs(x) <= m, abs(y) <= m, 0 <= abs(x), 0 <= abs(y);
}

/// The tangent and bitangent of the triangle `(v0, v1, v2)`: the solution of
/// `dp1 = duv1.u·T + duv1.v·B`, `dp2 = duv2.u·T + duv2.v·B` (with the
/// bitangent flipped), each component rounded toward zero. `None` when the
/// texture mapping is degenerate and the system has no single solution.
pub fn triangle_frame(v0: &Vertex, v1: &Vertex, v2: &Vertex) -> (r: Option<(Wide3, Wide3)>)
    ensures
        r.is_none() <==> uv_det(*v0, *v1, *v2) == 0,
        r matches Some((t, b)) ==> {
            &&& forall|a: int| 0 <= a < 3 ==> w3(t, a) == frame_tangent(*v0, *v1, *v2, a)
            &&& forall|a: int| 0 <= a < 3 ==> w3(b, a) == frame_bitangent(*v0, *v1, *v2, a)
            &&& forall|a: int| 0 <= a < 3 ==> abs(#[trigger] w3(t, a)) <= frame_bound()
            &&& forall|a: int| 0 <= a < 3 ==> abs(#[trigger] w3(b, a)) <= frame_bound()
        },
{
    let du1 = v1.tex_coord.u as i128 - v0.tex_coord.u as i128;
    let dv1 = v1.tex_coord.v as i128 - v0.tex_coord.v as i128;
    let du2 = v2.tex_coord.u as i128 - v0.tex_coord.u as i128;
    let dv2 = v2.tex_coord.v as i128 - v0.tex_coord.v as i128;
    proof {
        lemma_frame_parts(*v0, *v1, *v2, 0);
        lemma_frame_parts(*v0, *v1, *v2, 1);
        lemma_frame_parts(*v0, *v1, *v2, 2);
        let m: int = 0x1_0000_0000;
        lemma_abs_mul_le(du1 as int, dv2 as int, m);
        lemma_abs_mul_le(dv1 as int, du2 as int, m);
    }
    let det = du1 * dv2 - dv1 * du2;
    if det == 0 {
        return None;
    }
    let t = Wide3 {
        x: axis_frame(v0.position.x, v1.position.x, v2.position.x, dv1, dv2, det),
        y: axis_frame(v0.position.y, v1.position.y, v2.position.y, dv1, dv2, det),
        z: axis_frame(v0.position.z, v1.position.z, v2.position.z, dv1, dv2, det),
    };
    let b = Wide3 {
        x: axis_frame(v0.position.x, v1.position.x, v2.position.x, du1, du2, det),
        y: axis_frame(v0.position.y, v1.position.y, v2.position.y, du1, du2, det),
        z: axis_frame(v0.position.z, v1.position.z, v2.position.z, du1, du2, det),
    };
    proof {
        assert forall|a: int| 0 <= a < 3 implies w3(t, a) == frame_tangent(*v0, *v1, *v2, a) by {
            lemma_frame_parts(*v0, *v1, *v2, a);
        }
        assert forall|a: int| 0 <= a < 3 implies w3(b, a) == frame_bitangent(*v0, *v1, *v2, a) by {
            lemma_frame_parts(*v0, *v1, *v2, a);
        }
    }
    Some((t, b))
}

/// `(dp1·d2 − dp2·d1)·FIXED_ONE / det` for one axis, rounded toward zero.
fn axis_frame(p0: i32, p1: i32, p2: i32, d1: i128, d2: i128, det: i128) -> (r: i128)
    requires
        det != 0,
        abs(det as int) <= 0x2_0000_0000_0000_0000,
        abs(d1 as int) <= 0x1_0000_0000,
        abs(d2 as int) <= 0x1_0000_0000,
    ensures
        r == div_trunc(((p1 - p0) * d2 - (p2 - p0) * d1) * FIXED_ONE, det as int),
        abs(r as int) <= frame_bound(),
{
    let dp1 = p1 as i128 - p0 as i128;
    let dp2 = p2 as i128 - p0 as i128;
    proof {
        let m: int = 0x1_0000_0000;
        lemma_abs_mul_le(dp1 as int, d2 as int, m);
        lemma_abs_mul_le(dp2 as int, d1 as int, m);
        let n = (dp1 * d2 - dp2 * d1) as int;
        assert(abs(n * 65536) <= 2 * m * m * 65536) by (nonlinear_arith)
            requires abs(n) <= 2 * m * m;
    }
    let num = (dp1 * d2 - dp2 * d1) * (FIXED_ONE as i128);
    div_trunc_exec(num, det)
}

/// `sums[i] += d`, every other entry kept.
fn accumulate(sums: &mut Vec<Wide3>, i: usize, d: Wide3)
    requires
        i < old(sums)@.len(),
        forall|a: int| 0 <= a < 3 ==> abs(#[trigger] w3(old(sums)@[i as int], a)) + abs(w3(d, a)) < 0x4000_0000_0000_0000_0000_0000_0000_0000,
    ensures
        final(sums)@.len() == old(sums)@.len(),
        forall|j: int| 0 <= j < old(sums)@.len() && j != i ==> final(sums)@[j] == old(sums)@[j],
        forall|a: int| 0 <= a < 3 ==> #[trigger] w3(final(sums)@[i as int], a) == w3(old(sums)@[i as int], a) + w3(d, a),
{
    let cur = sums[i];
    proof {
        assert(abs(w3(cur, 0)) + abs(w3(d, 0)) < 0x4000_0000_0000_0000_0000_0000_0000_0000);
        assert(abs(w3(cur, 1)) + abs(w3(d, 1)) < 0x4000_0000_0000_0000_0000_0000_0000_0000);
        assert(abs(w3(cur, 2)) + abs(w3(d, 2)) < 0x4000_0000_0000_0000_0000_0000_0000_0000);
    }
    sums.set(i, Wide3 { x: cur.x + d.x, y: cur.y + d.y, z: cur.z + d.z });
}

const WIDE_LIMIT: i128 = 0x0100_0000_0000_0000_0000_0000_0000_0000;

/// Adds `d` to the entries of the three corners of a triangle, once per corner.
fn accumulate3(sums: &mut Vec<Wide3>, c0: usize, c1: usize, c2: usize, d: Wide3)
    requires
        c0 < old(sums)@.len(),
        c1 < old(sums)@.len(),
        c2 < old(sums)@.len(),
        forall|v: int, a: int| 0 <= v < old(sums)@.len() && 0 <= a < 3 ==> abs(#[trigger] w3(old(sums)@[v], a)) <= WIDE_LIMIT,
        forall|a: int| 0 <= a < 3 ==> abs(#[trigger] w3(d, a)) <= frame_bound(),
    ensures
        final(sums)@.len() == old(sums)@.len(),
        forall|v: int, a: int| 0 <= v < old(sums)@.len() && 0 <= a < 3 ==> #[trigger] w3(final(sums)@[v], a) == w3(old(sums)@[v], a)
            + ((if c0 == v { 1int } else { 0 }) + (if c1 == v { 1int } else { 0 }) + (if c2 == v { 1int } else { 0 })) * w3(d, a),
{
    let ghost s0 = sums@;
    proof {
        assert forall|a: int| 0 <= a < 3 implies abs(#[trigger] w3(s0[c0 as int], a)) + abs(w3(d, a)) < 0x4000_0000_0000_0000_0000_0000_0000_0000 by {
            assert(abs(w3(s0[c0 as int], a)) <= WIDE_LIMIT);
            assert(abs(w3(d, a)) <= frame_bound());
        }
    }
    accumulate(sums, c0, d);
    let ghost s1 = sums@;
    proof {
        assert forall|a: int| 0 <= a < 3 implies abs(#[trigger] w3(s1[c1 as int], a)) + abs(w3(d, a)) < 0x4000_0000_0000_0000_0000_0000_0000_0000 by {
            assert(abs(w3(s0[c1 as int], a)) <= WIDE_LIMIT);
            assert(abs(w3(d, a)) <= frame_bound());
            if c1 == c0 {
                assert(w3(s1[c1 as int], a) == w3(s0[c1 as int], a) + w3(d, a));
            } else {
                assert(s1[c1 as int] == s0[c1 as int]);
            }
        }
    }
    accumulate(sums, c1, d);
    let ghost s2 = sums@;
    proof {
        assert forall|a: int| 0 <= a < 3 implies abs(#[trigger] w3(s2[c2 as int], a)) + abs(w3(d, a)) < 0x4000_0000_0000_0000_0000_0000_0000_0000 by {
            assert(abs(w3(s0[c2 as int], a)) <= WIDE_LIMIT);
            assert(abs(w3(d, a)) <= frame_bound());
            if c2 == c0 {
                assert(w3(s1[c2 as int], a) == w3(s0[c2 as int], a) + w3(d, a));
            } else {
                assert(s1[c2 as int] == s0[c2 as int]);
            }
            if c2 == c1 {
                assert(w3(s2[c2 as int], a) == w3(s1[c2 as int], a) + w3(d, a));
            } else {
                assert(s2[c2 as int] == s1[c2 as int]);
            }
        }
    }
    accumulate(sums, c2, d);
    proof {
        assert forall|v: int, a: int| 0 <= v < s0.len() && 0 <= a < 3 implies #[trigger] w3(sums@[v], a) == w3(s0[v], a)
            + ((if c0 == v { 1int } else { 0 }) + (if c1 == v { 1int } else { 0 }) + (if c2 == v { 1int } else { 0 })) * w3(d, a) by {
            if c0 == v {
                assert(w3(s1[v], a) == w3(s0[v], a) + w3(d, a));
            } else {
                assert(s1[v] == s0[v]);
            }
            if c1 == v {
                assert(w3(s2[v], a) == w3(s1[v], a) + w3(d, a));
            } else {
                assert(s2[v] == s1[v]);
            }
            if c2 == v {
                assert(w3(sums@[v], a) == w3(s2[v], a) + w3(d, a));
            } else {
                assert(sums@[v] == s2[v]);
            }
            let h = (if c0 == v { 1int } else { 0 }) + (if c1 == v { 1int } else { 0 }) + (if c2 == v { 1int } else { 0 });
            assert(w3(sums@[v], a) == w3(s0[v], a) + h * w3(d, a)) by (nonlinear_arith)
                requires
                    w3(sums@[v], a) == w3(s0[v], a) + (if c0 == v { w3(d, a) } else { 0 }) + (if c1 == v { w3(d, a) } else { 0 }) + (if c2 == v { w3(d, a) } else { 0 }),
                    h == (if c0 == v { 1int } else { 0 }) + (if c1 == v { 1int } else { 0 }) + (if c2 == v { 1int } else { 0 });
        }
    }
}

proof fn lemma_sums_bounded(vs: Seq<Vertex>, ix: Seq<u16>, n: nat, v: int, a: int)
    requires
        3 * n <= ix.len(),
        0 <= a < 3,
        forall|k: int| 0 <= k < ix.len() ==> (ix[k] as int) < vs.len(),
    ensures
        abs(tangent_sum(vs, ix, n, v, a)) <= 3 * n * frame_bound(),
        abs(bitangent_sum(vs, ix, n, v, a)) <= 3 * n * frame_bound(),
        0 <= incidence(vs, ix, n, v) <= 3 * n,
    decreases n,
{
    if n > 0 {
        let t = n - 1;
        lemma_sums_bounded(vs, ix, (n - 1) as nat, v, a);
        if tri_counts(vs, ix, t) {
            lemma_frame_parts(tri_vertex(vs, ix, t, 0), tri_vertex(vs, ix, t, 1), tri_vertex(vs, ix, t, 2), a);
            let h = hits(ix, t, v);
            let tt = tri_tangent(vs, ix, t, a);
            let bb = tri_bitangent(vs, ix, t, a);
            lemma_div_trunc_le(tangent_num(tri_vertex(vs, ix, t, 0), tri_vertex(vs, ix, t, 1), tri_vertex(vs, ix, t, 2), a) * FIXED_ONE,
                uv_det(tri_vertex(vs, ix, t, 0), tri_vertex(vs, ix, t, 1), tri_vertex(vs, ix, t, 2)));
            lemma_div_trunc_le(bitangent_num(tri_vertex(vs, ix, t, 0), tri_vertex(vs, ix, t, 1), tri_vertex(vs, ix, t, 2), a) * FIXED_ONE,
                uv_det(tri_vertex(vs, ix, t, 0), tri_vertex(vs, ix, t, 1), tri_vertex(vs, ix, t, 2)));
            assert(0 <= h <= 3);
            assert(abs(h * tt) <= 3 * frame_bound()) by (nonlinear_arith)
                requires 0 <= h <= 3, abs(tt) <= frame_bound();
            assert(abs(h * bb) <= 3 * frame_bound()) by (nonlinear_arith)
                requires 0 <= h <= 3, abs(bb) <= frame_bound();
        }
    }
}

proof fn lemma_div_trunc_le(x: int, y: int)
    requires
        y != 0,
    ensures
        abs(div_trunc(x, y)) <= abs(x),
{
    assert(abs(x) / abs(y) <= abs(x)) by (nonlinear_arith) requires abs(y) >= 1, abs(x) >= 0;
    assert(abs(x) / abs(y) >= 0) by (nonlinear_arith) requires abs(y) >= 1, abs(x) >= 0;
}

impl Mesh<Vertex> {
    pub open spec fn indices_valid(self) -> bool {
        &&& self.indices@.len() % 3 == 0
        &&& self.indices@.len() <= u32::MAX
        &&& forall|k: int| 0 <= k < self.indices@.len() ==> (self.indices@[k] as int) < self.vertices@.len()
    }

    /// Gives every vertex the mean tangent and bitangent of the triangles
    /// that use it (see `mean_tangent`); positions, normals and texture
    /// coordinates are kept. A vertex that no counting triangle uses gets
    /// zero vectors; a triangle with a degenerate texture mapping is left out.
    pub fn update_tangents(&mut self)
        requires
            old(self).indices_valid(),
        ensures
            final(self).indices@ == old(self).indices@,
            final(self).vertices@.len() == old(self).vertices@.len(),
            forall|v: int| 0 <= v < old(self).vertices@.len() ==> {
                let o = #[trigger] old(self).vertices@[v];
                let n = final(self).vertices@[v];
                &&& n.position == o.position
                &&& n.normal == o.normal
                &&& n.tex_coord == o.tex_coord
                &&& forall|a: int| 0 <= a < 3 ==> w3(n.tangent, a) == mean_tangent(old(self).vertices@, old(self).indices@, v, a)
                &&& forall|a: int| 0 <= a < 3 ==> w3(n.bitangent, a) == mean_bitangent(old(self).vertices@, old(self).indices@, v, a)
            },
    {
        let ghost vs = self.vertices@;
        let ghost ix = self.indices@;
        let nv = self.vertices.len();
        let mut tsum: Vec<Wide3> = Vec::new();
        let mut bsum: Vec<Wide3> = Vec::new();
        let mut count: Vec<u64> = Vec::new();
        let mut i: usize = 0;
        while i < nv
            invariant
                i <= nv,
                nv == vs.len(),
                tsum@.len() == i,
                bsum@.len() == i,
                count@.len() == i,
                forall|j: int| 0 <= j < i ==> #[trigger] tsum@[j] == zero3(),
                forall|j: int| 0 <= j < i ==> #[trigger] bsum@[j] == zero3(),
                forall|j: int| 0 <= j < i ==> #[trigger] count@[j] == 0,
            decreases nv - i,
        {
            tsum.push(Wide3 { x: 0, y: 0, z: 0 });
            bsum.push(Wide3 { x: 0, y: 0, z: 0 });
            count.push(0);
            i = i + 1;
        }
        let ntri = self.indices.len() / 3;
        let mut t: usize = 0;
        while t < ntri
            invariant
                self.vertices@ == vs,
                self.indices@ == ix,
                old(self).indices_valid(),
                vs == old(self).vertices@,
                ix == old(self).indices@,
                ntri == tri_total(ix),
                t <= ntri,
                nv == vs.len(),
                tsum@.len() == nv,
                bsum@.len() == nv,
                count@.len() == nv,
                forall|v: int, a: int| 0 <= v < nv && 0 <= a < 3 ==> #[trigger] w3(tsum@[v], a) == tangent_sum(vs, ix, t as nat, v, a),
                forall|v: int, a: int| 0 <= v < nv && 0 <= a < 3 ==> #[trigger] w3(bsum@[v], a) == bitangent_sum(vs, ix, t as nat, v, a),
                forall|v: int| 0 <= v < nv ==> #[trigger] count@[v] == incidence(vs, ix, t as nat, v),
            decreases ntri - t,
        {
            let c0 = self.indices[3 * t] as usize;
            let c1 = self.indices[3 * t + 1] as usize;
            let c2 = self.indices[3 * t + 2] as usize;
            let frame = triangle_frame(&self.vertices[c0], &self.vertices[c1], &self.vertices[c2]);
            let ghost t0 = tsum@;
            let ghost b0 = bsum@;
            let ghost k0 = count@;
            proof {
                assert forall|v: int, a: int| 0 <= v < nv && 0 <= a < 3 implies
                    abs(#[trigger] w3(t0[v], a)) <= 3 * t * frame_bound()
                    && abs(w3(b0[v], a)) <= 3 * t * frame_bound()
                    && 0 <= k0[v] <= 3 * t by {
                    lemma_sums_bounded(vs, ix, t as nat, v, a);
                }
                assert(3 * t + 3 <= ix.len());
                assert(3 * t * frame_bound() <= 0x1_0000_0000 * frame_bound()) by (nonlinear_arith)
                    requires 3 * t <= 0x1_0000_0000;
                assert forall|v: int, a: int| 0 <= v < nv && 0 <= a < 3 implies
                    abs(#[trigger] w3(tsum@[v], a)) <= WIDE_LIMIT by {
                    lemma_sums_bounded(vs, ix, t as nat, v, a);
                }
                assert forall|v: int, a: int| 0 <= v < nv && 0 <= a < 3 implies
                    abs(#[trigger] w3(bsum@[v], a)) <= WIDE_LIMIT by {
                    lemma_sums_bounded(vs, ix, t as nat, v, a);
                }
                assert forall|v: int| 0 <= v < nv implies #[trigger] k0[v] <= 3 * t by {
                    lemma_sums_bounded(vs, ix, t as nat, v, 0);
                }
            }
            match frame {
                Some((tg, bt)) => {
                    accumulate3(&mut tsum, c0, c1, c2, tg);
                    accumulate3(&mut bsum, c0, c1, c2, bt);
                    let n0 = count[c0];
                    count.set(c0, n0 + 1);
                    let n1 = count[c1];
                    count.set(c1, n1 + 1);
                    let n2 = count[c2];
                    count.set(c2, n2 + 1);
                    proof {
                        assert(tri_counts(vs, ix, t as int));
                        assert forall|v: int, a: int| 0 <= v < nv && 0 <= a < 3 implies
                            #[trigger] w3(tsum@[v], a) == tangent_sum(vs, ix, (t + 1) as nat, v, a)
                            && w3(bsum@[v], a) == bitangent_sum(vs, ix, (t + 1) as nat, v, a) by {
                            assert(w3(tg, a) == tri_tangent(vs, ix, t as int, a));
                            assert(w3(bt, a) == tri_bitangent(vs, ix, t as int, a));
                        }
                        assert forall|v: int| 0 <= v < nv implies #[trigger] count@[v] == incidence(vs, ix, (t + 1) as nat, v) by {
                        }
                    }
                },
                None => {
                    proof {
                        assert(!tri_counts(vs, ix, t as int));
                        assert forall|v: int, a: int| 0 <= v < nv && 0 <= a < 3 implies
                            #[trigger] w3(tsum@[v], a) == tangent_sum(vs, ix, (t + 1) as nat, v, a)
                            && w3(bsum@[v], a) == bitangent_sum(vs, ix, (t + 1) as nat, v, a) by {
                        }
                        assert forall|v: int| 0 <= v < nv implies #[trigger] count@[v] == incidence(vs, ix, (t + 1) as nat, v) by {
                        }
                    }
                },
            }
            t = t + 1;
        }
        let mut i: usize = 0;
        while i < nv
            invariant
                i <= nv,
                nv == vs.len(),
                self.indices@ == ix,
                ix == old(self).indices@,
                vs == old(self).vertices@,
                old(self).indices_valid(),
                ntri == tri_total(ix),
                self.vertices@.len() == nv,
                tsum@.len() == nv,
                bsum@.len() == nv,
                count@.len() == nv,
                forall|v: int, a: int| 0 <= v < nv && 0 <= a < 3 ==> #[trigger] w3(tsum@[v], a) == tangent_sum(vs, ix, ntri as nat, v, a),
                forall|v: int, a: int| 0 <= v < nv && 0 <= a < 3 ==> #[trigger] w3(bsum@[v], a) == bitangent_sum(vs, ix, ntri as nat, v, a),
                forall|v: int| 0 <= v < nv ==> #[trigger] count@[v] == incidence(vs, ix, ntri as nat, v),
                forall|v: int| i <= v < nv ==> #[trigger] self.vertices@[v] == vs[v],
                forall|v: int| 0 <= v < i ==> {
                    let o = #[trigger] vs[v];
                    let n = self.vertices@[v];
                    &&& n.position == o.position
                    &&& n.normal == o.normal
                    &&& n.tex_coord == o.tex_coord
                    &&& forall|a: int| 0 <= a < 3 ==> w3(n.tangent, a) == mean_tangent(vs, ix, v, a)
                    &&& forall|a: int| 0 <= a < 3 ==> w3(n.bitangent, a) == mean_bitangent(vs, ix, v, a)
                },
            decreases nv - i,
        {
            let n = count[i];
            let ts = tsum[i];
            let bs = bsum[i];
            proof {
                assert forall|a: int| 0 <= a < 3 implies
                    abs(#[trigger] w3(ts, a)) <= 3 * ntri * frame_bound()
                    && abs(w3(bs, a)) <= 3 * ntri * frame_bound() && 0 <= n <= 3 * ntri by {
                    lemma_sums_bounded(vs, ix, ntri as nat, i as int, a);
                }
                assert(3 * ntri * frame_bound() <= 0x1_0000_0000 * frame_bound()) by (nonlinear_arith)
                    requires 3 * ntri <= 0x1_0000_0000;
                // Each axis of the sums, as `div_trunc_exec` asks for it.
                assert(abs(w3(ts, 0)) <= 3 * ntri * frame_bound() && abs(w3(bs, 0)) <= 3 * ntri * frame_bound());
                assert(abs(w3(ts, 1)) <= 3 * ntri * frame_bound() && abs(w3(bs, 1)) <= 3 * ntri * frame_bound());
                assert(abs(w3(ts, 2)) <= 3 * ntri * frame_bound() && abs(w3(bs, 2)) <= 3 * ntri * frame_bound());
            }
            let old_v = self.vertices[i];
            let (tangent, bitangent) = if n == 0 {
                (Wide3 { x: 0, y: 0, z: 0 }, Wide3 { x: 0, y: 0, z: 0 })
            } else {
                let d = n as i128;
                (
                    Wide3 { x: div_trunc_exec(ts.x, d), y: div_trunc_exec(ts.y, d), z: div_trunc_exec(ts.z, d) },
                    Wide3 { x: div_trunc_exec(bs.x, d), y: div_trunc_exec(bs.y, d), z: div_trunc_exec(bs.z, d) },
                )
            };
            let nvx = Vertex { tangent, bitangent, ..old_v };
            self.vertices.set(i, nvx);
            proof {
                assert forall|a: int| 0 <= a < 3 implies w3(nvx.tangent, a) == mean_tangent(vs, ix, i as int, a)
                    && w3(nvx.bitangent, a) == mean_bitangent(vs, ix, i as int, a) by {
                    assert(w3(ts, a) == tangent_sum(vs, ix, ntri as nat, i as int, a));
                    assert(w3(bs, a) == bitangent_sum(vs, ix, ntri as nat, i as int, a));
                }
            }
            i = i + 1;
        }
    }
}

/// Rounding toward zero is off by less than one step of the divisor.
proof fn lemma_div_trunc_close(x: int, y: int)
    requires
        y != 0,
    ensures
        abs(div_trunc(x, y) * y - x) < abs(y),
{
    let ax = abs(x);
    let ay = abs(y);
    let q = ax / ay;
    let r = ax % ay;
    vstd::arithmetic::div_mod::lemma_fundamental_div_mod(ax, ay);
    vstd::arithmetic::div_mod::lemma_mod_bound(ax, ay);
    assert(ax == ay * q + r && 0 <= r < ay);
    if x >= 0 && y > 0 {
        assert(div_trunc(x, y) * y - x == -r) by (nonlinear_arith)
            requires div_trunc(x, y) == q, y == ay, x == ax, ax == ay * q + r;
    } else if x < 0 && y < 0 {
        assert(div_trunc(x, y) * y - x == r) by (nonlinear_arith)
            requires div_trunc(x, y) == q, y == -ay, x == -ax, ax == ay * q + r;
    } else if x >= 0 {
        assert(div_trunc(x, y) * y - x == -r) by (nonlinear_arith)
            requires div_trunc(x, y) == -q, y == -ay, x == ax, ax == ay * q + r;
    } else {
        assert(div_trunc(x, y) * y - x == r) by (nonlinear_arith)
            requires div_trunc(x, y) == -q, y == ay, x == -ax, ax == ay * q + r;
    }
}

/// The triangle's frame solves its texture-space system: with
/// `T = tangent_num / det` and `B = bitangent_num / det`, along every axis
/// `dp1 = duv1.u·T − duv1.v·B` and `dp2 = duv2.u·T − duv2.v·B` exactly (stated
/// here multiplied through by `det`). The fixed-point components that
/// `triangle_frame` returns are `T·FIXED_ONE` and `B·FIXED_ONE` rounded toward
/// zero, off by less than one unit (stated multiplied by `det`).
pub proof fn lemma_frame_solves_uv_system(v0: Vertex, v1: Vertex, v2: Vertex, a: int)
    requires
        0 <= a < 3,
        uv_det(v0, v1, v2) != 0,
    ensures
        ({
            let det = uv_det(v0, v1, v2);
            let t = tangent_num(v0, v1, v2, a);
            let b = bitangent_num(v0, v1, v2, a);
            let du1 = v1.tex_coord.u - v0.tex_coord.u;
            let dv1 = v1.tex_coord.v - v0.tex_coord.v;
            let du2 = v2.tex_coord.u - v0.tex_coord.u;
            let dv2 = v2.tex_coord.v - v0.tex_coord.v;
            let dp1 = f3(v1.position, a) - f3(v0.position, a);
            let dp2 = f3(v2.position, a) - f3(v0.position, a);
            &&& du1 * t - dv1 * b == dp1 * det
            &&& du2 * t - dv2 * b == dp2 * det
            &&& abs(frame_tangent(v0, v1, v2, a) * det - t * FIXED_ONE) < abs(det)
            &&& abs(frame_bitangent(v0, v1, v2, a) * det - b * FIXED_ONE) < abs(det)
        }),
{
    let det = uv_det(v0, v1, v2);
    let du1 = v1.tex_coord.u - v0.tex_coord.u;
    let dv1 = v1.tex_coord.v - v0.tex_coord.v;
    let du2 = v2.tex_coord.u - v0.tex_coord.u;
    let dv2 = v2.tex_coord.v - v0.tex_coord.v;
    let dp1 = f3(v1.position, a) - f3(v0.position, a);
    let dp2 = f3(v2.position, a) - f3(v0.position, a);
    let t = tangent_num(v0, v1, v2, a);
    let b = bitangent_num(v0, v1, v2, a);
    assert(du1 * t == du1 * (dp1 * dv2) - du1 * (dp2 * dv1)) by (nonlinear_arith)
        requires t == dp1 * dv2 - dp2 * dv1;
    assert(dv1 * b == dv1 * (dp1 * du2) - dv1 * (dp2 * du1)) by (nonlinear_arith)
        requires b == dp1 * du2 - dp2 * du1;
    assert(du1 * (dp2 * dv1) == dv1 * (dp2 * du1)) by (nonlinear_arith);
    assert(du1 * (dp1 * dv2) - dv1 * (dp1 * du2) == dp1 * det) by (nonlinear_arith)
        requires det == du1 * dv2 - dv1 * du2;
    assert(du2 * t - dv2 * b == dp2 * det) by (nonlinear_arith)
        requires
            t == dp1 * dv2 - dp2 * dv1,
            b == dp1 * du2 - dp2 * du1,
            det == du1 * dv2 - dv1 * du2;
    lemma_div_trunc_close(t * FIXED_ONE, det);
    lemma_div_trunc_close(b * FIXED_ONE, det);
}

} // verus!
