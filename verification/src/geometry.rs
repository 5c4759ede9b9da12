//! Nested-polygon geometry in fixed-point coordinates.
//!
//! A ring is an ordered, cyclically closed sequence of vertices: vertex `i`
//! and vertex `(i + 1) mod len` form an edge.  The base ring of a regular
//! `n`-gon lies on the unit circle with vertex 0 pointing straight up; each
//! further ring takes the midpoints of the previous ring's edges, wraparound
//! edge included.

use vstd::prelude::*;
use vstd::arithmetic::div_mod::lemma_div_is_ordered;
use vstd::arithmetic::div_mod::lemma_small_mod;
use vstd::arithmetic::div_mod::lemma_mod_self_0;
use crate::trig::{FP_ONE, cos_fp, sin_fp, cos_fixed, sin_fixed, vertex_angle, vertex_angle_fixed};

verus! {

/// An RGBA color; each channel is in thousandths of full intensity.
#[derive(Clone, Copy, Debug, PartialEq, Eq, Structural)]
pub struct Color {
    pub red: u16,
    pub green: u16,
    pub blue: u16,
    pub alpha: u16,
}

/// The one vertex color this system draws with: opaque white.
pub open spec fn white() -> Color {
    Color { red: 1000, green: 1000, blue: 1000, alpha: 1000 }
}

/// Returns the shared vertex color, opaque white.
pub fn white_color() -> (c: Color)
    ensures
        c == white(),
{
    Color { red: 1000, green: 1000, blue: 1000, alpha: 1000 }
}

/// A 2D vertex: a fixed-point position and a color.
#[derive(Clone, Copy, Debug, PartialEq, Eq, Structural)]
pub struct Vertex {
    pub x: i64,
    pub y: i64,
    pub color: Color,
}

/// Both coordinates of the vertex have absolute value at most one.
pub open spec fn in_unit_box(v: Vertex) -> bool {
    &&& -FP_ONE <= v.x <= FP_ONE
    &&& -FP_ONE <= v.y <= FP_ONE
}

/// Every vertex of the ring stays within the unit box.
pub open spec fn ring_bounded(r: Seq<Vertex>) -> bool {
    forall|i: int| 0 <= i < r.len() ==> in_unit_box(#[trigger] r[i])
}

/// Saturates a fixed-point value into `[-1, 1]`.
pub open spec fn clamp_fp(v: int) -> int {
    if v < -FP_ONE {
        -FP_ONE as int
    } else if v > FP_ONE {
        FP_ONE as int
    } else {
        v
    }
}

/// Computes `clamp_fp(v)` exactly.
fn clamp_coord(v: i64) -> (r: i64)
    ensures
        r == clamp_fp(v as int),
{
    if v < -FP_ONE {
        -FP_ONE
    } else if v > FP_ONE {
        FP_ONE
    } else {
        v
    }
}

/// The fixed-point mean of two values, rounded toward negative infinity.
pub open spec fn mid_fp(a: int, b: int) -> int {
    (a + b) / 2
}

/// Computes `mid_fp(a, b)` exactly.
fn mid_coord(a: i64, b: i64) -> (r: i64)
    requires
        -FP_ONE <= a <= FP_ONE,
        -FP_ONE <= b <= FP_ONE,
    ensures
        r == mid_fp(a as int, b as int),
        -FP_ONE <= r <= FP_ONE,
{
    proof {
        lemma_div_is_ordered(-2 * FP_ONE, a + b, 2);
        lemma_div_is_ordered(a + b, 2 * FP_ONE, 2);
    }
    let sum: i64 = a + b;
    sum.checked_div_euclid(2).unwrap()
}

/// Vertex `k` of the base ring of a regular `n`-gon: on the unit circle at
/// the angle of vertex `k`, saturated into the unit box, colored white.
pub open spec fn base_vertex(k: int, n: int) -> Vertex {
    Vertex {
        x: clamp_fp(cos_fp(vertex_angle(k, n))) as i64,
        y: clamp_fp(sin_fp(vertex_angle(k, n))) as i64,
        color: white(),
    }
}

/// The base ring of a regular `n`-gon.
pub open spec fn base_ring_spec(n: int) -> Seq<Vertex> {
    Seq::new(n as nat, |k: int| base_vertex(k, n))
}

/// The midpoint of two vertices; the color of the first endpoint is kept.
pub open spec fn midpoint(a: Vertex, b: Vertex) -> Vertex {
    Vertex { x: mid_fp(a.x as int, b.x as int) as i64, y: mid_fp(a.y as int, b.y as int) as i64, color: a.color }
}

/// The ring derived from `r`: vertex `i` is the midpoint of the edge from
/// vertex `i` to vertex `(i + 1) mod len`, wraparound edge included.
pub open spec fn next_ring_spec(r: Seq<Vertex>) -> Seq<Vertex> {
    Seq::new(r.len(), |i: int| midpoint(r[i], r[(i + 1) % (r.len() as int)]))
}

/// The ring at depth `d`: `d` midpoint steps applied to the base ring of a
/// regular `n`-gon.
pub open spec fn ring_at(n: int, d: nat) -> Seq<Vertex>
    decreases d,
{
    if d == 0 {
        base_ring_spec(n)
    } else {
        next_ring_spec(ring_at(n, (d - 1) as nat))
    }
}

/// Builds the base ring: `sides` white vertices evenly spaced on the unit
/// circle, vertex 0 pointing straight up.
pub fn base_ring(sides: usize) -> (r: Vec<Vertex>)
    requires
        3 <= sides,
    ensures
        r@ == base_ring_spec(sides as int),
        r@.len() == sides,
        ring_bounded(r@),
{
    let color = white_color();
    let mut r: Vec<Vertex> = Vec::new();
    for k in 0..sides
        invariant
            r@.len() == k,
            forall|j: int| 0 <= j < k ==> r@[j] == base_vertex(j, sides as int),
            color == white(),
            3 <= sides,
    {
        let angle = vertex_angle_fixed(k, sides);
        let x = clamp_coord(cos_fixed(angle));
        let y = clamp_coord(sin_fixed(angle));
        r.push(Vertex { x, y, color });
    }
    proof {
        assert(r@ =~= base_ring_spec(sides as int));
    }
    r
}

/// Builds the next ring: the same length as `ring`, vertex `i` the midpoint
/// of vertices `i` and `(i + 1) mod len`, each keeping the color of its first
/// endpoint.
pub fn next_ring(ring: &Vec<Vertex>) -> (r: Vec<Vertex>)
    requires
        ring@.len() >= 3,
        ring_bounded(ring@),
    ensures
        r@ == next_ring_spec(ring@),
        r@.len() == ring@.len(),
        ring_bounded(r@),
{
    let n = ring.len();
    let mut r: Vec<Vertex> = Vec::new();
    for i in 0..n
        invariant
            n == ring@.len(),
            3 <= n,
            ring_bounded(ring@),
            r@.len() == i,
            forall|j: int| 0 <= j < i ==> r@[j] == next_ring_spec(ring@)[j],
    {
        let j = if i + 1 < n {
            i + 1
        } else {
            0
        };
        proof {
            if i + 1 < n {
                lemma_small_mod((i + 1) as nat, n as nat);
            } else {
                lemma_mod_self_0(n as int);
            }
        }
        let a = ring[i];
        let b = ring[j];
        let v = Vertex { x: mid_coord(a.x, b.x), y: mid_coord(a.y, b.y), color: a.color };
        r.push(v);
    }
    proof {
        assert(r@ =~= next_ring_spec(ring@));
    }
    r
}

/// Every ring in the nested stack has `n` vertices, stays within the unit
/// box, and keeps the one shared color: midpoint steps change positions only.
pub proof fn lemma_ring_structure(n: int, d: nat)
    requires
        3 <= n,
    ensures
        ring_at(n, d).len() == n,
        ring_bounded(ring_at(n, d)),
        forall|i: int| 0 <= i < n ==> (#[trigger] ring_at(n, d)[i]).color == white(),
    decreases d,
{
    if d == 0 {
    } else {
        lemma_ring_structure(n, (d - 1) as nat);
        let prev = ring_at(n, (d - 1) as nat);
        assert forall|i: int| 0 <= i < n implies in_unit_box(#[trigger] ring_at(n, d)[i])
            && ring_at(n, d)[i].color == white() by {
            let j = (i + 1) % (prev.len() as int);
            lemma_mod_bound_int(i + 1, prev.len() as int);
            lemma_mid_fp_bounds(prev[i].x as int, prev[j].x as int);
            lemma_mid_fp_bounds(prev[i].y as int, prev[j].y as int);
        }
    }
}

/// The mean of two values in `[-1, 1]` stays in `[-1, 1]`.
proof fn lemma_mid_fp_bounds(a: int, b: int)
    requires
        -FP_ONE <= a <= FP_ONE,
        -FP_ONE <= b <= FP_ONE,
    ensures
        -FP_ONE <= mid_fp(a, b) <= FP_ONE,
{
    lemma_div_is_ordered(-2 * FP_ONE, a + b, 2);
    lemma_div_is_ordered(a + b, 2 * FP_ONE, 2);
}

/// For positive `m`, `x % m` lies in `[0, m)`.
proof fn lemma_mod_bound_int(x: int, m: int)
    requires
        0 < m,
    ensures
        0 <= x % m < m,
{
}

/// Builds the full nested stack: the rings at depths `0` through `depth`, in
/// depth order, each derived from the one before it.
pub fn sequence(sides: usize, depth: usize) -> (r: Vec<Vec<Vertex>>)
    requires
        3 <= sides,
        depth < usize::MAX,
    ensures
        r@.len() == depth + 1,
        forall|d: int| 0 <= d <= depth ==> (#[trigger] r@[d])@ == ring_at(sides as int, d as nat),
        forall|d: int, i: int|
            0 <= d <= depth && 0 <= i < sides ==> in_unit_box(#[trigger] r@[d]@[i]),
{
    let mut r: Vec<Vec<Vertex>> = Vec::new();
    let base = base_ring(sides);
    r.push(base);
    let mut d: usize = 1;
    while d <= depth
        invariant
            3 <= sides,
            depth < usize::MAX,
            1 <= d <= depth + 1,
            r@.len() == d,
            forall|e: int| 0 <= e < d ==> (#[trigger] r@[e])@ == ring_at(sides as int, e as nat),
        decreases depth + 1 - d,
    {
        proof {
            lemma_ring_structure(sides as int, (d - 1) as nat);
        }
        let nxt = next_ring(&r[d - 1]);
        r.push(nxt);
        d = d + 1;
    }
    proof {
        assert forall|e: int, i: int|
            0 <= e <= depth && 0 <= i < sides implies in_unit_box(#[trigger] r@[e]@[i]) by {
            lemma_ring_structure(sides as int, e as nat);
        }
    }
    r
}

} // verus!
