//! Drawable geometry: vertices in the GPU layout's field order, batches
//! pairing a vertex list with an index list, and the built-in fixtures
//! (axes markers, random walks).

use vstd::prelude::*;
use crate::fixed::SCALE;

verus! {

/// A four-component fixed-point vector, in micro-units.
#[derive(Clone, Copy, PartialEq, Eq, Structural, Debug)]
pub struct Vec4i {
    pub x: i64,
    pub y: i64,
    pub z: i64,
    pub w: i64,
}

/// One point: homogeneous position (w = SCALE for points), color with an
/// unused fourth channel, and a world-space sprite size hint.
#[derive(Clone, Copy, PartialEq, Eq, Structural, Debug)]
pub struct Vertex {
    pub position: Vec4i,
    pub color: Vec4i,
    pub size: i64,
}

/// One independently drawable pairing of vertices and indices, submitted
/// as a single indexed draw. Immutable once constructed; regenerated, not
/// mutated, when source data changes.
#[derive(Clone, Debug)]
pub struct GeometryBatch {
    pub vertices: Vec<Vertex>,
    pub indices: Vec<u32>,
}

impl GeometryBatch {
    /// Every index addresses a vertex of the batch.
    pub open spec fn wf(self) -> bool {
        forall|i: int| 0 <= i < self.indices@.len() ==> self.indices@[i] < self.vertices@.len()
    }
}

/// The trivial identity index list `0..vertices.len()`, used for
/// point-list batches where each vertex is one point.
pub fn render_all_vertices(vertices: &Vec<Vertex>) -> (r: Vec<u32>)
    requires
        vertices@.len() <= 0xFFFF_FFFF,
    ensures
        r@.len() == vertices@.len(),
        forall|i: int| 0 <= i < r@.len() ==> r@[i] == i,
{
    let n = vertices.len();
    let mut r: Vec<u32> = Vec::new();
    let mut i: usize = 0;
    while i < n
        invariant
            i <= n,
            n == vertices@.len(),
            n <= 0xFFFF_FFFF,
            r@.len() == i,
            forall|k: int| 0 <= k < i ==> r@[k] == k,
        decreases n - i,
    {
        r.push(i as u32);
        i = i + 1;
    }
    r
}

/// The vertex at slot `k` of the axes fixture: slot 0 is the origin
/// marker; after it come nine groups of three markers, one per world
/// axis, at growing whole-unit distances.
pub open spec fn axes_model(k: int) -> Vertex {
    if k == 0 {
        Vertex {
            position: Vec4i { x: 0, y: 0, z: 0, w: SCALE },
            color: Vec4i { x: SCALE, y: SCALE, z: SCALE, w: SCALE },
            size: 40_000_000i64,
        }
    } else {
        let g = (k - 1) / 3 + 1;
        let m = (k - 1) % 3;
        if m == 0 {
            Vertex {
                position: Vec4i { x: (g * SCALE) as i64, y: 0, z: 0, w: SCALE },
                color: Vec4i { x: SCALE, y: 0, z: 0, w: 0 },
                size: 20_000_000i64,
            }
        } else if m == 1 {
            Vertex {
                position: Vec4i { x: 0, y: (g * SCALE) as i64, z: 0, w: SCALE },
                color: Vec4i { x: 0, y: SCALE, z: 0, w: 0 },
                size: 20_000_000i64,
            }
        } else {
            Vertex {
                position: Vec4i { x: 0, y: 0, z: (g * SCALE) as i64, w: SCALE },
                color: Vec4i { x: 0, y: 0, z: SCALE, w: 0 },
                size: 20_000_000i64,
            }
        }
    }
}

/// The permanent reference overlay: exactly 28 vertices, the origin
/// marker first, then nine markers along each of the three world axes.
pub fn axes() -> (r: Vec<Vertex>)
    ensures
        r@.len() == 28,
        forall|k: int| 0 <= k < 28 ==> r@[k] == axes_model(k),
{
    let mut v: Vec<Vertex> = Vec::new();
    v.push(Vertex {
        position: Vec4i { x: 0, y: 0, z: 0, w: SCALE },
        color: Vec4i { x: SCALE, y: SCALE, z: SCALE, w: SCALE },
        size: 40 * SCALE,
    });
    let mut i: i64 = 1;
    while i < 10
        invariant
            1 <= i <= 10,
            v@.len() == 3 * i - 2,
            forall|k: int| 0 <= k < v@.len() ==> v@[k] == axes_model(k),
        decreases 10 - i,
    {
        proof {
            vstd::arithmetic::div_mod::lemma_mod_multiples_basic(i - 1, 3);
            vstd::arithmetic::div_mod::lemma_div_multiples_vanish(i - 1, 3);
            vstd::arithmetic::div_mod::lemma_mod_multiples_vanish(i - 1, 1, 3);
            vstd::arithmetic::div_mod::lemma_small_mod(1nat, 3nat);
            vstd::arithmetic::div_mod::lemma_div_multiples_vanish_fancy(i - 1, 1, 3);
            vstd::arithmetic::div_mod::lemma_mod_multiples_vanish(i - 1, 2, 3);
            vstd::arithmetic::div_mod::lemma_small_mod(2nat, 3nat);
            vstd::arithmetic::div_mod::lemma_div_multiples_vanish_fancy(i - 1, 2, 3);
        }
        v.push(Vertex {
            position: Vec4i { x: i * SCALE, y: 0, z: 0, w: SCALE },
            color: Vec4i { x: SCALE, y: 0, z: 0, w: 0 },
            size: 20 * SCALE,
        });
        v.push(Vertex {
            position: Vec4i { x: 0, y: i * SCALE, z: 0, w: SCALE },
            color: Vec4i { x: 0, y: SCALE, z: 0, w: 0 },
            size: 20 * SCALE,
        });
        v.push(Vertex {
            position: Vec4i { x: 0, y: 0, z: i * SCALE, w: SCALE },
            color: Vec4i { x: 0, y: 0, z: SCALE, w: 0 },
            size: 20 * SCALE,
        });
        i = i + 1;
    }
    v
}

/// Sum of the first `i` walk steps: the height of walk vertex `i`.
pub open spec fn prefix_sum(s: Seq<i64>, i: int) -> int
    decreases i,
{
    if i <= 0 {
        0
    } else {
        prefix_sum(s, i - 1) + s[i - 1]
    }
}

/// A prefix sum of bounded steps is bounded by the step bound times the
/// number of steps.
pub proof fn lemma_prefix_sum_bound(s: Seq<i64>, i: int)
    requires
        0 <= i <= s.len(),
        forall|k: int| 0 <= k < s.len() ==> -2_500_000 <= #[trigger] s[k] < 2_500_000,
    ensures
        -2_500_000 * i <= prefix_sum(s, i) <= 2_500_000 * i,
    decreases i,
{
    if i > 0 {
        lemma_prefix_sum_bound(s, i - 1);
    }
}

/// The deterministic core of the random walk: given the step values, the
/// walk is a pure function. Vertex `i` sits at `x = i/1000` units with
/// height the sum of the first `i` steps, so the last step never moves a
/// vertex. Colored uniformly, unit point size, identity indices.
pub fn walk_from_steps(r: i64, g: i64, b: i64, steps: &Vec<i64>) -> (line: GeometryBatch)
    requires
        steps@.len() <= 1_000_000,
        forall|k: int| 0 <= k < steps@.len() ==> -2_500_000 <= #[trigger] steps@[k] < 2_500_000,
    ensures
        line.vertices@.len() == steps@.len(),
        forall|i: int| 0 <= i < steps@.len() ==> {
            let v = #[trigger] line.vertices@[i];
            &&& v.position.x == i * 1000
            &&& v.position.y == prefix_sum(steps@, i)
            &&& v.position.z == 0
            &&& v.position.w == SCALE
            &&& v.color == (Vec4i { x: r, y: g, z: b, w: 0i64 })
            &&& v.size == SCALE
        },
        line.indices@.len() == steps@.len(),
        forall|i: int| 0 <= i < line.indices@.len() ==> line.indices@[i] == i,
        line.wf(),
{
    let n = steps.len();
    let mut verts: Vec<Vertex> = Vec::new();
    let mut y: i64 = 0;
    let mut i: usize = 0;
    while i < n
        invariant
            i <= n,
            n == steps@.len(),
            n <= 1_000_000,
            forall|k: int| 0 <= k < steps@.len() ==> -2_500_000 <= #[trigger] steps@[k] < 2_500_000,
            y == prefix_sum(steps@, i as int),
            verts@.len() == i,
            forall|k: int| 0 <= k < i ==> {
                let v = #[trigger] verts@[k];
                &&& v.position.x == k * 1000
                &&& v.position.y == prefix_sum(steps@, k)
                &&& v.position.z == 0
                &&& v.position.w == SCALE
                &&& v.color == (Vec4i { x: r, y: g, z: b, w: 0i64 })
                &&& v.size == SCALE
            },
        decreases n - i,
    {
        proof {
            lemma_prefix_sum_bound(steps@, i as int);
            lemma_prefix_sum_bound(steps@, i + 1);
        }
        verts.push(Vertex {
            position: Vec4i { x: (i as i64) * 1000, y, z: 0, w: SCALE },
            color: Vec4i { x: r, y: g, z: b, w: 0 },
            size: SCALE,
        });
        y = y + steps[i];
        i = i + 1;
    }
    let indices = render_all_vertices(&verts);
    GeometryBatch { vertices: verts, indices }
}

/// Relies on `rand::random_range`: a uniform draw from a non-empty
/// half-open integer range lies within that range.
#[verifier::external_body]
fn random_step_micro() -> (r: i64)
    ensures
        -2_500_000 <= r < 2_500_000,
{
    rand::random_range(-2_500_000i64..2_500_000i64)
}

/// A random walk along the second axis, `n` vertices advancing linearly
/// along the first: each step is a fresh uniform draw from [-2.5, 2.5)
/// units. The walk starts at height zero and no two consecutive vertices
/// differ in height by 2.5 units or more.
pub fn get_random_walk(r: i64, g: i64, b: i64, n: u32) -> (line: GeometryBatch)
    requires
        n <= 1_000_000,
    ensures
        line.vertices@.len() == n,
        forall|i: int| 0 <= i < n ==> {
            let v = #[trigger] line.vertices@[i];
            &&& v.position.x == i * 1000
            &&& v.position.z == 0
            &&& v.position.w == SCALE
            &&& v.color == (Vec4i { x: r, y: g, z: b, w: 0i64 })
            &&& v.size == SCALE
        },
        n > 0 ==> line.vertices@[0].position.y == 0,
        forall|i: int| 0 <= i < n - 1 ==> -2_500_000
            <= #[trigger] line.vertices@[i + 1].position.y - line.vertices@[i].position.y
            < 2_500_000,
        line.indices@.len() == n,
        forall|i: int| 0 <= i < line.indices@.len() ==> line.indices@[i] == i,
        line.wf(),
{
    let mut steps: Vec<i64> = Vec::new();
    let mut i: u32 = 0;
    while i < n
        invariant
            i <= n,
            steps@.len() == i,
            forall|k: int| 0 <= k < i ==> -2_500_000 <= #[trigger] steps@[k] < 2_500_000,
        decreases n - i,
    {
        let s = random_step_micro();
        steps.push(s);
        i = i + 1;
    }
    let line = walk_from_steps(r, g, b, &steps);
    proof {
        assert forall|i: int| 0 <= i < n - 1 implies -2_500_000
            <= #[trigger] line.vertices@[i + 1].position.y - line.vertices@[i].position.y
            < 2_500_000 by {
            assert(prefix_sum(steps@, i + 1) == prefix_sum(steps@, i) + steps@[i]);
        }
    }
    line
}

} // verus!
