use vstd::prelude::*;

verus! {

// A circle n-gon mesh has a center vertex (index 0) and `n` perimeter vertices
// (indices 1 to n), joined into a triangle fan around the center.

/// Number of triangles in the fan of an n-gon. The closing triangle is
/// emitted even when `n` is 0.
pub open spec fn fan_triangle_count(n: nat) -> nat {
    if n == 0 {
        1
    } else {
        n
    }
}

/// Triangle `t` of the fan: the center and perimeter vertices `t + 1` and
/// `t + 2`, except the last one, which closes the fan from vertex `n` back to
/// vertex 1. Vertex numbers are written as `u32`.
pub open spec fn fan_triangle(n: nat, t: int) -> Seq<u32> {
    if t + 1 < n {
        seq![0u32, (t + 1) as u32, (t + 2) as u32]
    } else {
        seq![0u32, n as u32, 1u32]
    }
}

/// The three indices of triangle `t` in a triangle list.
pub open spec fn triangle_at(indices: Seq<u32>, t: int) -> Seq<u32> {
    indices.subrange(3 * t, 3 * t + 3)
}

/// The index buffer of an n-gon fan is a list of exactly its fan triangles.
pub open spec fn is_fan_index_list(indices: Seq<u32>, n: nat) -> bool {
    &&& indices.len() == 3 * fan_triangle_count(n)
    &&& forall|t: int|
        0 <= t < fan_triangle_count(n) ==> #[trigger] triangle_at(indices, t) == fan_triangle(n, t)
}

/// The per-vertex soft-body index attribute: vertex `k` carries `k`, for the
/// vertices 0 to `n` (as a `u32`).
pub open spec fn vertex_ids(n: nat) -> Seq<u32> {
    Seq::new(((n as u32) + 1) as nat, |k: int| k as u32)
}

/// Triangle-list indices of the circle n-gon fan.
pub fn circle_ngon_triangle_indices(n: usize) -> (indices: Vec<u32>)
    requires
        n * 3 <= usize::MAX,
    ensures
        is_fan_index_list(indices@, n as nat),
        n >= 1 ==> indices@.len() == 3 * n,
        n == 0 ==> indices@ == seq![0u32, 0u32, 1u32],
{
    let mut indices: Vec<u32> = Vec::with_capacity(n * 3);
    let mut i: usize = 1;
    while i < n
        invariant
            1 <= i,
            i <= n || n == 0,
            n == 0 ==> i == 1,
            indices@.len() == 3 * (i - 1),
            forall|t: int|
                0 <= t < i - 1 ==> #[trigger] triangle_at(indices@, t) == fan_triangle(n as nat, t),
        decreases n - i,
    {
        let ghost before = indices@;
        indices.push(0);
        indices.push(i as u32);
        indices.push((i + 1) as u32);
        proof {
            assert forall|t: int| 0 <= t < i implies #[trigger] triangle_at(indices@, t)
                == fan_triangle(n as nat, t) by {
                if t < i - 1 {
                    assert(triangle_at(indices@, t) =~= triangle_at(before, t));
                } else {
                    assert(triangle_at(indices@, t) =~= fan_triangle(n as nat, t));
                }
            }
        }
        i = i + 1;
    }
    let ghost before = indices@;
    let ghost last = (i - 1) as int;
    // The closing triangle joins the last perimeter vertex back to the first.
    indices.push(0);
    indices.push(n as u32);
    indices.push(1);
    proof {
        assert forall|t: int| 0 <= t < fan_triangle_count(n as nat) implies #[trigger] triangle_at(
            indices@,
            t,
        ) == fan_triangle(n as nat, t) by {
            if t < last {
                assert(triangle_at(indices@, t) =~= triangle_at(before, t));
            } else {
                assert(triangle_at(indices@, t) =~= fan_triangle(n as nat, t));
            }
        }
    }
    proof {
        if n == 0 {
            assert(triangle_at(indices@, 0) == fan_triangle(0, 0));
            assert(indices@ =~= triangle_at(indices@, 0));
        }
    }
    indices
}

/// The soft-body index of every vertex of the circle n-gon: 0 to `n` (as a `u32`).
pub fn circle_ngon_vertex_ids(n: usize) -> (ids: Vec<u32>)
    ensures
        ids@ == vertex_ids(n as nat),
{
    let last = n as u32;
    let mut ids: Vec<u32> = Vec::new();
    let mut k: u64 = 0;
    while k <= last as u64
        invariant
            k <= last as u64 + 1,
            last == n as u32,
            ids@.len() == k,
            forall|j: int| 0 <= j < k ==> #[trigger] ids@[j] == j as u32,
        decreases last as u64 + 1 - k,
    {
        ids.push(k as u32);
        k = k + 1;
    }
    proof {
        assert(ids@ =~= vertex_ids(n as nat));
    }
    ids
}

/// An n-gon fan (n at least 1) has exactly n triangles; triangle `t` joins
/// the center to perimeter vertices `t + 1` and `t + 2`, and the last one
/// joins the center to vertex `n` and back to vertex 1.
pub proof fn lemma_fan_corners(indices: Seq<u32>, n: nat, t: int)
    requires
        is_fan_index_list(indices, n),
        n >= 1,
        0 <= t < n,
    ensures
        indices.len() == 3 * n,
        indices[3 * t] == 0,
        indices[3 * t + 1] == (t + 1) as u32,
        indices[3 * t + 2] == (if t + 1 < n {
            (t + 2) as u32
        } else {
            1u32
        }),
{
    assert(triangle_at(indices, t) == fan_triangle(n, t));
    assert(indices[3 * t] == triangle_at(indices, t)[0]);
    assert(indices[3 * t + 1] == triangle_at(indices, t)[1]);
    assert(indices[3 * t + 2] == triangle_at(indices, t)[2]);
}

/// Every perimeter vertex 1 to n of an n-gon fan (n at least 1, up to
/// `u32::MAX`) is drawn: it is the second corner of triangle `v - 1`.
pub proof fn lemma_fan_draws_every_perimeter_vertex(indices: Seq<u32>, n: nat, v: int)
    requires
        is_fan_index_list(indices, n),
        1 <= n <= u32::MAX,
        1 <= v <= n,
    ensures
        indices.contains(v as u32),
        indices[3 * (v - 1) + 1] == v,
{
    lemma_fan_corners(indices, n, v - 1);
}

/// The fan of a 0-gon is the single triangle [0, 0, 1].
pub proof fn lemma_empty_fan(indices: Seq<u32>)
    requires
        is_fan_index_list(indices, 0),
    ensures
        indices == seq![0u32, 0u32, 1u32],
{
    assert(triangle_at(indices, 0) == fan_triangle(0, 0));
    assert(indices =~= triangle_at(indices, 0));
}

/// Every triangle of the fan starts at the center vertex and only uses
/// vertices of the n-gon (0 to `n`).
pub proof fn lemma_fan_uses_existing_vertices(n: nat, t: int)
    requires
        1 <= n <= u32::MAX,
        0 <= t < fan_triangle_count(n),
    ensures
        fan_triangle(n, t)[0] == 0,
        forall|c: int| 0 <= c < 3 ==> #[trigger] fan_triangle(n, t)[c] <= n,
{
}

/// Consecutive triangles of the fan share an edge, and the last one shares
/// its closing edge with the first: the fan covers the whole n-gon.
pub proof fn lemma_fan_is_closed(n: nat, t: int)
    requires
        1 <= n,
        0 <= t < fan_triangle_count(n),
    ensures
        t + 1 < fan_triangle_count(n) ==> fan_triangle(n, t)[2] == fan_triangle(n, t + 1)[1],
        t + 1 == fan_triangle_count(n) ==> fan_triangle(n, t)[2] == fan_triangle(n, 0)[1],
{
}

/// The n-gon has one soft-body index per vertex: `n + 1` of them, numbered
/// in order.
pub proof fn lemma_one_id_per_vertex(n: nat)
    requires
        n <= u32::MAX,
    ensures
        vertex_ids(n).len() == n + 1,
        forall|k: int| 0 <= k <= n ==> #[trigger] vertex_ids(n)[k] == k,
{
}

} // verus!
