//! Triangle-fan meshes for light polygons.
//!
//! A light polygon is drawn as a fan: vertex 0 is the light's centre and
//! vertices `1..=n` lie on its outline. Triangle `k` joins the centre with
//! outline vertices `k + 1` and `(k + 1) % n + 1`, so the last triangle
//! closes the fan back onto vertex 1.

use vstd::prelude::*;

verus! {

/// The `j`-th entry of the index list of a fan of `n` triangles, computed
/// with the same 32-bit truncation as the executable code.
pub open spec fn fan_index(n: nat, j: int) -> u32 {
    let k = j / 3;
    let index = (k + 1) as u32;
    if j % 3 == 0 {
        0u32
    } else if j % 3 == 1 {
        index
    } else {
        ((index % (n as u32)) + 1) as u32
    }
}

/// The index list of a fan of `n` triangles: three indices per triangle.
pub open spec fn fan_indices(n: nat) -> Seq<u32> {
    Seq::new(3 * n, |j: int| fan_index(n, j))
}

/// Index list for a polygon drawn as a fan of `triangle_amount` triangles
/// around vertex 0.
pub fn calculate_indices_polygon(triangle_amount: usize) -> (indices: Vec<u32>)
    requires
        triangle_amount * 3 <= usize::MAX,
        triangle_amount == 0 || triangle_amount as u32 != 0,
    ensures
        indices@ == fan_indices(triangle_amount as nat),
        indices.len() == 3 * triangle_amount,
        triangle_amount <= u32::MAX ==> forall|k: int|
            0 <= k < triangle_amount ==> {
                &&& #[trigger] indices@[3 * k] == 0
                &&& indices@[3 * k + 1] == k + 1
                &&& indices@[3 * k + 2] == (k + 1) % (triangle_amount as int) + 1
            },
{
    let mut indices: Vec<u32> = Vec::with_capacity(triangle_amount * 3);
    let amount: u32 = triangle_amount as u32;
    let mut i: usize = 0;
    while i < triangle_amount
        invariant
            i <= triangle_amount,
            triangle_amount * 3 <= usize::MAX,
            amount == triangle_amount as u32,
            triangle_amount > 0 ==> amount != 0,
            indices@ =~= fan_indices(triangle_amount as nat).take(3 * i),
        decreases triangle_amount - i,
    {
        let index: u32 = (i + 1) as u32;
        indices.push(0);
        indices.push(index);
        indices.push(index % amount + 1);
        proof {
            let full = fan_indices(triangle_amount as nat);
            assert(full[3 * i as int] == 0u32);
            assert(full[3 * i + 1] == index);
            assert(full[3 * i + 2] == index % amount + 1);
            assert(indices@ =~= full.take(3 * (i + 1)));
        }
        i = i + 1;
    }
    proof {
        lemma_fan_triangles(triangle_amount as nat);
    }
    indices
}

/// Index list for a fan-shaped vertex buffer of `amount_of_vertices`
/// vertices: the centre followed by the outline, one triangle per outline
/// vertex.
pub fn polygon_index_list(amount_of_vertices: usize) -> (indices: Vec<u32>)
    requires
        amount_of_vertices >= 1,
        (amount_of_vertices - 1) * 3 <= usize::MAX,
        amount_of_vertices == 1 || (amount_of_vertices - 1) as u32 != 0,
    ensures
        indices@ == fan_indices((amount_of_vertices - 1) as nat),
        indices.len() == 3 * (amount_of_vertices - 1),
        amount_of_vertices - 1 <= u32::MAX ==> forall|j: int|
            0 <= j < indices@.len() ==> #[trigger] indices@[j] < amount_of_vertices,
{
    let indices = calculate_indices_polygon(amount_of_vertices - 1);
    proof {
        if amount_of_vertices - 1 <= u32::MAX {
            lemma_fan_indices_in_bounds((amount_of_vertices - 1) as nat);
        }
    }
    indices
}

/// The vertex list of a light polygon's fan: the centre first, then the
/// outline, then copies of the centre until there are at least three
/// vertices, so that the fan has at least two triangles.
pub open spec fn fan_vertices<T>(origin: T, outline: Seq<T>) -> Seq<T> {
    let base = seq![origin] + outline;
    if base.len() < 3 {
        base + Seq::new((3 - base.len()) as nat, |i: int| origin)
    } else {
        base
    }
}

/// Vertex list of the fan that draws a light polygon whose outline points
/// are `outline`, relative to the light at `origin`.
pub fn light_polygon_vertices<T: Copy>(origin: T, outline: &Vec<T>) -> (vertices: Vec<T>)
    requires
        outline.len() < usize::MAX,
    ensures
        vertices@ == fan_vertices(origin, outline@),
        vertices.len() == if outline.len() + 1 < 3 { 3 } else { outline.len() + 1 },
        vertices@[0] == origin,
        forall|i: int| 0 <= i < outline.len() ==> #[trigger] vertices@[i + 1] == outline@[i],
        forall|i: int| outline.len() < i < vertices.len() ==> #[trigger] vertices@[i] == origin,
{
    let mut vertices: Vec<T> = Vec::new();
    vertices.push(origin);
    let mut i: usize = 0;
    while i < outline.len()
        invariant
            i <= outline.len(),
            outline.len() < usize::MAX,
            vertices@ =~= seq![origin] + outline@.take(i as int),
        decreases outline.len() - i,
    {
        vertices.push(outline[i]);
        proof {
            assert(outline@.take(i + 1) =~= outline@.take(i as int).push(outline@[i as int]));
        }
        i = i + 1;
    }
    assert(outline@.take(outline.len() as int) =~= outline@);
    let ghost base = vertices@;
    while vertices.len() < 3
        invariant
            base == seq![origin] + outline@,
            base.len() <= vertices.len(),
            vertices.len() <= 3 || vertices.len() == base.len(),
            vertices@ =~= base + Seq::new((vertices.len() - base.len()) as nat, |k: int| origin),
        decreases 3 - vertices.len(),
    {
        vertices.push(origin);
    }
    proof {
        if base.len() < 3 {
            assert(vertices.len() == 3);
        } else {
            assert(vertices@ =~= base);
        }
        lemma_fan_vertices_follow_outline(origin, outline@);
    }
    vertices
}

/// Every index of a fan of `n` triangles names one of the `n + 1` vertices
/// of the fan (the centre and the `n` outline vertices), as long as `n`
/// fits in the 32-bit indices.
pub proof fn lemma_fan_indices_in_bounds(n: nat)
    requires
        n <= u32::MAX,
    ensures
        forall|j: int| 0 <= j < fan_indices(n).len() ==> #[trigger] fan_indices(n)[j] <= n,
{
    assert forall|j: int| 0 <= j < fan_indices(n).len() implies #[trigger] fan_indices(n)[j] <= n by {
        let k = j / 3;
        assert(0 <= k < n);
        assert((k + 1) as u32 == k + 1);
        assert(n as u32 == n);
        if j % 3 == 2 {
            let index = (k + 1) as u32;
            assert(index % (n as u32) < n);
        }
    }
}

/// The fan is closed and gapless: triangle `k` of a fan of `n` triangles
/// starts at the centre, its second vertex is outline vertex `k + 1`, and
/// its third vertex is the second vertex of the next triangle, the last
/// triangle wrapping around to the first.
pub proof fn lemma_fan_is_closed(n: nat, k: int)
    requires
        n <= u32::MAX,
        0 <= k < n,
    ensures
        fan_indices(n)[3 * k] == 0,
        fan_indices(n)[3 * k + 1] == k + 1,
        fan_indices(n)[3 * k + 2] == fan_indices(n)[3 * ((k + 1) % (n as int)) + 1],
{
    let next = (k + 1) % (n as int);
    assert((3 * k) / 3 == k && (3 * k) % 3 == 0);
    assert((3 * k + 1) / 3 == k && (3 * k + 1) % 3 == 1);
    assert((3 * k + 2) / 3 == k && (3 * k + 2) % 3 == 2);
    assert(0 <= next < n);
    assert((3 * next + 1) / 3 == next && (3 * next + 1) % 3 == 1);
    assert((k + 1) as u32 == k + 1);
    assert((next + 1) as u32 == next + 1);
    assert(n as u32 == n);
}

/// The vertex list of a light polygon has at least three vertices and
/// starts at the light's centre, and the fan index list built for it (one
/// triangle per vertex after the centre) only names vertices of that list.
pub proof fn lemma_light_mesh_is_consistent<T>(origin: T, outline: Seq<T>)
    requires
        outline.len() <= u32::MAX,
    ensures
        fan_vertices(origin, outline).len() >= 3,
        fan_vertices(origin, outline)[0] == origin,
        forall|j: int|
            0 <= j < fan_indices((fan_vertices(origin, outline).len() - 1) as nat).len()
                ==> #[trigger] fan_indices((fan_vertices(origin, outline).len() - 1) as nat)[j]
                < fan_vertices(origin, outline).len(),
{
    let v = fan_vertices(origin, outline);
    assert(v.len() == if outline.len() + 1 < 3 { 3 } else { outline.len() + 1 });
    lemma_fan_indices_in_bounds((v.len() - 1) as nat);
}

/// The index list of a fan of `n` triangles has exactly three entries per
/// triangle, and triangle `k` is the centre, outline vertex `k + 1` and
/// outline vertex `(k + 1) % n + 1`.
pub proof fn lemma_fan_triangles(n: nat)
    ensures
        fan_indices(n).len() == 3 * n,
        n <= u32::MAX ==> forall|k: int|
            0 <= k < n ==> {
                &&& #[trigger] fan_indices(n)[3 * k] == 0
                &&& fan_indices(n)[3 * k + 1] == k + 1
                &&& fan_indices(n)[3 * k + 2] == (k + 1) % (n as int) + 1
            },
{
    if n <= u32::MAX {
        assert forall|k: int| 0 <= k < n implies {
            &&& #[trigger] fan_indices(n)[3 * k] == 0
            &&& fan_indices(n)[3 * k + 1] == k + 1
            &&& fan_indices(n)[3 * k + 2] == (k + 1) % (n as int) + 1
        } by {
            assert((3 * k) / 3 == k && (3 * k) % 3 == 0);
            assert((3 * k + 1) / 3 == k && (3 * k + 1) % 3 == 1);
            assert((3 * k + 2) / 3 == k && (3 * k + 2) % 3 == 2);
            assert((k + 1) as u32 == k + 1);
            assert(n as u32 == n);
            let index = (k + 1) as u32;
            assert(index % (n as u32) == (k + 1) % (n as int));
            assert((index % (n as u32)) < n);
        }
    }
}

/// The vertex list of a light polygon is the centre followed by the whole
/// outline in its order, then the centre again until there are three
/// vertices: its length is one more than the outline's, or three if that is
/// more.
pub proof fn lemma_fan_vertices_follow_outline<T>(origin: T, outline: Seq<T>)
    ensures
        fan_vertices(origin, outline).len() == if outline.len() + 1 < 3 { 3 } else { outline.len() + 1 },
        fan_vertices(origin, outline)[0] == origin,
        forall|i: int| 0 <= i < outline.len() ==> #[trigger] fan_vertices(origin, outline)[i + 1] == outline[i],
        forall|i: int| outline.len() < i < fan_vertices(origin, outline).len()
            ==> #[trigger] fan_vertices(origin, outline)[i] == origin,
{
    let v = fan_vertices(origin, outline);
    let base = seq![origin] + outline;
    assert(base[0] == origin);
    assert forall|i: int| 0 <= i < outline.len() implies #[trigger] v[i + 1] == outline[i] by {
        assert(base[i + 1] == outline[i]);
    }
}

} // verus!
