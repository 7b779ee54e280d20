//! Indexed triangle meshes as read from OBJ files.
use vstd::prelude::*;

verus! {

/// A loaded model: its vertices and the vertex indices of its triangles.
pub struct Obj<V> {
    pub vertices: Vec<V>,
    pub indices: Vec<u32>,
}

/// Concatenation of the vertex lists of `meshes`, in order.
pub open spec fn all_vertices<V>(meshes: Seq<(Vec<V>, Vec<u32>)>) -> Seq<V>
    decreases meshes.len(),
{
    if meshes.len() == 0 {
        Seq::empty()
    } else {
        all_vertices(meshes.drop_last()) + meshes.last().0@
    }
}

/// Concatenation of the index lists of `meshes`, in order, each index
/// shifted by the number of vertices of the meshes before its own, so that it
/// names the same vertex in the joined vertex list.
pub open spec fn all_indices<V>(meshes: Seq<(Vec<V>, Vec<u32>)>) -> Seq<int>
    decreases meshes.len(),
{
    if meshes.len() == 0 {
        Seq::empty()
    } else {
        let offset = all_vertices(meshes.drop_last()).len();
        all_indices(meshes.drop_last()) + meshes.last().1@.map_values(|i: u32| i + offset)
    }
}

/// Every shifted index fits a `u32`.
pub open spec fn indices_fit(indices: Seq<int>) -> bool {
    forall|k: int| 0 <= k < indices.len() ==> #[trigger] indices[k] <= u32::MAX
}

/// The joined index list of the meshes taken so far is a prefix of the
/// joined index list of all of them.
pub proof fn lemma_all_indices_prefix<V>(meshes: Seq<(Vec<V>, Vec<u32>)>, m: int)
    requires
        0 <= m <= meshes.len(),
    ensures
        all_indices(meshes.take(m)).len() <= all_indices(meshes).len(),
        forall|k: int|
            0 <= k < all_indices(meshes.take(m)).len() ==> #[trigger] all_indices(meshes)[k] == all_indices(
                meshes.take(m),
            )[k],
    decreases meshes.len(),
{
    if m == meshes.len() {
        assert(meshes.take(m) =~= meshes);
    } else {
        let shorter = meshes.drop_last();
        lemma_all_indices_prefix(shorter, m);
        assert(shorter.take(m) =~= meshes.take(m));
    }
}

/// The joined vertex list of the meshes taken so far is a prefix of the
/// joined vertex list of all of them.
pub proof fn lemma_all_vertices_prefix<V>(meshes: Seq<(Vec<V>, Vec<u32>)>, m: int)
    requires
        0 <= m <= meshes.len(),
    ensures
        all_vertices(meshes.take(m)).len() <= all_vertices(meshes).len(),
        forall|k: int|
            0 <= k < all_vertices(meshes.take(m)).len() ==> #[trigger] all_vertices(meshes)[k] == all_vertices(
                meshes.take(m),
            )[k],
    decreases meshes.len(),
{
    if m == meshes.len() {
        assert(meshes.take(m) =~= meshes);
    } else {
        let shorter = meshes.drop_last();
        lemma_all_vertices_prefix(shorter, m);
        assert(shorter.take(m) =~= meshes.take(m));
    }
}

/// Joining keeps every triangle corner on its own mesh's vertex: if index `k`
/// of mesh `m` names a vertex of mesh `m`, then its shifted copy in the joined
/// index list names that same vertex in the joined vertex list.
pub proof fn lemma_joined_index_names_own_vertex<V>(meshes: Seq<(Vec<V>, Vec<u32>)>, m: int, k: int)
    requires
        0 <= m < meshes.len(),
        0 <= k < meshes[m].1@.len(),
        meshes[m].1@[k] < meshes[m].0@.len(),
    ensures
        ({
            let pos = all_indices(meshes.take(m)).len() + k;
            &&& 0 <= pos < all_indices(meshes).len()
            &&& 0 <= all_indices(meshes)[pos] < all_vertices(meshes).len()
            &&& all_vertices(meshes)[all_indices(meshes)[pos]] == meshes[m].0@[meshes[m].1@[k] as int]
        }),
{
    let t = meshes.take(m + 1);
    assert(t.drop_last() =~= meshes.take(m));
    assert(t.last() == meshes[m]);
    let pos = all_indices(meshes.take(m)).len() + k;
    let off = all_vertices(meshes.take(m)).len();
    let idx = meshes[m].1@[k];
    assert(all_indices(t)[pos] == idx + off);
    assert(all_vertices(t)[idx + off] == meshes[m].0@[idx as int]);
    lemma_all_indices_prefix(meshes, m + 1);
    lemma_all_vertices_prefix(meshes, m + 1);
}

/// The vertex array that `indices` spell out over `vertices`.
pub open spec fn expand_indices<V>(vertices: Seq<V>, indices: Seq<u32>) -> Seq<V> {
    Seq::new(indices.len(), |k: int| vertices[indices[k] as int])
}

impl<V: Copy> Obj<V> {
    /// Every index names a vertex.
    pub open spec fn indices_valid(&self) -> bool {
        forall|k: int| 0 <= k < self.indices@.len() ==> (#[trigger] self.indices@[k]) < self.vertices@.len()
    }

    /// Joins the meshes of a file into one model: vertices are concatenated
    /// in file order, and each mesh's indices are shifted by the number of
    /// vertices before that mesh, so every triangle keeps its own vertices.
    /// `None` if a shifted index does not fit a `u32`.
    pub fn from_meshes(meshes: Vec<(Vec<V>, Vec<u32>)>) -> (r: Option<Obj<V>>)
        ensures
            r is Some <==> indices_fit(all_indices(meshes@)),
            r matches Some(obj) ==> {
                &&& obj.vertices@ == all_vertices(meshes@)
                &&& obj.indices@.map_values(|i: u32| i as int) == all_indices(meshes@)
            },
    {
        let mut vertices: Vec<V> = Vec::new();
        let mut indices: Vec<u32> = Vec::new();
        let n = meshes.len();
        let mut m: usize = 0;
        while m < n
            invariant
                m <= n,
                n == meshes@.len(),
                vertices@ == all_vertices(meshes@.take(m as int)),
                indices@.map_values(|i: u32| i as int) == all_indices(meshes@.take(m as int)),
            decreases n - m,
        {
            let mesh_vertices = &meshes[m].0;
            let mesh_indices = &meshes[m].1;
            let ghost before_v = vertices@;
            let ghost before_i = indices@;
            proof {
                let t = meshes@.take(m + 1);
                assert(t.drop_last() =~= meshes@.take(m as int));
                assert(t.last() == meshes@[m as int]);
            }
            let offset = vertices.len();
            let mut j: usize = 0;
            while j < mesh_vertices.len()
                invariant
                    j <= mesh_vertices@.len(),
                    vertices@ == before_v + mesh_vertices@.take(j as int),
                decreases mesh_vertices@.len() - j,
            {
                vertices.push(mesh_vertices[j]);
                j = j + 1;
                proof {
                    assert(mesh_vertices@.take(j as int) =~= mesh_vertices@.take(j - 1).push(
                        mesh_vertices@[j - 1],
                    ));
                }
            }
            let ghost shifted = mesh_indices@.map_values(|i: u32| i + offset);
            let mut j: usize = 0;
            while j < mesh_indices.len()
                invariant
                    j <= mesh_indices@.len(),
                    m < n,
                    n == meshes@.len(),
                    mesh_indices@ == meshes@[m as int].1@,
                    meshes@.take(m + 1).drop_last() == meshes@.take(m as int),
                    meshes@.take(m + 1).last() == meshes@[m as int],
                    before_v == all_vertices(meshes@.take(m as int)),
                    before_i.map_values(|i: u32| i as int) == all_indices(meshes@.take(m as int)),
                    offset == before_v.len(),
                    shifted == mesh_indices@.map_values(|i: u32| i + offset),
                    indices@.map_values(|i: u32| i as int) == before_i.map_values(|i: u32| i as int)
                        + shifted.take(j as int),
                decreases mesh_indices@.len() - j,
            {
                let idx = mesh_indices[j];
                if offset > (0xFFFF_FFFFu32 - idx) as usize {
                    proof {
                        let whole = all_indices(meshes@);
                        let upto = all_indices(meshes@.take(m + 1));
                        lemma_all_indices_prefix(meshes@, m + 1);
                        let pos = before_i.len() + j;
                        assert(upto[pos] == shifted[j as int]);
                        assert(whole[pos] == upto[pos]);
                        assert(!indices_fit(whole));
                    }
                    return None;
                }
                let ghost prev = indices@;
                indices.push(idx + offset as u32);
                proof {
                    assert(shifted[j as int] == idx + offset);
                    assert(shifted.take(j + 1) =~= shifted.take(j as int).push(shifted[j as int]));
                    assert(indices@.map_values(|i: u32| i as int) =~= prev.map_values(|i: u32| i as int).push(
                        (idx + offset) as int,
                    ));
                    assert(indices@.map_values(|i: u32| i as int) =~= before_i.map_values(|i: u32| i as int)
                        + shifted.take(j + 1));
                }
                j = j + 1;
            }
            proof {
                assert(mesh_vertices@.take(mesh_vertices@.len() as int) =~= mesh_vertices@);
                assert(shifted.take(mesh_indices@.len() as int) =~= shifted);
                assert(indices@.map_values(|i: u32| i as int) =~= all_indices(meshes@.take(m + 1)));
            }
            m = m + 1;
        }
        proof {
            assert(meshes@.take(n as int) =~= meshes@);
            assert forall|k: int| 0 <= k < all_indices(meshes@).len() implies #[trigger] all_indices(
                meshes@,
            )[k] <= u32::MAX by {
                assert(indices@.map_values(|i: u32| i as int)[k] == indices@[k] as int);
            }
        }
        Some(Obj { vertices, indices })
    }

    /// Whether every index names a vertex, so that `get_vertex_array` applies.
    pub fn indices_in_range(&self) -> (r: bool)
        ensures
            r == self.indices_valid(),
    {
        let n = self.indices.len();
        let mut k: usize = 0;
        while k < n
            invariant
                k <= n,
                n == self.indices@.len(),
                forall|i: int| 0 <= i < k ==> (#[trigger] self.indices@[i]) < self.vertices@.len(),
            decreases n - k,
        {
            if self.indices[k] as usize >= self.vertices.len() {
                return false;
            }
            k = k + 1;
        }
        true
    }

    /// The vertex array for rendering: one vertex per index, in index order,
    /// so consecutive triples form the triangles.
    pub fn get_vertex_array(&self) -> (out: Vec<V>)
        requires
            self.indices_valid(),
        ensures
            out@ == expand_indices(self.vertices@, self.indices@),
    {
        let n = self.indices.len();
        let mut out: Vec<V> = Vec::with_capacity(n);
        let mut k: usize = 0;
        while k < n
            invariant
                k <= n,
                n == self.indices@.len(),
                self.indices_valid(),
                out@ == expand_indices(self.vertices@, self.indices@.take(k as int)),
            decreases n - k,
        {
            let index = self.indices[k];
            let vertex = self.vertices[index as usize];
            out.push(vertex);
            k = k + 1;
            proof {
                assert(expand_indices(self.vertices@, self.indices@.take(k as int)) =~= expand_indices(
                    self.vertices@,
                    self.indices@.take(k - 1),
                ).push(vertex));
            }
        }
        proof {
            assert(self.indices@.take(n as int) =~= self.indices@);
        }
        out
    }
}

} // verus!
