//! A triangle mesh: deduplicated vertices, a flat triangle index list, and
//! the mesh's diffuse texture.
//!
//! Vertices hold their position and UV components as IEEE-754 bit patterns,
//! so vertex equality is bit-exact: two vertices are the same only if they
//! came from numerically identical source data. Deduplication merges exactly
//! such vertices and keeps first occurrences in order.

use vstd::prelude::*;

use crate::math::TVec2;
use crate::math::TVec3;
use crate::texture::Texture;

verus! {

/// One vertex: a position and a texture coordinate, each component held as
/// the bit pattern of the source float. Equality is bit-exact.
#[derive(Clone, Copy, Debug, PartialEq, Eq, Structural, Hash)]
pub struct Vertex {
    pub position: TVec3<u32>,
    pub uv: TVec2<u32>,
}

/// Why mesh data could not become a model: an index refers past the end of
/// one of the source arrays.
#[derive(Clone, Copy, Debug, PartialEq, Eq, Structural)]
pub enum MeshError {
    /// Some referenced vertex has no complete position triple.
    MissingPosition,
    /// Some referenced vertex has no complete UV pair.
    MissingUv,
}

/// The vertex that source index `idx` names: its three position components
/// and its two UV components.
pub open spec fn mesh_vertex(positions: Seq<u32>, texcoords: Seq<u32>, idx: int) -> Vertex {
    Vertex {
        position: TVec3 {
            x: positions[3 * idx],
            y: positions[3 * idx + 1],
            z: positions[3 * idx + 2],
        },
        uv: TVec2 { x: texcoords[2 * idx], y: texcoords[2 * idx + 1] },
    }
}

/// The candidate vertex of every slot of the index stream, in order.
pub open spec fn mesh_candidates(
    positions: Seq<u32>,
    texcoords: Seq<u32>,
    indices: Seq<u32>,
) -> Seq<Vertex> {
    Seq::new(indices.len(), |k: int| mesh_vertex(positions, texcoords, indices[k] as int))
}

/// Whether slot `k` of the index stream has a complete position triple.
pub open spec fn slot_has_position(positions: Seq<u32>, indices: Seq<u32>, k: int) -> bool {
    3 * (indices[k] as int) + 3 <= positions.len()
}

/// Whether slot `k` of the index stream has a complete UV pair.
pub open spec fn slot_has_uv(texcoords: Seq<u32>, indices: Seq<u32>, k: int) -> bool {
    2 * (indices[k] as int) + 2 <= texcoords.len()
}

/// Whether every slot of the index stream has complete data.
pub open spec fn mesh_ok(positions: Seq<u32>, texcoords: Seq<u32>, indices: Seq<u32>) -> bool {
    forall|k: int|
        0 <= k < indices.len() ==> slot_has_position(positions, indices, k) && slot_has_uv(
            texcoords,
            indices,
            k,
        )
}

/// Whether every slot before `k` has complete data.
pub open spec fn slots_ok_before(
    positions: Seq<u32>,
    texcoords: Seq<u32>,
    indices: Seq<u32>,
    k: int,
) -> bool {
    forall|j: int|
        0 <= j < k ==> slot_has_position(positions, indices, j) && slot_has_uv(
            texcoords,
            indices,
            j,
        )
}

/// Whether `k` is the first incomplete slot and it lacks position data —
/// the condition on which loading reports a missing position.
pub open spec fn first_bad_is_position(
    positions: Seq<u32>,
    texcoords: Seq<u32>,
    indices: Seq<u32>,
    k: int,
) -> bool {
    &&& 0 <= k < indices.len()
    &&& slots_ok_before(positions, texcoords, indices, k)
    &&& !slot_has_position(positions, indices, k)
}

/// Whether `k` is the first incomplete slot and it lacks only UV data —
/// the condition on which loading reports a missing UV.
pub open spec fn first_bad_is_uv(
    positions: Seq<u32>,
    texcoords: Seq<u32>,
    indices: Seq<u32>,
    k: int,
) -> bool {
    &&& 0 <= k < indices.len()
    &&& slots_ok_before(positions, texcoords, indices, k)
    &&& slot_has_position(positions, indices, k)
    &&& !slot_has_uv(texcoords, indices, k)
}

/// A first incomplete slot that lacks its position rules out one that has
/// its position and lacks only its UV: the first incomplete slot is unique.
proof fn lemma_first_bad_position_excludes_uv(
    positions: Seq<u32>,
    texcoords: Seq<u32>,
    indices: Seq<u32>,
    k1: int,
)
    requires
        first_bad_is_position(positions, texcoords, indices, k1),
    ensures
        forall|k2: int| !first_bad_is_uv(positions, texcoords, indices, k2),
{
    assert forall|k2: int| !first_bad_is_uv(positions, texcoords, indices, k2) by {
        if first_bad_is_uv(positions, texcoords, indices, k2) {
            if k1 < k2 {
                assert(slot_has_position(positions, indices, k1));
            } else if k2 < k1 {
                assert(slot_has_uv(texcoords, indices, k2));
            }
        }
    }
}

/// The mirror image: a first incomplete slot that lacks only its UV rules
/// out one that lacks its position.
proof fn lemma_first_bad_uv_excludes_position(
    positions: Seq<u32>,
    texcoords: Seq<u32>,
    indices: Seq<u32>,
    k1: int,
)
    requires
        first_bad_is_uv(positions, texcoords, indices, k1),
    ensures
        forall|k2: int| !first_bad_is_position(positions, texcoords, indices, k2),
{
    assert forall|k2: int| !first_bad_is_position(positions, texcoords, indices, k2) by {
        if first_bad_is_position(positions, texcoords, indices, k2) {
            if k1 < k2 {
                assert(slot_has_uv(texcoords, indices, k1));
            } else if k2 < k1 {
                assert(slot_has_position(positions, indices, k2));
            }
        }
    }
}

/// The candidate sequence with every repeated vertex removed, keeping each
/// first occurrence in order.
pub open spec fn dedup_verts(cands: Seq<Vertex>) -> Seq<Vertex>
    decreases cands.len(),
{
    if cands.len() == 0 {
        Seq::empty()
    } else {
        let pre = dedup_verts(cands.drop_last());
        if pre.contains(cands.last()) {
            pre
        } else {
            pre.push(cands.last())
        }
    }
}

/// Deduplication never grows a sequence, keeps exactly the vertices that
/// occur in it, and leaves no duplicate behind.
pub proof fn lemma_dedup_verts(cands: Seq<Vertex>)
    ensures
        dedup_verts(cands).len() <= cands.len(),
        forall|v: Vertex| dedup_verts(cands).contains(v) == cands.contains(v),
        forall|i: int, j: int|
            0 <= i < j < dedup_verts(cands).len() ==> dedup_verts(cands)[i] != dedup_verts(
                cands,
            )[j],
    decreases cands.len(),
{
    if cands.len() == 0 {
        assert forall|v: Vertex| dedup_verts(cands).contains(v) == cands.contains(v) by {
            if cands.contains(v) {
            }
        }
    } else {
        let pre = dedup_verts(cands.drop_last());
        let last = cands.last();
        lemma_dedup_verts(cands.drop_last());
        assert forall|v: Vertex| dedup_verts(cands).contains(v) == cands.contains(v) by {
            if dedup_verts(cands).contains(v) {
                if pre.contains(v) {
                    assert(cands.drop_last().contains(v));
                    let i = choose|i: int|
                        0 <= i < cands.drop_last().len() && cands.drop_last()[i] == v;
                    assert(0 <= i < cands.drop_last().len() && cands.drop_last()[i] == v);
                    assert(cands.drop_last()[i] == cands[i]);
                    assert(cands[i] == v);
                    assert(cands.contains(v));
                } else {
                    assert(v == last);
                    assert(cands[cands.len() - 1] == v);
                    assert(cands.contains(v));
                }
            }
            if cands.contains(v) {
                let i = choose|i: int| 0 <= i < cands.len() && cands[i] == v;
                if i < cands.len() - 1 {
                    assert(cands.drop_last()[i] == v);
                    assert(cands.drop_last().contains(v));
                    assert(pre.contains(v));
                    if !pre.contains(last) {
                        assert(dedup_verts(cands) == pre.push(last));
                        let j = choose|j: int| 0 <= j < pre.len() && pre[j] == v;
                        assert(dedup_verts(cands)[j] == v);
                    }
                    assert(dedup_verts(cands).contains(v));
                } else {
                    assert(v == last);
                    if pre.contains(last) {
                        assert(dedup_verts(cands).contains(v));
                    } else {
                        assert(dedup_verts(cands)[pre.len() as int] == v);
                        assert(dedup_verts(cands).contains(v));
                    }
                }
            }
        }
        assert forall|i: int, j: int|
            0 <= i < j < dedup_verts(cands).len() implies dedup_verts(cands)[i] != dedup_verts(
            cands,
        )[j] by {
            if !pre.contains(last) {
                if j == pre.len() {
                    assert(dedup_verts(cands)[i] == pre[i]);
                    assert(pre.contains(pre[i]));
                }
            }
        }
    }
}

/// A model: the deduplicated vertex buffer, the flat triangle index list
/// (three indices per triangle), and the diffuse texture.
pub struct Model {
    pub vertices: Vec<Vertex>,
    pub indices: Vec<u32>,
    pub diffuse: Texture,
}

impl Model {
    /// A model from parsed mesh data: flat position components (three per
    /// vertex), flat UV components (two per vertex, already in the
    /// renderer's top-left convention), and the flat index stream. Every
    /// slot's vertex is built bit-for-bit and deduplicated by exact
    /// equality; the output index stream has one compact index per input
    /// slot. Fails exactly when some slot lacks position or UV data.
    pub fn from_mesh(
        positions: &Vec<u32>,
        texcoords: &Vec<u32>,
        indices: &Vec<u32>,
        diffuse: Texture,
    ) -> (r: Result<Model, MeshError>)
        requires
            indices@.len() <= u32::MAX,
        ensures
            (r is Ok) == mesh_ok(positions@, texcoords@, indices@),
            (r == Result::<Model, MeshError>::Err(MeshError::MissingPosition)) == exists|k: int|
                first_bad_is_position(positions@, texcoords@, indices@, k),
            (r == Result::<Model, MeshError>::Err(MeshError::MissingUv)) == exists|k: int|
                first_bad_is_uv(positions@, texcoords@, indices@, k),
            r is Ok ==> {
                let m = r->Ok_0;
                let cands = mesh_candidates(positions@, texcoords@, indices@);
                &&& m.vertices@ == dedup_verts(cands)
                &&& m.indices@.len() == indices@.len()
                &&& forall|k: int|
                    0 <= k < m.indices@.len() ==> (m.indices@[k] as int) < m.vertices@.len()
                &&& forall|k: int|
                    0 <= k < m.indices@.len() ==> m.vertices@[m.indices@[k] as int] == cands[k]
                &&& m.diffuse == diffuse
            },
    {
        let ghost cands = mesh_candidates(positions@, texcoords@, indices@);
        let mut vertices: Vec<Vertex> = Vec::new();
        let mut out_indices: Vec<u32> = Vec::new();
        let n = indices.len();
        let mut k: usize = 0;
        while k < n
            invariant
                k <= n,
                n == indices@.len(),
                n <= u32::MAX,
                cands == mesh_candidates(positions@, texcoords@, indices@),
                vertices@ == dedup_verts(cands.take(k as int)),
                vertices@.len() <= k,
                out_indices@.len() == k,
                forall|j: int|
                    0 <= j < k ==> slot_has_position(positions@, indices@, j) && slot_has_uv(
                        texcoords@,
                        indices@,
                        j,
                    ),
                forall|j: int| 0 <= j < k ==> (out_indices@[j] as int) < vertices@.len(),
                forall|j: int| 0 <= j < k ==> vertices@[out_indices@[j] as int] == cands[j],
            decreases n - k,
        {
            proof {
                lemma_dedup_verts(cands.take(k as int));
            }
            let idx = indices[k] as u64;
            let pos_off = 3 * idx;
            if !(pos_off + 3 <= positions.len() as u64) {
                proof {
                    assert(first_bad_is_position(positions@, texcoords@, indices@, k as int));
                    lemma_first_bad_position_excludes_uv(
                        positions@,
                        texcoords@,
                        indices@,
                        k as int,
                    );
                }
                return Err(MeshError::MissingPosition);
            }
            let tex_off = 2 * idx;
            if !(tex_off + 2 <= texcoords.len() as u64) {
                proof {
                    assert(first_bad_is_uv(positions@, texcoords@, indices@, k as int));
                    lemma_first_bad_uv_excludes_position(
                        positions@,
                        texcoords@,
                        indices@,
                        k as int,
                    );
                }
                return Err(MeshError::MissingUv);
            }
            let vertex = Vertex {
                position: TVec3 {
                    x: positions[pos_off as usize],
                    y: positions[pos_off as usize + 1],
                    z: positions[pos_off as usize + 2],
                },
                uv: TVec2 { x: texcoords[tex_off as usize], y: texcoords[tex_off as usize + 1] },
            };
            proof {
                assert(vertex == cands[k as int]);
                assert(cands.take(k as int + 1).drop_last() =~= cands.take(k as int));
                assert(cands.take(k as int + 1).last() == cands[k as int]);
            }
            let mut found: bool = false;
            let mut where_at: usize = 0;
            let mut j: usize = 0;
            let vn = vertices.len();
            while j < vn
                invariant
                    j <= vn,
                    vn == vertices@.len(),
                    !found ==> forall|t: int| 0 <= t < j ==> vertices@[t] != vertex,
                    found ==> where_at < vn && vertices@[where_at as int] == vertex,
                decreases vn - j,
            {
                if !found && vertices[j] == vertex {
                    found = true;
                    where_at = j;
                }
                j = j + 1;
            }
            if found {
                out_indices.push(where_at as u32);
                proof {
                    assert(vertices@.contains(vertex));
                    assert(dedup_verts(cands.take(k as int + 1)) == vertices@);
                }
            } else {
                proof {
                    assert(!vertices@.contains(vertex)) by {
                        if vertices@.contains(vertex) {
                            let t = choose|t: int|
                                0 <= t < vertices@.len() && vertices@[t] == vertex;
                        }
                    }
                    assert(dedup_verts(cands.take(k as int + 1)) == vertices@.push(vertex));
                }
                out_indices.push(vertices.len() as u32);
                vertices.push(vertex);
            }
            k = k + 1;
        }
        proof {
            assert(cands.take(n as int) =~= cands);
            assert forall|j: int| !first_bad_is_position(positions@, texcoords@, indices@, j)
                && !first_bad_is_uv(positions@, texcoords@, indices@, j) by {}
        }
        Ok(Model { vertices, indices: out_indices, diffuse })
    }
}

} // verus!
