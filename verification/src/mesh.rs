//! Geometry: vertices and the indices that join them into triangles.

use vstd::prelude::*;

verus! {

/// One vertex: a position, a normal and a texture coordinate, each component
/// an IEEE-754 single-precision bit pattern.
#[derive(Clone, Copy, Debug, PartialEq, Eq, Default)]
pub struct Vertex {
    pub coord: [u32; 3],
    pub normal: [u32; 3],
    pub tex_coord: [u32; 2],
}

/// A triangle mesh. Every three indices name the corners of one triangle.
#[derive(Debug, Clone)]
pub struct Mesh {
    pub vertices: Vec<Vertex>,
    pub indices: Vec<u32>,
}

/// Vertex `p` of flat attribute arrays: three numbers of `positions`, two of
/// `texcoords` and three of `normals`, each taken from where the `p`-th group
/// of that array starts.
pub open spec fn vertex_at(
    positions: Seq<u32>,
    texcoords: Seq<u32>,
    normals: Seq<u32>,
    p: int,
) -> Vertex {
    Vertex {
        coord: [positions[3 * p], positions[3 * p + 1], positions[3 * p + 2]],
        normal: [normals[3 * p], normals[3 * p + 1], normals[3 * p + 2]],
        tex_coord: [texcoords[2 * p], texcoords[2 * p + 1]],
    }
}

/// The number of whole vertices in `positions`.
pub open spec fn vertex_count(positions: Seq<u32>) -> nat {
    positions.len() / 3
}

/// Every vertex of `positions` has its texture coordinate and its normal.
pub open spec fn attributes_complete(
    positions: Seq<u32>,
    texcoords: Seq<u32>,
    normals: Seq<u32>,
) -> bool {
    &&& 2 * vertex_count(positions) <= texcoords.len()
    &&& 3 * vertex_count(positions) <= normals.len()
}

impl Mesh {
    /// Gathers flat attribute arrays into vertices. `positions` and `normals`
    /// hold three numbers per vertex and `texcoords` two; numbers of
    /// `positions` beyond the last whole vertex are dropped. The indices are
    /// taken as they are.
    ///
    /// `None` if and only if some vertex lacks its texture coordinate or its
    /// normal.
    pub fn from_arrays(
        positions: &[u32],
        texcoords: &[u32],
        normals: &[u32],
        indices: Vec<u32>,
    ) -> (mesh: Option<Mesh>)
        ensures
            mesh is Some <==> attributes_complete(positions@, texcoords@, normals@),
            mesh matches Some(m) ==> {
                &&& m.indices == indices
                &&& m.vertices@.len() == vertex_count(positions@)
                &&& forall|p: int|
                    0 <= p < vertex_count(positions@) ==> #[trigger] m.vertices@[p] == vertex_at(
                        positions@,
                        texcoords@,
                        normals@,
                        p,
                    )
            },
    {
        let count = positions.len() / 3;
        if texcoords.len() / 2 < count || normals.len() / 3 < count {
            return None;
        }
        let mut vertices: Vec<Vertex> = Vec::new();
        let mut p: usize = 0;
        while p < count
            invariant
                p <= count,
                count == vertex_count(positions@),
                3 * count <= positions@.len() <= usize::MAX,
                texcoords@.len() <= usize::MAX,
                normals@.len() <= usize::MAX,
                2 * count <= texcoords@.len(),
                3 * count <= normals@.len(),
                vertices@.len() == p,
                forall|q: int|
                    0 <= q < p ==> #[trigger] vertices@[q] == vertex_at(
                        positions@,
                        texcoords@,
                        normals@,
                        q,
                    ),
            decreases count - p,
        {
            let vertex = Vertex {
                coord: [positions[3 * p], positions[3 * p + 1], positions[3 * p + 2]],
                normal: [normals[3 * p], normals[3 * p + 1], normals[3 * p + 2]],
                tex_coord: [texcoords[2 * p], texcoords[2 * p + 1]],
            };
            vertices.push(vertex);
            p += 1;
        }
        Some(Mesh { vertices, indices })
    }
}

} // verus!
