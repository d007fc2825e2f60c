//! Assembling triangle primitives from triangulated mesh data.
//!
//! A mesh arrives as vertex positions, per-vertex normals and a flat
//! index list, three indices to a face. A malformed mesh — an index
//! count not divisible by three, an index out of range, or a vertex
//! outside the triangle coordinate range — is discarded whole rather
//! than failing the load: the caller simply gets nothing for it.

use vstd::prelude::*;
use crate::material::Material;
use crate::triangle::Triangle;
use crate::fixed::TRI_COORD_MAX;
use crate::vec3::Vec3;

verus! {

/// A mesh the assembler accepts: whole faces, indices inside both the
/// position and the normal tables, and every vertex inside the triangle
/// coordinate range.
pub open spec fn mesh_ok(positions: Seq<Vec3>, normals: Seq<Vec3>, indices: Seq<u32>) -> bool {
    &&& indices.len() % 3 == 0
    &&& forall|k: int|
        0 <= k < indices.len() ==> (#[trigger] indices[k]) < positions.len() && indices[k]
            < normals.len()
    &&& forall|i: int|
        0 <= i < positions.len() ==> (#[trigger] positions[i]).bounded(
            crate::fixed::TRI_COORD_MAX as int,
        )
}

/// The face built from the three indices starting at `3 * k`.
pub open spec fn mesh_face(
    positions: Seq<Vec3>,
    normals: Seq<Vec3>,
    indices: Seq<u32>,
    material: Material,
    k: int,
) -> Triangle {
    Triangle {
        vertices: [
            positions[indices[3 * k] as int],
            positions[indices[3 * k + 1] as int],
            positions[indices[3 * k + 2] as int],
        ],
        normal: normals[indices[3 * k] as int],
        material,
    }
}

/// Build the triangles of one mesh, or nothing if the mesh is
/// malformed.
pub fn mesh_triangles(
    positions: &Vec<Vec3>,
    normals: &Vec<Vec3>,
    indices: &Vec<u32>,
    material: Material,
) -> (r: Option<Vec<Triangle>>)
    requires
        material.wf(),
    ensures
        r.is_some() == mesh_ok(positions@, normals@, indices@),
        r.is_some() ==> {
            let ts = r.unwrap();
            &&& ts@.len() == indices@.len() / 3
            &&& forall|k: int|
                0 <= k < ts@.len() ==> (#[trigger] ts@[k]) == mesh_face(
                    positions@,
                    normals@,
                    indices@,
                    material,
                    k,
                ) && ts@[k].wf()
        },
{
    if indices.len() % 3 != 0 {
        return None;
    }
    let mut i: usize = 0;
    while i < positions.len()
        invariant
            i <= positions@.len(),
            forall|j: int|
                0 <= j < i ==> (#[trigger] positions@[j]).bounded(TRI_COORD_MAX as int),
        decreases positions@.len() - i,
    {
        if !positions[i].check_bounded(TRI_COORD_MAX) {
            return None;
        }
        i = i + 1;
    }
    let mut k: usize = 0;
    while k < indices.len()
        invariant
            k <= indices@.len(),
            forall|j: int|
                0 <= j < k ==> (#[trigger] indices@[j]) < positions@.len() && indices@[j]
                    < normals@.len(),
        decreases indices@.len() - k,
    {
        let idx: u32 = indices[k];
        if idx as usize >= positions.len() || idx as usize >= normals.len() {
            return None;
        }
        k = k + 1;
    }
    let faces: usize = indices.len() / 3;
    let mut out: Vec<Triangle> = Vec::new();
    let mut f: usize = 0;
    while f < faces
        invariant
            faces == indices@.len() / 3,
            indices@.len() <= usize::MAX,
            mesh_ok(positions@, normals@, indices@),
            material.wf(),
            f <= faces,
            out@.len() == f,
            forall|k2: int|
                0 <= k2 < f ==> (#[trigger] out@[k2]) == mesh_face(
                    positions@,
                    normals@,
                    indices@,
                    material,
                    k2,
                ) && out@[k2].wf(),
        decreases faces - f,
    {
        proof {
            vstd::arithmetic::div_mod::lemma_fundamental_div_mod(indices@.len() as int, 3);
            assert(indices@.len() as int % 3 == 0);
            assert(indices@.len() as int == 3 * (indices@.len() as int / 3));
            assert(3 * f + 2 < indices@.len());
        }
        let i0: usize = indices[3 * f] as usize;
        let i1: usize = indices[3 * f + 1] as usize;
        let i2: usize = indices[3 * f + 2] as usize;
        let t: Triangle = Triangle {
            vertices: [positions[i0], positions[i1], positions[i2]],
            normal: normals[i0],
            material,
        };
        out.push(t);
        f = f + 1;
    }
    Some(out)
}

} // verus!
