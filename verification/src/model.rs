use vstd::prelude::*;
use crate::builder::{build_mesh, cell_ok, cell_error, mesh_tris, BuildError, Cell, Layout};
use crate::codec::{header_bytes, le32_bytes, serialize_mesh, tris_bytes};

verus! {

/// The serialized form of the whole model for a grid: header, triangle
/// count, then the records of `mesh_tris`.
pub open spec fn model_bytes_spec(cells: Seq<Cell>, layout: Layout) -> Seq<u8> {
    header_bytes() + le32_bytes((12 * cells.len() + 24) as u32) + tris_bytes(
        mesh_tris(cells, layout),
    )
}

/// Builds the model for a scored grid and serializes it in one step: the
/// bytes of `12 * cells + 24` triangles, exactly `84 + 50 * count` of them,
/// or the first placement error.  No bytes are produced for a rejected
/// grid.
pub fn model_bytes(cells: &Vec<Cell>, layout: &Layout) -> (r: Result<Vec<u8>, BuildError>)
    requires
        layout.wf(),
        cells@.len() <= 357_913_939,
    ensures
        (r matches Ok(bytes) ==> {
            &&& forall|i: int| 0 <= i < cells@.len() ==> cell_ok(#[trigger] cells@[i])
            &&& bytes@ == model_bytes_spec(cells@, *layout)
            &&& bytes@.len() == 84 + 50 * (12 * cells@.len() + 24)
        }),
        (r matches Err(e) ==> exists|i: int|
            {
                &&& 0 <= i < cells@.len()
                &&& !cell_ok(#[trigger] cells@[i])
                &&& forall|j: int| 0 <= j < i ==> cell_ok(#[trigger] cells@[j])
                &&& e == cell_error(cells@[i])
            }),
        (r is Err <==> exists|i: int| 0 <= i < cells@.len() && !cell_ok(#[trigger] cells@[i])),
{
    match build_mesh(cells, layout) {
        Err(e) => Err(e),
        Ok(mesh) => {
            proof {
                assert(mesh.triangles@.len() < 0x1_0000_0000);
            }
            let bytes = serialize_mesh(&mesh);
            Ok(bytes)
        },
    }
}

} // verus!
