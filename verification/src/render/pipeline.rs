//! What one draw call covers.

use vstd::prelude::*;

verus! {

/// The vertices that the shader pulls for one cube: three visible faces of
/// two triangles each.
pub const VERTICES_PER_CUBE: u32 = 18;

/// The number of vertices of the one draw call that covers `instances`
/// records, or `None` where that number leaves `u32`.
pub fn vertex_count(instances: usize) -> (count: Option<u32>)
    ensures
        instances * VERTICES_PER_CUBE <= u32::MAX ==> count == Some(
            (instances * VERTICES_PER_CUBE) as u32,
        ),
        instances * VERTICES_PER_CUBE > u32::MAX ==> count.is_none(),
{
    if instances <= (u32::MAX / VERTICES_PER_CUBE) as usize {
        Some(instances as u32 * VERTICES_PER_CUBE)
    } else {
        None
    }
}

} // verus!
