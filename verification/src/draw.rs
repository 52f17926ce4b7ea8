//! Shapes as draw requests.

use vstd::prelude::*;
use crate::colored::{CKey, CVertex};
use crate::vertex::Request;

verus! {

/// Adds shapes to a list of requests.
pub struct Drawer<'a> {
    pub requests: &'a mut Vec<Request<CVertex>>,
}

/// A request for two triangles that share the diagonal from the first corner
/// to the third.
pub open spec fn is_quad(
    request: Request<CVertex>,
    key: CKey,
    layer: i32,
    corners: [CVertex; 4],
) -> bool {
    &&& request.layer == layer
    &&& request.key == key
    &&& request.vertices@ == corners@
    &&& request.indices@ == seq![0u32, 1u32, 2u32, 2u32, 3u32, 0u32]
}

/// A request for one triangle.
pub open spec fn is_tri(request: Request<CVertex>, key: CKey, layer: i32, corners: [CVertex; 3]) -> bool {
    &&& request.layer == layer
    &&& request.key == key
    &&& request.vertices@ == corners@
    &&& request.indices@ == seq![0u32, 1u32, 2u32]
}

impl<'a> Drawer<'a> {
    /// A drawer that adds to `requests`.
    pub fn new(requests: &'a mut Vec<Request<CVertex>>) -> (drawer: Self)
        ensures
            *drawer.requests == *old(requests),
            *final(requests) == *final(drawer.requests),
    {
        Drawer { requests }
    }

    /// Requests the quadrilateral with the given corners, named in order
    /// around it. The drawer keeps adding to the same list.
    pub fn quad(&mut self, key: CKey, layer: i32, corners: [CVertex; 4])
        ensures
            *final(final(self).requests) == *final(old(self).requests),
            final(self).requests@.len() == old(self).requests@.len() + 1,
            final(self).requests@.drop_last() == old(self).requests@,
            is_quad(final(self).requests@.last(), key, layer, corners),
            final(self).requests@.last().well_formed(),
    {
        let mut vertices: Vec<CVertex> = Vec::new();
        vertices.push(corners[0]);
        vertices.push(corners[1]);
        vertices.push(corners[2]);
        vertices.push(corners[3]);
        let mut indices: Vec<u32> = Vec::new();
        indices.push(0);
        indices.push(1);
        indices.push(2);
        indices.push(2);
        indices.push(3);
        indices.push(0);
        assert(vertices@ =~= corners@);
        assert(indices@ =~= seq![0u32, 1u32, 2u32, 2u32, 3u32, 0u32]);
        self.requests.push(Request { layer, vertices, indices, key });
        assert(self.requests@.drop_last() =~= old(self).requests@);
    }

    /// Requests the triangle with the given corners.
    pub fn tri(&mut self, key: CKey, layer: i32, corners: [CVertex; 3])
        ensures
            *final(final(self).requests) == *final(old(self).requests),
            final(self).requests@.len() == old(self).requests@.len() + 1,
            final(self).requests@.drop_last() == old(self).requests@,
            is_tri(final(self).requests@.last(), key, layer, corners),
            final(self).requests@.last().well_formed(),
    {
        let mut vertices: Vec<CVertex> = Vec::new();
        vertices.push(corners[0]);
        vertices.push(corners[1]);
        vertices.push(corners[2]);
        let mut indices: Vec<u32> = Vec::new();
        indices.push(0);
        indices.push(1);
        indices.push(2);
        assert(vertices@ =~= corners@);
        assert(indices@ =~= seq![0u32, 1u32, 2u32]);
        self.requests.push(Request { layer, vertices, indices, key });
        assert(self.requests@.drop_last() =~= old(self).requests@);
    }
}

} // verus!
