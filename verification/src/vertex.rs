//! The vertex contract and the draw request built on it.

use core::marker::PhantomData;
use vstd::prelude::*;
use crate::descriptor::{PipelineDescriptor, VertexAttribute};

verus! {

/// Pipeline state that is not part of the vertex data. Requests with equal
/// keys can share one pipeline, and are drawn together where they follow one
/// another.
pub trait VertexKey: Copy {
    /// Whether two keys are the same value.
    fn same(&self, other: &Self) -> (equal: bool)
        ensures
            equal == (*self == *other),
    ;

    /// Applies the state of this key to the descriptor of a pipeline that
    /// draws to a fragment target.
    fn specialize(&self, descriptor: PipelineDescriptor) -> (specialized: PipelineDescriptor)
        requires
            descriptor.fragment.is_some(),
    ;
}

/// A vertex type that can be batched.
pub trait Vertex: Copy {
    type Key: VertexKey;

    /// Identifies the shader that draws vertices of this type.
    fn shader() -> u128;

    /// Where the source of that shader is kept.
    fn shader_source() -> &'static str;

    /// The attributes of one vertex, in the order of the shader's inputs.
    fn layout() -> Vec<VertexAttribute>;
}

/// One draw request: a mesh with indices local to its own vertices.
pub struct Request<T: Vertex> {
    /// Draw order; lower layers are drawn first.
    pub layer: i32,
    pub vertices: Vec<T>,
    /// Offsets into `vertices`.
    pub indices: Vec<u32>,
    pub key: T::Key,
}

/// The layer at which the batches of one vertex type are drawn among
/// everything else in a view.
pub struct DrawLayer<T: Vertex> {
    pub layer: i32,
    pub marker: PhantomData<T>,
}

/// The layer of the number whose IEEE 754 single-precision bit pattern is
/// `bits`: layers compare as the numbers do, with negative zero just below
/// zero.
pub open spec fn spec_layer_key(bits: u32) -> int {
    if bits < 0x8000_0000 {
        bits as int
    } else {
        -(bits - 0x8000_0000) - 1
    }
}

/// The layer that stands for a number given by its IEEE 754 single-precision
/// bit pattern.
pub fn layer_key(bits: u32) -> (layer: i32)
    ensures
        layer == spec_layer_key(bits),
{
    if bits < 0x8000_0000 {
        bits as i32
    } else {
        -((bits - 0x8000_0000) as i32) - 1
    }
}

/// The bit pattern whose layer is `layer`.
pub open spec fn spec_layer_bits(layer: i32) -> u32 {
    if layer >= 0 {
        layer as u32
    } else {
        (0x8000_0000 - layer - 1) as u32
    }
}

/// The IEEE 754 single-precision bit pattern of the number that a layer
/// stands for.
pub fn layer_bits(layer: i32) -> (bits: u32)
    ensures
        bits == spec_layer_bits(layer),
{
    if layer >= 0 {
        layer as u32
    } else {
        0x8000_0000 + ((-(layer + 1)) as u32)
    }
}

/// Layers and bit patterns stand for each other one to one, and among
/// patterns of one sign the layers ascend as the magnitudes ascend for
/// positive numbers and descend for negative ones.
pub proof fn lemma_layer_key_bits(bits: u32, other: u32, layer: i32)
    ensures
        spec_layer_bits(spec_layer_key(bits) as i32) == bits,
        spec_layer_key(spec_layer_bits(layer)) == layer,
        bits < 0x8000_0000 <= other ==> spec_layer_key(other) < spec_layer_key(bits),
        bits < other < 0x8000_0000 ==> spec_layer_key(bits) < spec_layer_key(other),
        0x8000_0000 <= bits < other ==> spec_layer_key(other) < spec_layer_key(bits),
{
}

impl<T: Vertex> Request<T> {
    /// Every index names one of the request's own vertices.
    pub open spec fn well_formed(&self) -> bool {
        forall|i: int|
            0 <= i < self.indices@.len() ==> (#[trigger] self.indices@[i]) < self.vertices@.len()
    }

    /// Whether every index names one of the request's own vertices.
    pub fn is_well_formed(&self) -> (valid: bool)
        ensures
            valid == self.well_formed(),
    {
        let mut i: usize = 0;
        while i < self.indices.len()
            invariant
                0 <= i <= self.indices.len(),
                forall|k: int| 0 <= k < i ==> (#[trigger] self.indices@[k]) < self.vertices@.len(),
            decreases self.indices.len() - i,
        {
            if self.indices[i] as usize >= self.vertices.len() {
                return false;
            }
            i += 1;
        }
        true
    }
}

impl<T: Vertex> DrawLayer<T> {
    pub fn new(layer: i32) -> (drawn: Self)
        ensures
            drawn.layer == layer,
    {
        DrawLayer { layer, marker: PhantomData }
    }
}

impl<T: Vertex> Copy for DrawLayer<T> {

}

impl<T: Vertex> Clone for DrawLayer<T> {
    fn clone(&self) -> (copy: Self)
        ensures
            copy == *self,
    {
        *self
    }
}

impl<T: Vertex> Default for DrawLayer<T> {
    /// The layer of the number 50.
    fn default() -> (drawn: Self)
        ensures
            drawn.layer == 0x4248_0000,
    {
        DrawLayer::new(layer_key(0x4248_0000))
    }
}

} // verus!
