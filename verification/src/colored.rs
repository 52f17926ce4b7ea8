//! Coloured vertices, and the key that sets how they are blended.

use vstd::prelude::*;
use crate::descriptor::{
    BlendState, ColorTargetState, ColorWrites, FragmentState, PipelineDescriptor, VertexAttribute,
    VertexFormat,
};
use crate::vertex::{Vertex, VertexKey};

verus! {

/// A position and a colour. Each number is held as its IEEE 754
/// single-precision bit pattern, which is how it lies in the vertex buffer.
#[derive(Clone, Copy, Debug, PartialEq, Eq, Hash)]
pub struct CVertex {
    pub position: [u32; 2],
    pub color: [u32; 4],
}

/// Which channels the vertices write and how they blend with the target.
#[derive(Clone, Copy, Debug, PartialEq, Eq, Hash, Structural)]
pub struct CKey {
    pub mask: ColorWrites,
    pub blend: Option<BlendState>,
}

/// The targets with the mask and blending of `key` in each target that is
/// in use.
pub open spec fn retargeted(targets: Seq<Option<ColorTargetState>>, key: CKey) -> Seq<
    Option<ColorTargetState>,
> {
    Seq::new(
        targets.len(),
        |i: int|
            match targets[i] {
                Some(target) => Some(
                    ColorTargetState { format: target.format, blend: key.blend, write_mask: key.mask },
                ),
                None => None,
            },
    )
}

impl Default for CKey {
    /// Alpha blending into all channels.
    fn default() -> (key: Self)
        ensures
            key == (CKey {
                mask: ColorWrites { bits: 0xF },
                blend: Some(BlendState::spec_alpha_blending()),
            }),
    {
        CKey { mask: ColorWrites::all(), blend: Some(BlendState::alpha_blending()) }
    }
}

impl VertexKey for CKey {
    fn same(&self, other: &Self) -> (equal: bool) {
        *self == *other
    }

    /// Sets the mask and the blending of every target in use, and leaves the
    /// rest of the descriptor as it is.
    fn specialize(&self, descriptor: PipelineDescriptor) -> (specialized: PipelineDescriptor)
        ensures
            specialized.label == descriptor.label,
            specialized.vertex == descriptor.vertex,
            specialized.primitive == descriptor.primitive,
            specialized.multisample == descriptor.multisample,
            specialized.fragment.is_some(),
            specialized.fragment.unwrap().shader == descriptor.fragment.unwrap().shader,
            specialized.fragment.unwrap().entry_point == descriptor.fragment.unwrap().entry_point,
            specialized.fragment.unwrap().targets@ == retargeted(
                descriptor.fragment.unwrap().targets@,
                *self,
            ),
    {
        let PipelineDescriptor { label, vertex, primitive, multisample, fragment } = descriptor;
        let FragmentState { shader, entry_point, targets } = fragment.unwrap();
        let mut targets = targets;
        let ghost before = targets@;
        let mut i: usize = 0;
        while i < targets.len()
            invariant
                0 <= i <= targets.len(),
                targets@.len() == before.len(),
                forall|k: int| 0 <= k < i ==> (#[trigger] targets@[k]) == retargeted(before, *self)[k],
                forall|k: int| i <= k < before.len() ==> (#[trigger] targets@[k]) == before[k],
            decreases targets.len() - i,
        {
            match targets[i] {
                Some(target) => {
                    targets.set(
                        i,
                        Some(
                            ColorTargetState {
                                format: target.format,
                                blend: self.blend,
                                write_mask: self.mask,
                            },
                        ),
                    );
                },
                None => {},
            }
            i += 1;
        }
        assert(targets@ =~= retargeted(before, *self));
        PipelineDescriptor {
            label,
            vertex,
            primitive,
            multisample,
            fragment: Some(FragmentState { shader, entry_point, targets }),
        }
    }
}

impl Vertex for CVertex {
    type Key = CKey;

    fn shader() -> (id: u128)
        ensures
            id == 213808777024918471717406675324426180314u128,
    {
        213808777024918471717406675324426180314u128
    }

    fn shader_source() -> (path: &'static str)
        ensures
            path@ == "shaders/draw.wgsl"@,
    {
        "shaders/draw.wgsl"
    }

    /// Two numbers for the position, then four for the colour.
    fn layout() -> (layout: Vec<VertexAttribute>)
        ensures
            layout@ == seq![
                VertexAttribute { format: VertexFormat::Float32x2, offset: 0, shader_location: 0 },
                VertexAttribute { format: VertexFormat::Float32x4, offset: 8, shader_location: 1 },
            ],
    {
        let mut layout: Vec<VertexAttribute> = Vec::new();
        layout.push(VertexAttribute { format: VertexFormat::Float32x2, offset: 0, shader_location: 0 });
        layout.push(VertexAttribute { format: VertexFormat::Float32x4, offset: 8, shader_location: 1 });
        assert(layout@ =~= seq![
            VertexAttribute { format: VertexFormat::Float32x2, offset: 0, shader_location: 0 },
            VertexAttribute { format: VertexFormat::Float32x4, offset: 8, shader_location: 1 },
        ]);
        layout
    }
}

} // verus!
