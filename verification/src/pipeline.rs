//! Pipelines for batched vertices: the descriptor of the pipeline that a view
//! and a key call for, the table of pipelines already made, and the draw
//! entries of a frame.

use core::marker::PhantomData;
use vstd::prelude::*;
use crate::batch::BatchSection;
use crate::descriptor::{
    BlendState, ColorTargetState, ColorWrites, FragmentState, FrontFace, MultisampleState,
    PipelineDescriptor, PolygonMode, PrimitiveState, PrimitiveTopology, TargetFormat,
    VertexAttribute, VertexBufferLayout, VertexState, VertexStepMode,
};
use crate::vertex::{DrawLayer, Vertex, VertexKey};

verus! {

/// What all draws to one view have in common.
#[derive(Clone, Copy, Debug, PartialEq, Eq, Hash, Structural)]
pub struct ShapeCommonKey {
    /// Whether the view renders with high dynamic range.
    pub hdr: bool,
    /// The binary logarithm of the number of samples per pixel.
    pub msaa: u8,
}

/// What all draws to one view without multisampling have in common.
#[derive(Clone, Copy, Debug, PartialEq, Eq, Hash, Structural)]
pub struct DrawKey {
    /// Whether the view renders with high dynamic range.
    pub hdr: bool,
}

/// What the multisampled pipelines of one vertex type share: its shader and
/// the layout of its vertex buffer.
pub struct ShapePipeline<T: Vertex> {
    pub shader: u128,
    pub array_stride: u64,
    pub attributes: Vec<VertexAttribute>,
    pub marker: PhantomData<T>,
}

/// What the single-sampled pipelines of one vertex type share.
pub struct DrawPipeline<T: Vertex> {
    pub shader: u128,
    pub array_stride: u64,
    pub attributes: Vec<VertexAttribute>,
    pub marker: PhantomData<T>,
}

/// Names a pipeline that has been made.
#[derive(Clone, Copy, Debug, PartialEq, Eq, Hash, Structural)]
pub struct PipelineHandle {
    pub id: usize,
}

/// The pipelines made so far, by the view state and key they were made for.
/// A pipeline that has been entered stays, and stays the same.
pub struct SpecializedPipelines<T: Vertex> {
    entries: Vec<((ShapeCommonKey, T::Key), PipelineHandle)>,
}

/// Where a pipeline for a view state and a key stands.
pub enum Specialized {
    /// It has been made before.
    Ready(PipelineHandle),
    /// It has yet to be made, from this descriptor.
    Missing(PipelineDescriptor),
}

/// One indexed draw, as a view's render phase takes it.
#[derive(Clone, Copy, Debug, PartialEq, Eq, Structural)]
pub struct DrawEntry {
    /// Orders the draw among everything else in the view.
    pub sort_key: i32,
    /// The indices to draw.
    pub section: BatchSection,
    pub pipeline: PipelineHandle,
}

/// The descriptor before a key is applied: triangle lists with the given
/// shader and vertex buffer, no culling, and one target of the view's format
/// that is alpha blended and written in all channels.
pub open spec fn is_base(
    base: PipelineDescriptor,
    shader: u128,
    array_stride: u64,
    attributes: Seq<VertexAttribute>,
    hdr: bool,
    samples: u32,
) -> bool {
    &&& base.label@ == "draw_pipeline"@
    &&& base.vertex.shader == shader
    &&& base.vertex.entry_point@ == "vertex_main"@
    &&& base.vertex.buffer.array_stride == array_stride
    &&& base.vertex.buffer.step_mode == VertexStepMode::Vertex
    &&& base.vertex.buffer.attributes@ == attributes
    &&& base.primitive == (PrimitiveState {
        topology: PrimitiveTopology::TriangleList,
        strip_index_format: None,
        front_face: FrontFace::Ccw,
        cull_mode: None,
        unclipped_depth: false,
        polygon_mode: PolygonMode::Fill,
        conservative: false,
    })
    &&& base.multisample == (MultisampleState {
        count: samples,
        mask: u64::MAX,
        alpha_to_coverage_enabled: false,
    })
    &&& base.fragment.is_some()
    &&& base.fragment.unwrap().shader == shader
    &&& base.fragment.unwrap().entry_point@ == "fragment_main"@
    &&& base.fragment.unwrap().targets@ == seq![
        Some(
            ColorTargetState {
                format: if hdr {
                    TargetFormat::Hdr
                } else {
                    TargetFormat::Standard
                },
                blend: Some(BlendState::spec_alpha_blending()),
                write_mask: ColorWrites { bits: 0xF },
            },
        ),
    ]
}

fn base_descriptor(
    shader: u128,
    array_stride: u64,
    attributes: &Vec<VertexAttribute>,
    hdr: bool,
    samples: u32,
) -> (base: PipelineDescriptor)
    ensures
        is_base(base, shader, array_stride, attributes@, hdr, samples),
{
    let mut copied: Vec<VertexAttribute> = Vec::new();
    let mut i: usize = 0;
    while i < attributes.len()
        invariant
            0 <= i <= attributes.len(),
            copied@ == attributes@.take(i as int),
        decreases attributes.len() - i,
    {
        copied.push(attributes[i]);
        assert(attributes@.take(i as int).push(attributes@[i as int]) =~= attributes@.take(
            i as int + 1,
        ));
        i += 1;
    }
    assert(attributes@.take(i as int) =~= attributes@);
    let mut targets: Vec<Option<ColorTargetState>> = Vec::new();
    targets.push(
        Some(
            ColorTargetState {
                format: if hdr {
                    TargetFormat::Hdr
                } else {
                    TargetFormat::Standard
                },
                blend: Some(BlendState::alpha_blending()),
                write_mask: ColorWrites::all(),
            },
        ),
    );
    assert(targets@ =~= seq![
        Some(
            ColorTargetState {
                format: if hdr {
                    TargetFormat::Hdr
                } else {
                    TargetFormat::Standard
                },
                blend: Some(BlendState::spec_alpha_blending()),
                write_mask: ColorWrites { bits: 0xF },
            },
        ),
    ]);
    PipelineDescriptor {
        label: "draw_pipeline",
        vertex: VertexState {
            shader,
            entry_point: "vertex_main",
            buffer: VertexBufferLayout {
                array_stride,
                step_mode: VertexStepMode::Vertex,
                attributes: copied,
            },
        },
        primitive: PrimitiveState {
            topology: PrimitiveTopology::TriangleList,
            strip_index_format: None,
            front_face: FrontFace::Ccw,
            cull_mode: None,
            unclipped_depth: false,
            polygon_mode: PolygonMode::Fill,
            conservative: false,
        },
        multisample: MultisampleState { count: samples, mask: u64::MAX, alpha_to_coverage_enabled: false },
        fragment: Some(FragmentState { shader, entry_point: "fragment_main", targets }),
    }
}

impl<T: Vertex> ShapePipeline<T> {
    /// The pipeline data of `T`: its shader, its layout, and its size as the
    /// stride of the vertex buffer.
    pub fn new() -> (pipeline: Self)
        ensures
            call_ensures(T::shader, (), pipeline.shader),
            call_ensures(T::layout, (), pipeline.attributes),
            pipeline.array_stride == vstd::layout::size_of::<T>(),
    {
        ShapePipeline {
            shader: T::shader(),
            array_stride: core::mem::size_of::<T>() as u64,
            attributes: T::layout(),
            marker: PhantomData,
        }
    }

    /// `base` is the descriptor for a view with state `common`, before a key
    /// is applied.
    pub open spec fn prepares(&self, common: ShapeCommonKey, base: PipelineDescriptor) -> bool {
        is_base(
            base,
            self.shader,
            self.array_stride,
            self.attributes@,
            common.hdr,
            1u32 << common.msaa,
        )
    }

    /// The descriptor of the pipeline for a view state and a key: what the
    /// key makes of the descriptor that the view state calls for.
    pub fn specialize(&self, key: (ShapeCommonKey, T::Key)) -> (descriptor: PipelineDescriptor)
        requires
            key.0.msaa < 32,
        ensures
            exists|base: PipelineDescriptor| #[trigger]
                self.prepares(key.0, base) && call_ensures(
                    <T::Key as VertexKey>::specialize,
                    (&key.1, base),
                    descriptor,
                ),
    {
        let (common, key) = key;
        let base = base_descriptor(
            self.shader,
            self.array_stride,
            &self.attributes,
            common.hdr,
            1u32 << common.msaa,
        );
        let ghost prepared = base;
        let descriptor = key.specialize(base);
        assert(self.prepares(common, prepared));
        descriptor
    }
}

impl<T: Vertex> DrawPipeline<T> {
    /// The pipeline data of `T`: its shader, its layout, and its size as the
    /// stride of the vertex buffer.
    pub fn new() -> (pipeline: Self)
        ensures
            call_ensures(T::shader, (), pipeline.shader),
            call_ensures(T::layout, (), pipeline.attributes),
            pipeline.array_stride == vstd::layout::size_of::<T>(),
    {
        DrawPipeline {
            shader: T::shader(),
            array_stride: core::mem::size_of::<T>() as u64,
            attributes: T::layout(),
            marker: PhantomData,
        }
    }

    /// `base` is the descriptor for a view with state `common`, before a key
    /// is applied: one sample per pixel.
    pub open spec fn prepares(&self, common: DrawKey, base: PipelineDescriptor) -> bool {
        is_base(base, self.shader, self.array_stride, self.attributes@, common.hdr, 1)
    }

    /// The descriptor of the pipeline for a view state and a key: what the
    /// key makes of the descriptor that the view state calls for.
    pub fn specialize(&self, key: (DrawKey, T::Key)) -> (descriptor: PipelineDescriptor)
        ensures
            exists|base: PipelineDescriptor| #[trigger]
                self.prepares(key.0, base) && call_ensures(
                    <T::Key as VertexKey>::specialize,
                    (&key.1, base),
                    descriptor,
                ),
    {
        let (common, key) = key;
        let base = base_descriptor(self.shader, self.array_stride, &self.attributes, common.hdr, 1);
        let ghost prepared = base;
        let descriptor = key.specialize(base);
        assert(self.prepares(common, prepared));
        descriptor
    }
}

/// The table that a list of entries stands for: where a view state and key
/// occur more than once, the first entry counts.
pub open spec fn table_of<K>(entries: Seq<((ShapeCommonKey, K), PipelineHandle)>) -> Map<
    (ShapeCommonKey, K),
    PipelineHandle,
>
    decreases entries.len(),
{
    if entries.len() == 0 {
        Map::empty()
    } else {
        let earlier = table_of(entries.drop_last());
        if earlier.contains_key(entries.last().0) {
            earlier
        } else {
            earlier.insert(entries.last().0, entries.last().1)
        }
    }
}

proof fn lemma_table_absent<K>(entries: Seq<((ShapeCommonKey, K), PipelineHandle)>, key: (ShapeCommonKey, K))
    requires
        forall|i: int| 0 <= i < entries.len() ==> (#[trigger] entries[i]).0 != key,
    ensures
        !table_of(entries).contains_key(key),
    decreases entries.len(),
{
    if entries.len() > 0 {
        lemma_table_absent(entries.drop_last(), key);
        assert(entries.last() == entries[entries.len() - 1]);
    }
}

proof fn lemma_table_first<K>(
    entries: Seq<((ShapeCommonKey, K), PipelineHandle)>,
    key: (ShapeCommonKey, K),
    at: int,
)
    requires
        0 <= at < entries.len(),
        entries[at].0 == key,
        forall|i: int| 0 <= i < at ==> (#[trigger] entries[i]).0 != key,
    ensures
        table_of(entries).contains_key(key),
        table_of(entries)[key] == entries[at].1,
    decreases entries.len(),
{
    let earlier = entries.drop_last();
    if at == entries.len() - 1 {
        lemma_table_absent(earlier, key);
    } else {
        lemma_table_first(earlier, key, at);
    }
}

/// What a table holds once `built` has been offered for `key`: an entry that
/// is there stays as it is, and only a missing one is added.
pub open spec fn offered<K>(
    table: Map<(ShapeCommonKey, K), PipelineHandle>,
    key: (ShapeCommonKey, K),
    built: PipelineHandle,
) -> Map<(ShapeCommonKey, K), PipelineHandle> {
    if table.contains_key(key) {
        table
    } else {
        table.insert(key, built)
    }
}

impl<T: Vertex> View for SpecializedPipelines<T> {
    type V = Map<(ShapeCommonKey, T::Key), PipelineHandle>;

    closed spec fn view(&self) -> Self::V {
        table_of(self.entries@)
    }
}

impl<T: Vertex> SpecializedPipelines<T> {
    /// A table without pipelines.
    pub fn new() -> (pipelines: Self)
        ensures
            pipelines@ == Map::<(ShapeCommonKey, T::Key), PipelineHandle>::empty(),
    {
        SpecializedPipelines { entries: Vec::new() }
    }

    /// The pipeline that was made for `key`, if one was.
    pub fn get(&self, key: &(ShapeCommonKey, T::Key)) -> (found: Option<PipelineHandle>)
        ensures
            found == if self@.contains_key(*key) {
                Some(self@[*key])
            } else {
                None
            },
    {
        let mut i: usize = 0;
        while i < self.entries.len()
            invariant
                0 <= i <= self.entries.len(),
                forall|k: int| 0 <= k < i ==> (#[trigger] self.entries@[k]).0 != *key,
            decreases self.entries.len() - i,
        {
            let entry = &self.entries[i];
            if entry.0.0 == key.0 && entry.0.1.same(&key.1) {
                proof {
                    lemma_table_first(self.entries@, *key, i as int);
                }
                return Some(entry.1);
            }
            i += 1;
        }
        proof {
            lemma_table_absent(self.entries@, *key);
        }
        None
    }

    /// Enters `built` as the pipeline for `key` unless the table has one
    /// already, and returns the pipeline that the table then holds for `key`.
    pub fn insert(&mut self, key: (ShapeCommonKey, T::Key), built: PipelineHandle) -> (held: PipelineHandle)
        ensures
            final(self)@ == offered(old(self)@, key, built),
            held == offered(old(self)@, key, built)[key],
    {
        match self.get(&key) {
            Some(held) => held,
            None => {
                self.entries.push((key, built));
                assert(self.entries@.drop_last() =~= old(self).entries@);
                built
            },
        }
    }

    /// Looks up the pipeline for a view state and a key. If none has been
    /// made, hands out the descriptor to make it from.
    pub fn specialize(&self, pipeline: &ShapePipeline<T>, key: (ShapeCommonKey, T::Key)) -> (outcome:
        Specialized)
        requires
            key.0.msaa < 32,
        ensures
            match outcome {
                Specialized::Ready(handle) => self@.contains_key(key) && handle == self@[key],
                Specialized::Missing(descriptor) => !self@.contains_key(key) && exists|
                    base: PipelineDescriptor,
                | #[trigger]
                    pipeline.prepares(key.0, base) && call_ensures(
                        <T::Key as VertexKey>::specialize,
                        (&key.1, base),
                        descriptor,
                    ),
            },
    {
        match self.get(&key) {
            Some(handle) => Specialized::Ready(handle),
            None => Specialized::Missing(pipeline.specialize(key)),
        }
    }
}

/// The draw entries of a view: one for each section whose pipeline has been
/// made, in the order of the sections.
pub open spec fn entries_of<K>(
    sections: Seq<(BatchSection, K)>,
    common: ShapeCommonKey,
    sort_key: i32,
    pipelines: Map<(ShapeCommonKey, K), PipelineHandle>,
) -> Seq<DrawEntry>
    decreases sections.len(),
{
    if sections.len() == 0 {
        Seq::empty()
    } else {
        let earlier = entries_of(sections.drop_last(), common, sort_key, pipelines);
        let section = sections.last().0;
        let key = (common, sections.last().1);
        if pipelines.contains_key(key) {
            earlier.push(DrawEntry { sort_key, section, pipeline: pipelines[key] })
        } else {
            earlier
        }
    }
}

/// The draw entries of one view for the sections of a batch. Every entry is
/// sorted by the layer of the vertex type. A section whose pipeline has not
/// been made is left out.
pub fn queue_sections<T: Vertex>(
    sections: &Vec<(BatchSection, T::Key)>,
    common: ShapeCommonKey,
    layer: &DrawLayer<T>,
    pipelines: &SpecializedPipelines<T>,
) -> (entries: Vec<DrawEntry>)
    ensures
        entries@ == entries_of(sections@, common, layer.layer, pipelines@),
{
    let mut entries: Vec<DrawEntry> = Vec::new();
    let mut n: usize = 0;
    while n < sections.len()
        invariant
            0 <= n <= sections.len(),
            entries@ == entries_of(sections@.take(n as int), common, layer.layer, pipelines@),
        decreases sections.len() - n,
    {
        let section = sections[n].0;
        let key = (common, sections[n].1);
        proof {
            assert(sections@.take(n as int + 1).drop_last() =~= sections@.take(n as int));
        }
        match pipelines.get(&key) {
            Some(pipeline) => {
                entries.push(DrawEntry { sort_key: layer.layer, section, pipeline });
            },
            None => {},
        }
        n += 1;
    }
    proof {
        assert(sections@.take(n as int) =~= sections@);
    }
    entries
}

/// Pipelines are reused: once a view state and key have a pipeline, every
/// later lookup gives that pipeline, whatever is offered for them or for
/// others afterwards.
pub proof fn lemma_pipelines_are_reused<K>(
    table: Map<(ShapeCommonKey, K), PipelineHandle>,
    key: (ShapeCommonKey, K),
    built: PipelineHandle,
    later_key: (ShapeCommonKey, K),
    later_built: PipelineHandle,
)
    ensures
        offered(table, key, built).contains_key(key),
        offered(offered(table, key, built), later_key, later_built).contains_key(key),
        offered(offered(table, key, built), later_key, later_built)[key] == offered(
            table,
            key,
            built,
        )[key],
        offered(offered(table, key, built), key, later_built) == offered(table, key, built),
{
}

} // verus!
