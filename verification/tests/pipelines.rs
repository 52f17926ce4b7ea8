use vertex_batch::batch::BatchSection;
use vertex_batch::colored::{CKey, CVertex};
use vertex_batch::descriptor::{
    BlendComponent, BlendFactor, BlendOperation, BlendState, ColorTargetState, ColorWrites,
    FragmentState, FrontFace, MultisampleState, PipelineDescriptor, PolygonMode, PrimitiveState,
    PrimitiveTopology, TargetFormat, VertexAttribute, VertexFormat, VertexStepMode,
};
use vertex_batch::pipeline::{
    queue_sections, DrawEntry, DrawKey, DrawPipeline, PipelineHandle, ShapeCommonKey,
    ShapePipeline, Specialized, SpecializedPipelines,
};
use vertex_batch::vertex::{DrawLayer, Vertex, VertexKey};

fn additive() -> CKey {
    CKey {
        mask: ColorWrites { bits: 0x7 },
        blend: Some(BlendState {
            color: BlendComponent {
                src_factor: BlendFactor::SrcAlpha,
                dst_factor: BlendFactor::One,
                operation: BlendOperation::Add,
            },
            alpha: BlendComponent::over(),
        }),
    }
}

fn common(hdr: bool, msaa: u8) -> ShapeCommonKey {
    ShapeCommonKey { hdr, msaa }
}

fn targets(descriptor: &PipelineDescriptor) -> &Vec<Option<ColorTargetState>> {
    match &descriptor.fragment {
        Some(FragmentState { targets, .. }) => targets,
        None => panic!("a pipeline for batches has a fragment stage"),
    }
}

#[test]
fn colored_vertex_contract() {
    assert_eq!(CVertex::shader(), 213808777024918471717406675324426180314u128);
    assert_eq!(CVertex::shader_source(), "shaders/draw.wgsl");
    assert_eq!(
        CVertex::layout(),
        vec![
            VertexAttribute { format: VertexFormat::Float32x2, offset: 0, shader_location: 0 },
            VertexAttribute { format: VertexFormat::Float32x4, offset: 8, shader_location: 1 },
        ]
    );
}

#[test]
fn default_key_blends_by_alpha_into_all_channels() {
    let key = CKey::default();
    assert_eq!(key.mask, ColorWrites { bits: 15 });
    assert_eq!(key.mask, ColorWrites::all());
    assert_eq!(
        key.blend,
        Some(BlendState {
            color: BlendComponent {
                src_factor: BlendFactor::SrcAlpha,
                dst_factor: BlendFactor::OneMinusSrcAlpha,
                operation: BlendOperation::Add,
            },
            alpha: BlendComponent {
                src_factor: BlendFactor::One,
                dst_factor: BlendFactor::OneMinusSrcAlpha,
                operation: BlendOperation::Add,
            },
        })
    );
    assert_eq!(key.blend, Some(BlendState::alpha_blending()));
    assert!(key.same(&CKey::default()));
    assert!(!key.same(&additive()));
    assert!(!key.same(&CKey { mask: ColorWrites { bits: 15 }, blend: None }));
}

#[test]
fn pipeline_takes_its_data_from_the_vertex_type() {
    let pipeline = ShapePipeline::<CVertex>::new();
    assert_eq!(pipeline.shader, CVertex::shader());
    assert_eq!(pipeline.array_stride, 24);
    assert_eq!(pipeline.attributes, CVertex::layout());
    let pipeline = DrawPipeline::<CVertex>::new();
    assert_eq!(pipeline.shader, CVertex::shader());
    assert_eq!(pipeline.array_stride, 24);
    assert_eq!(pipeline.attributes, CVertex::layout());
}

#[test]
fn descriptor_for_the_default_key() {
    let pipeline = ShapePipeline::<CVertex>::new();
    let descriptor = pipeline.specialize((common(false, 2), CKey::default()));
    assert_eq!(descriptor.label, "draw_pipeline");
    assert_eq!(descriptor.vertex.shader, CVertex::shader());
    assert_eq!(descriptor.vertex.entry_point, "vertex_main");
    assert_eq!(descriptor.vertex.buffer.array_stride, 24);
    assert_eq!(descriptor.vertex.buffer.step_mode, VertexStepMode::Vertex);
    assert_eq!(descriptor.vertex.buffer.attributes, CVertex::layout());
    assert_eq!(
        descriptor.primitive,
        PrimitiveState {
            topology: PrimitiveTopology::TriangleList,
            strip_index_format: None,
            front_face: FrontFace::Ccw,
            cull_mode: None,
            unclipped_depth: false,
            polygon_mode: PolygonMode::Fill,
            conservative: false,
        }
    );
    assert_eq!(
        descriptor.multisample,
        MultisampleState { count: 4, mask: u64::MAX, alpha_to_coverage_enabled: false }
    );
    match &descriptor.fragment {
        Some(fragment) => {
            assert_eq!(fragment.shader, CVertex::shader());
            assert_eq!(fragment.entry_point, "fragment_main");
        }
        None => panic!("a pipeline for batches has a fragment stage"),
    }
    assert_eq!(
        targets(&descriptor),
        &vec![Some(ColorTargetState {
            format: TargetFormat::Standard,
            blend: Some(BlendState::alpha_blending()),
            write_mask: ColorWrites::all(),
        })]
    );
}

#[test]
fn descriptor_follows_view_state_and_key() {
    let pipeline = ShapePipeline::<CVertex>::new();
    let descriptor = pipeline.specialize((common(true, 0), additive()));
    assert_eq!(descriptor.multisample.count, 1);
    assert_eq!(
        targets(&descriptor),
        &vec![Some(ColorTargetState {
            format: TargetFormat::Hdr,
            blend: additive().blend,
            write_mask: ColorWrites { bits: 7 },
        })]
    );
    let descriptor = pipeline.specialize((common(false, 3), CKey { mask: ColorWrites { bits: 8 }, blend: None }));
    assert_eq!(descriptor.multisample.count, 8);
    assert_eq!(
        targets(&descriptor),
        &vec![Some(ColorTargetState {
            format: TargetFormat::Standard,
            blend: None,
            write_mask: ColorWrites { bits: 8 },
        })]
    );
}

#[test]
fn single_sampled_descriptor() {
    let pipeline = DrawPipeline::<CVertex>::new();
    let descriptor = pipeline.specialize((DrawKey { hdr: true }, additive()));
    assert_eq!(descriptor.label, "draw_pipeline");
    assert_eq!(
        descriptor.multisample,
        MultisampleState { count: 1, mask: u64::MAX, alpha_to_coverage_enabled: false }
    );
    assert_eq!(descriptor.primitive.topology, PrimitiveTopology::TriangleList);
    assert_eq!(descriptor.primitive.cull_mode, None);
    assert_eq!(
        targets(&descriptor),
        &vec![Some(ColorTargetState {
            format: TargetFormat::Hdr,
            blend: additive().blend,
            write_mask: ColorWrites { bits: 7 },
        })]
    );
}

#[test]
fn key_changes_only_targets_in_use() {
    let pipeline = ShapePipeline::<CVertex>::new();
    let mut descriptor = pipeline.specialize((common(false, 0), CKey::default()));
    match descriptor.fragment.as_mut() {
        Some(fragment) => {
            fragment.targets.insert(0, None);
            fragment.targets.push(Some(ColorTargetState {
                format: TargetFormat::Hdr,
                blend: None,
                write_mask: ColorWrites { bits: 1 },
            }));
        }
        None => panic!("a pipeline for batches has a fragment stage"),
    }
    let specialized = additive().specialize(descriptor);
    assert_eq!(specialized.label, "draw_pipeline");
    assert_eq!(specialized.vertex.buffer.attributes, CVertex::layout());
    assert_eq!(specialized.multisample.count, 1);
    assert_eq!(
        targets(&specialized),
        &vec![
            None,
            Some(ColorTargetState {
                format: TargetFormat::Standard,
                blend: additive().blend,
                write_mask: ColorWrites { bits: 7 },
            }),
            Some(ColorTargetState {
                format: TargetFormat::Hdr,
                blend: additive().blend,
                write_mask: ColorWrites { bits: 7 },
            }),
        ]
    );
}

#[test]
fn a_pipeline_is_made_once_and_then_reused() {
    let pipeline = ShapePipeline::<CVertex>::new();
    let mut pipelines = SpecializedPipelines::<CVertex>::new();
    let key = (common(false, 2), CKey::default());
    assert_eq!(pipelines.get(&key), None);
    match pipelines.specialize(&pipeline, key) {
        Specialized::Missing(descriptor) => assert_eq!(descriptor.multisample.count, 4),
        Specialized::Ready(_) => panic!("nothing was made yet"),
    }
    assert_eq!(pipelines.insert(key, PipelineHandle { id: 11 }), PipelineHandle { id: 11 });
    assert_eq!(pipelines.get(&key), Some(PipelineHandle { id: 11 }));
    match pipelines.specialize(&pipeline, key) {
        Specialized::Ready(handle) => assert_eq!(handle, PipelineHandle { id: 11 }),
        Specialized::Missing(_) => panic!("the pipeline was made"),
    }
    assert_eq!(pipelines.insert(key, PipelineHandle { id: 12 }), PipelineHandle { id: 11 });
    assert_eq!(pipelines.get(&key), Some(PipelineHandle { id: 11 }));
}

#[test]
fn pipelines_are_kept_apart_by_view_state_and_key() {
    let mut pipelines = SpecializedPipelines::<CVertex>::new();
    let plain = (common(false, 2), CKey::default());
    let hdr = (common(true, 2), CKey::default());
    let single = (common(false, 0), CKey::default());
    let added = (common(false, 2), additive());
    assert_eq!(pipelines.insert(plain, PipelineHandle { id: 0 }), PipelineHandle { id: 0 });
    assert_eq!(pipelines.get(&hdr), None);
    assert_eq!(pipelines.get(&single), None);
    assert_eq!(pipelines.get(&added), None);
    assert_eq!(pipelines.insert(hdr, PipelineHandle { id: 1 }), PipelineHandle { id: 1 });
    assert_eq!(pipelines.insert(single, PipelineHandle { id: 2 }), PipelineHandle { id: 2 });
    assert_eq!(pipelines.insert(added, PipelineHandle { id: 3 }), PipelineHandle { id: 3 });
    assert_eq!(pipelines.get(&plain), Some(PipelineHandle { id: 0 }));
    assert_eq!(pipelines.get(&hdr), Some(PipelineHandle { id: 1 }));
    assert_eq!(pipelines.get(&single), Some(PipelineHandle { id: 2 }));
    assert_eq!(pipelines.get(&added), Some(PipelineHandle { id: 3 }));
}

#[test]
fn each_section_with_a_pipeline_gets_an_entry() {
    let mut pipelines = SpecializedPipelines::<CVertex>::new();
    let view = common(true, 2);
    pipelines.insert((view, CKey::default()), PipelineHandle { id: 5 });
    pipelines.insert((common(false, 2), additive()), PipelineHandle { id: 6 });
    let sections = vec![
        (BatchSection { start: 0, end: 9 }, CKey::default()),
        (BatchSection { start: 9, end: 12 }, additive()),
        (BatchSection { start: 12, end: 18 }, CKey::default()),
    ];
    let layer = DrawLayer::<CVertex>::default();
    let entries = queue_sections(&sections, view, &layer, &pipelines);
    assert_eq!(
        entries,
        vec![
            DrawEntry {
                sort_key: 1_112_014_848,
                section: BatchSection { start: 0, end: 9 },
                pipeline: PipelineHandle { id: 5 },
            },
            DrawEntry {
                sort_key: 1_112_014_848,
                section: BatchSection { start: 12, end: 18 },
                pipeline: PipelineHandle { id: 5 },
            },
        ]
    );
    pipelines.insert((view, additive()), PipelineHandle { id: 7 });
    let entries = queue_sections(&sections, view, &DrawLayer::<CVertex>::new(3), &pipelines);
    assert_eq!(entries.len(), 3);
    assert_eq!(
        entries[1],
        DrawEntry {
            sort_key: 3,
            section: BatchSection { start: 9, end: 12 },
            pipeline: PipelineHandle { id: 7 },
        }
    );
    let none = queue_sections(&Vec::new(), view, &layer, &pipelines);
    assert!(none.is_empty());
}
