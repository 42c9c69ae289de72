//! The resource set and frame orchestrator of the deferred pipeline.
//!
//! Everything the renderer decides is described here as plain data with a
//! proved shape: the four shared binding layouts, the three pipelines and
//! their stage interfaces, the five sized textures, and the per-frame
//! command stream of exactly three passes — geometry, light accumulation,
//! composite — submitted as one batch. The device itself (adapter,
//! surface, shader files, command encoding) lives outside the library;
//! the shell executes the [`FramePlan`] this module records and owns the
//! acquisition of the display image, handing its outcome in as a plain
//! value.

use vstd::prelude::*;

verus! {

/// Names of the frame's shared surfaces. The resource table is keyed by
/// name, with a single writer per frame and read-after-write ordering
/// enforced purely by encode order within the one submitted batch.
#[derive(Clone, Copy, PartialEq, Eq, Structural, Debug)]
pub enum ResourceName {
    DiffuseBuffer,
    MaterialBuffer,
    NormalBuffer,
    DepthBuffer,
    AccumulationBuffer,
    DisplayImage,
}

/// The texture formats the pipeline distinguishes.
#[derive(Clone, Copy, PartialEq, Eq, Structural, Debug)]
pub enum TextureFormat {
    /// 32-bit-float RGBA: the G-buffer and HDR accumulation format.
    Rgba32Float,
    /// 32-bit-float depth.
    Depth32Float,
    /// The display surface's negotiated format, carried by identifier.
    Surface(u32),
}

/// Output blending of one colour target.
#[derive(Clone, Copy, PartialEq, Eq, Structural, Debug)]
pub enum BlendMode {
    /// The fragment output replaces the target contents.
    Replace,
    /// Additive blending with factor one / one on colour and alpha: the
    /// fragment output is summed onto the target contents.
    AdditiveOneOne,
}

/// The shader stage a binding is visible to.
#[derive(Clone, Copy, PartialEq, Eq, Structural, Debug)]
pub enum Visibility {
    VertexStage,
    FragmentStage,
}

/// The type of one binding in a layout.
#[derive(Clone, Copy, PartialEq, Eq, Structural, Debug)]
pub enum BindingType {
    UniformBuffer,
    SampledTexture,
    SampledDepthTexture,
    TextureSampler,
}

/// One entry of a resource-binding layout.
#[derive(Clone, Copy, PartialEq, Eq, Structural, Debug)]
pub struct LayoutEntry {
    pub binding: u32,
    pub visibility: Visibility,
    pub ty: BindingType,
}

/// A resource-binding layout: an immutable value built once at startup
/// and shared, not duplicated, by every pipeline that binds resources of
/// its shape.
#[derive(Debug)]
pub struct BindGroupLayout {
    pub entries: Vec<LayoutEntry>,
}

/// Which shared layout a pipeline slot binds. Two slots carrying the same
/// name share the one layout value the context owns.
#[derive(Clone, Copy, PartialEq, Eq, Structural, Debug)]
pub enum LayoutRef {
    /// The scene camera's own layout, supplied by the scene loader.
    CameraLayout,
    ObjectLayout,
    LightLayout,
    TextureLayout,
    DepthLayout,
}

/// One colour target of a pipeline.
#[derive(Clone, Copy, PartialEq, Eq, Structural, Debug)]
pub struct ColorTarget {
    pub format: TextureFormat,
    pub blend: BlendMode,
}

/// The depth-stencil stage of a pipeline.
#[derive(Clone, Copy, PartialEq, Eq, Structural, Debug)]
pub struct DepthState {
    pub format: TextureFormat,
    /// The less-than depth comparison.
    pub compare_less: bool,
    pub write_enabled: bool,
}

/// The fixed named shader programs, each with one vertex and one fragment
/// entry point.
#[derive(Clone, Copy, PartialEq, Eq, Structural, Debug)]
pub enum ShaderProgram {
    GeometryShader,
    LightShader,
    CompositeShader,
}

/// An immutable description of one render pipeline: its shader, the
/// layouts of its binding slots, its colour targets, its depth stage, and
/// whether its draws read a vertex buffer.
#[derive(Debug)]
pub struct PipelineDesc {
    pub shader: ShaderProgram,
    pub layouts: Vec<LayoutRef>,
    pub color_targets: Vec<ColorTarget>,
    pub depth: Option<DepthState>,
    pub uses_vertex_buffer: bool,
}

/// A sized texture owned by the resource set.
#[derive(Clone, Copy, PartialEq, Eq, Structural, Debug)]
pub struct TextureDesc {
    pub width: u32,
    pub height: u32,
    pub format: TextureFormat,
}

/// A mesh as the geometry pass binds it: buffer handles, the full index
/// range of its 32-bit index buffer, and its own resource binding.
/// Immutable once loaded.
#[derive(Clone, Copy, PartialEq, Eq, Structural, Debug)]
pub struct Mesh {
    pub vertex_buffer: u32,
    pub index_buffer: u32,
    pub index_count: u32,
    pub bind_group: u32,
}

/// A light's resource binding (position, colour and falloff live behind
/// the handle).
#[derive(Clone, Copy, PartialEq, Eq, Structural, Debug)]
pub struct Light {
    pub bind_group: u32,
}

/// The camera's view/projection resource binding; one per scene.
#[derive(Clone, Copy, PartialEq, Eq, Structural, Debug)]
pub struct Camera {
    pub bind_group: u32,
}

/// The scene: ordered meshes, ordered lights, one camera.
#[derive(Debug)]
pub struct Scene {
    pub meshes: Vec<Mesh>,
    pub lights: Vec<Light>,
    pub camera: Camera,
}

/// One recorded draw.
#[derive(Clone, Copy, PartialEq, Eq, Structural, Debug)]
pub enum DrawCall {
    /// One indexed draw covering a mesh's full index range, single
    /// instance, with the mesh's own binding and buffers.
    Indexed { bind_group: u32, vertex_buffer: u32, index_buffer: u32, index_count: u32 },
    /// A full-screen triangle for one light: three vertices, no vertex
    /// buffer, the light's own binding.
    LightFullScreen { bind_group: u32 },
    /// The composite full-screen triangle: three vertices, no vertex
    /// buffer, reading only the pass's sampled inputs.
    CompositeFullScreen,
}

/// One colour attachment of a pass: the named target, cleared to zero at
/// load when `clear` holds, stores written.
#[derive(Clone, Copy, PartialEq, Eq, Structural, Debug)]
pub struct ColorAttachment {
    pub target: ResourceName,
    pub clear: bool,
}

/// The depth attachment of a pass: cleared to the far value at load when
/// `clear_to_far` holds, with depth writes stored when `write` holds.
#[derive(Clone, Copy, PartialEq, Eq, Structural, Debug)]
pub struct DepthAttachment {
    pub target: ResourceName,
    pub clear_to_far: bool,
    pub write: bool,
}

/// One encoded render pass: its pipeline's shader, its attachments, the
/// named resources it samples read-only, whether it binds the camera at
/// the fixed slot, and its draws in submission order.
#[derive(Debug)]
pub struct PassDesc {
    pub shader: ShaderProgram,
    pub color_attachments: Vec<ColorAttachment>,
    pub depth_attachment: Option<DepthAttachment>,
    pub reads: Vec<ResourceName>,
    pub binds_camera: bool,
    pub draws: Vec<DrawCall>,
}

/// One frame's command stream: the acquired display image and the passes
/// in encode order, submitted as a single batch — the ordering within the
/// batch is the only synchronization the design needs.
#[derive(Debug)]
pub struct FramePlan {
    pub display_image: u32,
    pub passes: Vec<PassDesc>,
}

/// The one error the orchestrator originates: the display backend could
/// not hand back a presentable image this frame. Recovery (resize, retry
/// next frame) is the caller's responsibility.
#[derive(Clone, Copy, PartialEq, Eq, Structural, Debug)]
pub struct SurfaceAcquisitionError;

/// Whether a pass writes the named resource through an attachment.
pub open spec fn pass_writes(p: PassDesc, r: ResourceName) -> bool {
    (exists|i: int|
        0 <= i < p.color_attachments@.len() && (#[trigger] p.color_attachments@[i]).target == r)
        || match p.depth_attachment {
        Some(d) => d.target == r,
        None => false,
    }
}

/// The single-writer-per-frame discipline: no resource is written by two
/// passes of one frame.
pub open spec fn single_writer(passes: Seq<PassDesc>) -> bool {
    forall|i: int, j: int, r: ResourceName|
        0 <= i < j < passes.len() && #[trigger] pass_writes(passes[i], r) ==> !#[trigger] pass_writes(
            passes[j],
            r,
        )
}

/// Whether some pass before index `i` writes the resource.
pub open spec fn written_earlier(passes: Seq<PassDesc>, i: int, r: ResourceName) -> bool {
    exists|j: int| 0 <= j < i && #[trigger] pass_writes(passes[j], r)
}

/// Read-after-write ordering by encode order: every resource a pass
/// samples was fully written by an earlier pass of the same frame.
pub open spec fn reads_after_writes(passes: Seq<PassDesc>) -> bool {
    forall|i: int, k: int|
        #![trigger passes[i].reads@[k]]
        0 <= i < passes.len() && 0 <= k < passes[i].reads@.len() ==> written_earlier(
            passes,
            i,
            passes[i].reads@[k],
        )
}

/// The resource set and frame orchestrator: owns the four shared binding
/// layouts, the three pipelines, the five sized textures, and the scene,
/// and records the per-frame command stream. Built once at startup and
/// rebuilt, not mutated, when the output dimensions change.
#[derive(Debug)]
pub struct Context {
    pub width: u32,
    pub height: u32,
    pub surface_format: u32,
    pub object_layout: BindGroupLayout,
    pub light_layout: BindGroupLayout,
    pub texture_layout: BindGroupLayout,
    pub depth_layout: BindGroupLayout,
    pub geometry_pipeline: PipelineDesc,
    pub light_pipeline: PipelineDesc,
    pub post_pipeline: PipelineDesc,
    pub diffuse_texture: TextureDesc,
    pub material_texture: TextureDesc,
    pub normal_texture: TextureDesc,
    pub screen_texture: TextureDesc,
    pub depth_texture: TextureDesc,
    pub scene: Scene,
}

/// A sampled-colour texture sized to the surface.
pub open spec fn window_texture(width: u32, height: u32) -> TextureDesc {
    TextureDesc { width, height, format: TextureFormat::Rgba32Float }
}

impl Context {
    /// The construction contract. The five textures share the surface's
    /// dimensions; the G-buffer and accumulation targets are
    /// 32-bit-float RGBA and the depth target 32-bit-float depth. The
    /// geometry pipeline writes exactly three colour outputs plus
    /// less-than, write-enabled depth; the light pipeline writes one
    /// colour output with additive one/one blending and no depth; the
    /// composite pipeline writes one colour output in the surface's
    /// negotiated format. Layouts are referenced by name, shared rather
    /// than duplicated.
    pub open spec fn wf(&self) -> bool {
        &&& self.object_layout.entries@ == seq![
            (LayoutEntry {
                binding: 0,
                visibility: Visibility::VertexStage,
                ty: BindingType::UniformBuffer,
            }),
            (LayoutEntry {
                binding: 1,
                visibility: Visibility::FragmentStage,
                ty: BindingType::UniformBuffer,
            }),
        ]
        &&& self.light_layout.entries@ == seq![
            (LayoutEntry {
                binding: 0,
                visibility: Visibility::FragmentStage,
                ty: BindingType::UniformBuffer,
            }),
        ]
        &&& self.texture_layout.entries@ == seq![
            (LayoutEntry {
                binding: 0,
                visibility: Visibility::FragmentStage,
                ty: BindingType::SampledTexture,
            }),
            (LayoutEntry {
                binding: 1,
                visibility: Visibility::FragmentStage,
                ty: BindingType::TextureSampler,
            }),
        ]
        &&& self.depth_layout.entries@ == seq![
            (LayoutEntry {
                binding: 0,
                visibility: Visibility::FragmentStage,
                ty: BindingType::SampledDepthTexture,
            }),
            (LayoutEntry {
                binding: 1,
                visibility: Visibility::FragmentStage,
                ty: BindingType::TextureSampler,
            }),
        ]
        &&& self.geometry_pipeline.shader == ShaderProgram::GeometryShader
        &&& self.geometry_pipeline.layouts@ == seq![LayoutRef::CameraLayout, LayoutRef::ObjectLayout]
        &&& self.geometry_pipeline.color_targets@ == seq![
            (ColorTarget { format: TextureFormat::Rgba32Float, blend: BlendMode::Replace }),
            (ColorTarget { format: TextureFormat::Rgba32Float, blend: BlendMode::Replace }),
            (ColorTarget { format: TextureFormat::Rgba32Float, blend: BlendMode::Replace }),
        ]
        &&& self.geometry_pipeline.depth == Some(
            DepthState {
                format: TextureFormat::Depth32Float,
                compare_less: true,
                write_enabled: true,
            },
        )
        &&& self.geometry_pipeline.uses_vertex_buffer
        &&& self.light_pipeline.shader == ShaderProgram::LightShader
        &&& self.light_pipeline.layouts@ == seq![
            LayoutRef::CameraLayout,
            LayoutRef::LightLayout,
            LayoutRef::TextureLayout,
            LayoutRef::TextureLayout,
            LayoutRef::TextureLayout,
            LayoutRef::DepthLayout,
        ]
        &&& self.light_pipeline.color_targets@ == seq![
            (ColorTarget { format: TextureFormat::Rgba32Float, blend: BlendMode::AdditiveOneOne }),
        ]
        &&& self.light_pipeline.depth is None
        &&& !self.light_pipeline.uses_vertex_buffer
        &&& self.post_pipeline.shader == ShaderProgram::CompositeShader
        &&& self.post_pipeline.layouts@ == seq![LayoutRef::TextureLayout]
        &&& self.post_pipeline.color_targets@ == seq![
            (ColorTarget {
                format: TextureFormat::Surface(self.surface_format),
                blend: BlendMode::Replace,
            }),
        ]
        &&& self.post_pipeline.depth is None
        &&& !self.post_pipeline.uses_vertex_buffer
        &&& self.diffuse_texture == window_texture(self.width, self.height)
        &&& self.material_texture == window_texture(self.width, self.height)
        &&& self.normal_texture == window_texture(self.width, self.height)
        &&& self.screen_texture == window_texture(self.width, self.height)
        &&& self.depth_texture == (TextureDesc {
            width: self.width,
            height: self.height,
            format: TextureFormat::Depth32Float,
        })
    }

    /// Build the resource set against the current output dimensions and
    /// the surface's negotiated format: the four shared layouts, the
    /// three pipelines, and the five sized textures, all exactly as
    /// [`Context::wf`] states. Device-side failures (missing shader
    /// source, pipeline creation) abort in the shell before any plan is
    /// recorded, so construction of the description itself is total.
    pub fn new(width: u32, height: u32, surface_format: u32, scene: Scene) -> (c: Context)
        ensures
            c.wf(),
            c.width == width,
            c.height == height,
            c.surface_format == surface_format,
            c.scene == scene,
    {
        let mut object_entries: Vec<LayoutEntry> = Vec::new();
        object_entries.push(LayoutEntry {
            binding: 0,
            visibility: Visibility::VertexStage,
            ty: BindingType::UniformBuffer,
        });
        object_entries.push(LayoutEntry {
            binding: 1,
            visibility: Visibility::FragmentStage,
            ty: BindingType::UniformBuffer,
        });
        let mut light_entries: Vec<LayoutEntry> = Vec::new();
        light_entries.push(LayoutEntry {
            binding: 0,
            visibility: Visibility::FragmentStage,
            ty: BindingType::UniformBuffer,
        });
        let mut texture_entries: Vec<LayoutEntry> = Vec::new();
        texture_entries.push(LayoutEntry {
            binding: 0,
            visibility: Visibility::FragmentStage,
            ty: BindingType::SampledTexture,
        });
        texture_entries.push(LayoutEntry {
            binding: 1,
            visibility: Visibility::FragmentStage,
            ty: BindingType::TextureSampler,
        });
        let mut depth_entries: Vec<LayoutEntry> = Vec::new();
        depth_entries.push(LayoutEntry {
            binding: 0,
            visibility: Visibility::FragmentStage,
            ty: BindingType::SampledDepthTexture,
        });
        depth_entries.push(LayoutEntry {
            binding: 1,
            visibility: Visibility::FragmentStage,
            ty: BindingType::TextureSampler,
        });

        let mut geometry_layouts: Vec<LayoutRef> = Vec::new();
        geometry_layouts.push(LayoutRef::CameraLayout);
        geometry_layouts.push(LayoutRef::ObjectLayout);
        let mut geometry_targets: Vec<ColorTarget> = Vec::new();
        geometry_targets.push(ColorTarget {
            format: TextureFormat::Rgba32Float,
            blend: BlendMode::Replace,
        });
        geometry_targets.push(ColorTarget {
            format: TextureFormat::Rgba32Float,
            blend: BlendMode::Replace,
        });
        geometry_targets.push(ColorTarget {
            format: TextureFormat::Rgba32Float,
            blend: BlendMode::Replace,
        });

        let mut light_layouts: Vec<LayoutRef> = Vec::new();
        light_layouts.push(LayoutRef::CameraLayout);
        light_layouts.push(LayoutRef::LightLayout);
        light_layouts.push(LayoutRef::TextureLayout);
        light_layouts.push(LayoutRef::TextureLayout);
        light_layouts.push(LayoutRef::TextureLayout);
        light_layouts.push(LayoutRef::DepthLayout);
        let mut light_targets: Vec<ColorTarget> = Vec::new();
        light_targets.push(ColorTarget {
            format: TextureFormat::Rgba32Float,
            blend: BlendMode::AdditiveOneOne,
        });

        let mut post_layouts: Vec<LayoutRef> = Vec::new();
        post_layouts.push(LayoutRef::TextureLayout);
        let mut post_targets: Vec<ColorTarget> = Vec::new();
        post_targets.push(ColorTarget {
            format: TextureFormat::Surface(surface_format),
            blend: BlendMode::Replace,
        });

        let c = Context {
            width,
            height,
            surface_format,
            object_layout: BindGroupLayout { entries: object_entries },
            light_layout: BindGroupLayout { entries: light_entries },
            texture_layout: BindGroupLayout { entries: texture_entries },
            depth_layout: BindGroupLayout { entries: depth_entries },
            geometry_pipeline: PipelineDesc {
                shader: ShaderProgram::GeometryShader,
                layouts: geometry_layouts,
                color_targets: geometry_targets,
                depth: Some(
                    DepthState {
                        format: TextureFormat::Depth32Float,
                        compare_less: true,
                        write_enabled: true,
                    },
                ),
                uses_vertex_buffer: true,
            },
            light_pipeline: PipelineDesc {
                shader: ShaderProgram::LightShader,
                layouts: light_layouts,
                color_targets: light_targets,
                depth: None,
                uses_vertex_buffer: false,
            },
            post_pipeline: PipelineDesc {
                shader: ShaderProgram::CompositeShader,
                layouts: post_layouts,
                color_targets: post_targets,
                depth: None,
                uses_vertex_buffer: false,
            },
            diffuse_texture: TextureDesc {
                width,
                height,
                format: TextureFormat::Rgba32Float,
            },
            material_texture: TextureDesc {
                width,
                height,
                format: TextureFormat::Rgba32Float,
            },
            normal_texture: TextureDesc {
                width,
                height,
                format: TextureFormat::Rgba32Float,
            },
            screen_texture: TextureDesc {
                width,
                height,
                format: TextureFormat::Rgba32Float,
            },
            depth_texture: TextureDesc {
                width,
                height,
                format: TextureFormat::Depth32Float,
            },
            scene,
        };
        proof {
            assert(c.object_layout.entries@ =~= seq![
                (LayoutEntry {
                    binding: 0,
                    visibility: Visibility::VertexStage,
                    ty: BindingType::UniformBuffer,
                }),
                (LayoutEntry {
                    binding: 1,
                    visibility: Visibility::FragmentStage,
                    ty: BindingType::UniformBuffer,
                }),
            ]);
            assert(c.light_layout.entries@ =~= seq![
                (LayoutEntry {
                    binding: 0,
                    visibility: Visibility::FragmentStage,
                    ty: BindingType::UniformBuffer,
                }),
            ]);
            assert(c.texture_layout.entries@ =~= seq![
                (LayoutEntry {
                    binding: 0,
                    visibility: Visibility::FragmentStage,
                    ty: BindingType::SampledTexture,
                }),
                (LayoutEntry {
                    binding: 1,
                    visibility: Visibility::FragmentStage,
                    ty: BindingType::TextureSampler,
                }),
            ]);
            assert(c.depth_layout.entries@ =~= seq![
                (LayoutEntry {
                    binding: 0,
                    visibility: Visibility::FragmentStage,
                    ty: BindingType::SampledDepthTexture,
                }),
                (LayoutEntry {
                    binding: 1,
                    visibility: Visibility::FragmentStage,
                    ty: BindingType::TextureSampler,
                }),
            ]);
            assert(c.geometry_pipeline.layouts@ =~= seq![
                LayoutRef::CameraLayout,
                LayoutRef::ObjectLayout,
            ]);
            assert(c.geometry_pipeline.color_targets@ =~= seq![
                (ColorTarget { format: TextureFormat::Rgba32Float, blend: BlendMode::Replace }),
                (ColorTarget { format: TextureFormat::Rgba32Float, blend: BlendMode::Replace }),
                (ColorTarget { format: TextureFormat::Rgba32Float, blend: BlendMode::Replace }),
            ]);
            assert(c.light_pipeline.layouts@ =~= seq![
                LayoutRef::CameraLayout,
                LayoutRef::LightLayout,
                LayoutRef::TextureLayout,
                LayoutRef::TextureLayout,
                LayoutRef::TextureLayout,
                LayoutRef::DepthLayout,
            ]);
            assert(c.light_pipeline.color_targets@ =~= seq![
                (ColorTarget {
                    format: TextureFormat::Rgba32Float,
                    blend: BlendMode::AdditiveOneOne,
                }),
            ]);
            assert(c.post_pipeline.layouts@ =~= seq![LayoutRef::TextureLayout]);
            assert(c.post_pipeline.color_targets@ =~= seq![
                (ColorTarget {
                    format: TextureFormat::Surface(surface_format),
                    blend: BlendMode::Replace,
                }),
            ]);
        }
        c
    }
}

/// The one indexed draw a mesh contributes: its full index range, single
/// instance, its own binding and buffers.
pub open spec fn mesh_draw(m: Mesh) -> DrawCall {
    DrawCall::Indexed {
        bind_group: m.bind_group,
        vertex_buffer: m.vertex_buffer,
        index_buffer: m.index_buffer,
        index_count: m.index_count,
    }
}

/// The one full-screen draw a light contributes.
pub open spec fn light_draw(l: Light) -> DrawCall {
    DrawCall::LightFullScreen { bind_group: l.bind_group }
}

/// The geometry pass contract: clear depth to far and the three G-buffer
/// targets to zero, bind the camera, then one indexed draw per mesh in
/// scene order. The less-than, write-enabled depth test makes draw order
/// irrelevant to the result (`crate::raster::lemma_depth_order_irrelevant`).
pub open spec fn geometry_pass_wf(c: Context, p: PassDesc) -> bool {
    &&& p.shader == ShaderProgram::GeometryShader
    &&& p.color_attachments@ == seq![
        (ColorAttachment { target: ResourceName::DiffuseBuffer, clear: true }),
        (ColorAttachment { target: ResourceName::MaterialBuffer, clear: true }),
        (ColorAttachment { target: ResourceName::NormalBuffer, clear: true }),
    ]
    &&& p.depth_attachment == Some(
        DepthAttachment { target: ResourceName::DepthBuffer, clear_to_far: true, write: true },
    )
    &&& p.reads@ == Seq::<ResourceName>::empty()
    &&& p.binds_camera
    &&& p.draws@.len() == c.scene.meshes@.len()
    &&& forall|i: int|
        0 <= i < p.draws@.len() ==> #[trigger] p.draws@[i] == mesh_draw(c.scene.meshes@[i])
}

/// The light accumulation pass contract: clear the accumulation target
/// once, bind the camera and the four G-buffer/depth textures read-only,
/// then one full-screen draw per light in scene order, blended
/// additively — the result is the per-pixel sum of the contributions,
/// independent of light order (`crate::raster::lemma_light_order_invariance`).
pub open spec fn light_pass_wf(c: Context, p: PassDesc) -> bool {
    &&& p.shader == ShaderProgram::LightShader
    &&& p.color_attachments@ == seq![
        (ColorAttachment { target: ResourceName::AccumulationBuffer, clear: true }),
    ]
    &&& p.depth_attachment is None
    &&& p.reads@ == seq![
        ResourceName::DiffuseBuffer,
        ResourceName::NormalBuffer,
        ResourceName::MaterialBuffer,
        ResourceName::DepthBuffer,
    ]
    &&& p.binds_camera
    &&& p.draws@.len() == c.scene.lights@.len()
    &&& forall|i: int|
        0 <= i < p.draws@.len() ==> #[trigger] p.draws@[i] == light_draw(c.scene.lights@[i])
}

/// The composite pass contract: sample the accumulation buffer and issue
/// one full-screen draw onto the freshly acquired display image.
pub open spec fn composite_pass_wf(c: Context, p: PassDesc) -> bool {
    &&& p.shader == ShaderProgram::CompositeShader
    &&& p.color_attachments@ == seq![
        (ColorAttachment { target: ResourceName::DisplayImage, clear: true }),
    ]
    &&& p.depth_attachment is None
    &&& p.reads@ == seq![ResourceName::AccumulationBuffer]
    &&& !p.binds_camera
    &&& p.draws@ == seq![DrawCall::CompositeFullScreen]
}

/// A frame plan of the three passes obeys the resource discipline: one
/// writer per resource per frame, and every sampled input written by an
/// earlier pass — read-after-write by encode order alone.
pub proof fn lemma_plan_discipline(c: Context, passes: Seq<PassDesc>)
    requires
        passes.len() == 3,
        geometry_pass_wf(c, passes[0]),
        light_pass_wf(c, passes[1]),
        composite_pass_wf(c, passes[2]),
    ensures
        single_writer(passes),
        reads_after_writes(passes),
{
    let g = passes[0];
    let l = passes[1];
    let o = passes[2];
    assert forall|r: ResourceName| #[trigger] pass_writes(g, r) implies r
        == ResourceName::DiffuseBuffer || r == ResourceName::MaterialBuffer || r
        == ResourceName::NormalBuffer || r == ResourceName::DepthBuffer by {
        if exists|i: int|
            0 <= i < g.color_attachments@.len() && (#[trigger] g.color_attachments@[i]).target
                == r {
            let i = choose|i: int|
                0 <= i < g.color_attachments@.len() && (#[trigger] g.color_attachments@[i]).target
                    == r;
            assert(i == 0 || i == 1 || i == 2);
        }
    }
    assert forall|r: ResourceName| #[trigger] pass_writes(l, r) implies r
        == ResourceName::AccumulationBuffer by {
        let i = choose|i: int|
            0 <= i < l.color_attachments@.len() && (#[trigger] l.color_attachments@[i]).target
                == r;
        assert(i == 0);
    }
    assert forall|r: ResourceName| #[trigger] pass_writes(o, r) implies r
        == ResourceName::DisplayImage by {
        let i = choose|i: int|
            0 <= i < o.color_attachments@.len() && (#[trigger] o.color_attachments@[i]).target
                == r;
        assert(i == 0);
    }
    assert forall|i: int, j: int, r: ResourceName|
        0 <= i < j < passes.len() && #[trigger] pass_writes(passes[i], r) implies !#[trigger] pass_writes(
        passes[j],
        r,
    ) by {
        if pass_writes(passes[j], r) {
            assert(j == 1 || j == 2);
        }
    }
    assert(pass_writes(g, ResourceName::DiffuseBuffer)) by {
        assert(g.color_attachments@[0].target == ResourceName::DiffuseBuffer);
    }
    assert(pass_writes(g, ResourceName::NormalBuffer)) by {
        assert(g.color_attachments@[2].target == ResourceName::NormalBuffer);
    }
    assert(pass_writes(g, ResourceName::MaterialBuffer)) by {
        assert(g.color_attachments@[1].target == ResourceName::MaterialBuffer);
    }
    assert(pass_writes(g, ResourceName::DepthBuffer));
    assert(pass_writes(l, ResourceName::AccumulationBuffer)) by {
        assert(l.color_attachments@[0].target == ResourceName::AccumulationBuffer);
    }
    assert forall|i: int, k: int|
        #![trigger passes[i].reads@[k]]
        0 <= i < passes.len() && 0 <= k < passes[i].reads@.len() implies written_earlier(
        passes,
        i,
        passes[i].reads@[k],
    ) by {
        if i == 1 {
            assert(k == 0 || k == 1 || k == 2 || k == 3);
            assert(pass_writes(passes[0], passes[1].reads@[k]));
        } else if i == 2 {
            assert(k == 0);
            assert(pass_writes(passes[1], passes[2].reads@[k]));
        } else {
            assert(i == 0);
            assert(passes[0].reads@.len() == 0);
        }
    }
}

/// The frame-sequencing states. `render` drives the full cycle
/// unconditionally on every successful acquisition; a failed acquisition
/// records nothing and stays at `Idle`.
#[derive(Clone, Copy, PartialEq, Eq, Structural, Debug)]
pub enum FrameState {
    Idle,
    GeometryRecorded,
    LightRecorded,
    CompositeRecorded,
    Submitted,
}

/// The successor state in the per-frame cycle; submitting returns to idle.
pub open spec fn spec_next_frame_state(s: FrameState) -> FrameState {
    match s {
        FrameState::Idle => FrameState::GeometryRecorded,
        FrameState::GeometryRecorded => FrameState::LightRecorded,
        FrameState::LightRecorded => FrameState::CompositeRecorded,
        FrameState::CompositeRecorded => FrameState::Submitted,
        FrameState::Submitted => FrameState::Idle,
    }
}

/// Advance the frame state machine by one step, exact per
/// [`spec_next_frame_state`].
pub fn next_frame_state(s: FrameState) -> (t: FrameState)
    ensures
        t == spec_next_frame_state(s),
{
    match s {
        FrameState::Idle => FrameState::GeometryRecorded,
        FrameState::GeometryRecorded => FrameState::LightRecorded,
        FrameState::LightRecorded => FrameState::CompositeRecorded,
        FrameState::CompositeRecorded => FrameState::Submitted,
        FrameState::Submitted => FrameState::Idle,
    }
}

impl Context {
    /// Record the geometry pass per [`geometry_pass_wf`].
    pub fn record_geometry_pass(&self) -> (p: PassDesc)
        ensures
            geometry_pass_wf(*self, p),
    {
        let mut color_attachments: Vec<ColorAttachment> = Vec::new();
        color_attachments.push(ColorAttachment { target: ResourceName::DiffuseBuffer, clear: true });
        color_attachments.push(ColorAttachment {
            target: ResourceName::MaterialBuffer,
            clear: true,
        });
        color_attachments.push(ColorAttachment { target: ResourceName::NormalBuffer, clear: true });
        let mut draws: Vec<DrawCall> = Vec::new();
        let mut i: usize = 0;
        while i < self.scene.meshes.len()
            invariant
                0 <= i <= self.scene.meshes@.len(),
                draws@.len() == i,
                forall|k: int|
                    0 <= k < i ==> #[trigger] draws@[k] == mesh_draw(self.scene.meshes@[k]),
            decreases self.scene.meshes@.len() - i,
        {
            let m = self.scene.meshes[i];
            draws.push(DrawCall::Indexed {
                bind_group: m.bind_group,
                vertex_buffer: m.vertex_buffer,
                index_buffer: m.index_buffer,
                index_count: m.index_count,
            });
            i += 1;
        }
        let p = PassDesc {
            shader: ShaderProgram::GeometryShader,
            color_attachments,
            depth_attachment: Some(
                DepthAttachment {
                    target: ResourceName::DepthBuffer,
                    clear_to_far: true,
                    write: true,
                },
            ),
            reads: Vec::new(),
            binds_camera: true,
            draws,
        };
        proof {
            assert(p.color_attachments@ =~= seq![
                (ColorAttachment { target: ResourceName::DiffuseBuffer, clear: true }),
                (ColorAttachment { target: ResourceName::MaterialBuffer, clear: true }),
                (ColorAttachment { target: ResourceName::NormalBuffer, clear: true }),
            ]);
            assert(p.reads@ =~= Seq::<ResourceName>::empty());
        }
        p
    }

    /// Record the light accumulation pass per [`light_pass_wf`].
    pub fn record_light_pass(&self) -> (p: PassDesc)
        ensures
            light_pass_wf(*self, p),
    {
        let mut color_attachments: Vec<ColorAttachment> = Vec::new();
        color_attachments.push(ColorAttachment {
            target: ResourceName::AccumulationBuffer,
            clear: true,
        });
        let mut reads: Vec<ResourceName> = Vec::new();
        reads.push(ResourceName::DiffuseBuffer);
        reads.push(ResourceName::NormalBuffer);
        reads.push(ResourceName::MaterialBuffer);
        reads.push(ResourceName::DepthBuffer);
        let mut draws: Vec<DrawCall> = Vec::new();
        let mut i: usize = 0;
        while i < self.scene.lights.len()
            invariant
                0 <= i <= self.scene.lights@.len(),
                draws@.len() == i,
                forall|k: int|
                    0 <= k < i ==> #[trigger] draws@[k] == light_draw(self.scene.lights@[k]),
            decreases self.scene.lights@.len() - i,
        {
            let l = self.scene.lights[i];
            draws.push(DrawCall::LightFullScreen { bind_group: l.bind_group });
            i += 1;
        }
        let p = PassDesc {
            shader: ShaderProgram::LightShader,
            color_attachments,
            depth_attachment: None,
            reads,
            binds_camera: true,
            draws,
        };
        proof {
            assert(p.color_attachments@ =~= seq![
                (ColorAttachment { target: ResourceName::AccumulationBuffer, clear: true }),
            ]);
            assert(p.reads@ =~= seq![
                ResourceName::DiffuseBuffer,
                ResourceName::NormalBuffer,
                ResourceName::MaterialBuffer,
                ResourceName::DepthBuffer,
            ]);
        }
        p
    }

    /// Record the composite pass per [`composite_pass_wf`].
    pub fn record_composite_pass(&self) -> (p: PassDesc)
        ensures
            composite_pass_wf(*self, p),
    {
        let mut color_attachments: Vec<ColorAttachment> = Vec::new();
        color_attachments.push(ColorAttachment { target: ResourceName::DisplayImage, clear: true });
        let mut reads: Vec<ResourceName> = Vec::new();
        reads.push(ResourceName::AccumulationBuffer);
        let mut draws: Vec<DrawCall> = Vec::new();
        draws.push(DrawCall::CompositeFullScreen);
        let p = PassDesc {
            shader: ShaderProgram::CompositeShader,
            color_attachments,
            depth_attachment: None,
            reads,
            binds_camera: false,
            draws,
        };
        proof {
            assert(p.color_attachments@ =~= seq![
                (ColorAttachment { target: ResourceName::DisplayImage, clear: true }),
            ]);
            assert(p.reads@ =~= seq![ResourceName::AccumulationBuffer]);
            assert(p.draws@ =~= seq![DrawCall::CompositeFullScreen]);
        }
        p
    }

    /// Record one frame. The caller hands in the outcome of acquiring the
    /// next display image; on failure nothing is recorded and the one
    /// frame-transient error is returned — recovery is the caller's. On
    /// success the three passes are encoded in order, geometry → light →
    /// composite, as one batch obeying the single-writer and
    /// read-after-write discipline; the shell submits it exactly once per
    /// displayed frame.
    pub fn render(&self, acquired: Option<u32>) -> (r: Result<FramePlan, SurfaceAcquisitionError>)
        ensures
            r is Err <==> acquired is None,
            r matches Ok(plan) ==> {
                &&& acquired matches Some(img) && plan.display_image == img
                &&& plan.passes@.len() == 3
                &&& geometry_pass_wf(*self, plan.passes@[0])
                &&& light_pass_wf(*self, plan.passes@[1])
                &&& composite_pass_wf(*self, plan.passes@[2])
                &&& single_writer(plan.passes@)
                &&& reads_after_writes(plan.passes@)
            },
    {
        let image: u32 = match acquired {
            Some(img) => img,
            None => {
                return Err(SurfaceAcquisitionError);
            },
        };
        let state = FrameState::Idle;
        let g = self.record_geometry_pass();
        let state = next_frame_state(state);
        let l = self.record_light_pass();
        let state = next_frame_state(state);
        let o = self.record_composite_pass();
        let state = next_frame_state(state);
        let mut passes: Vec<PassDesc> = Vec::new();
        passes.push(g);
        passes.push(l);
        passes.push(o);
        let state = next_frame_state(state);
        proof {
            assert(state is Submitted);
            lemma_plan_discipline(*self, passes@);
        }
        Ok(FramePlan { display_image: image, passes })
    }
}

} // verus!
