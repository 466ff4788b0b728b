use render::device::attrib::{FloatSize, FloatSubType, IntSize, IntSubType, SignFlag, Type};
use render::device::shade::{Attribute, BaseType, ProgramMeta, UniformValue};
use render::device::target::{Plane, Target};
use render::device::{CastRequest, Reply, Request};
use render::mesh::{Attribute as MeshAttribute, Mesh};
use render::resource::{Cache, Future, Kind};
use render::shade::{Binding, ShaderBundle};
use render::target::Frame;
use render::{BundleError, MeshError, Renderer, Wait};

fn renderer_with_frame_buffer(name: u32) -> Renderer {
    let mut renderer = Renderer::new();
    renderer.deliver(Reply::ReplyNewFrameBuffer(0, Ok(name)));
    renderer.take_requests();
    renderer
}

#[test]
fn only_changed_attachments_are_bound() {
    let a = Plane::PlaneSurface(1);
    let b = Plane::PlaneSurface(2);
    let c = Plane::PlaneTexture(3, 0, Some(1));
    let d = Plane::PlaneSurface(4);
    let s = Plane::PlaneTexture(5, 2, None);
    let mut renderer = renderer_with_frame_buffer(9);
    let mut first = Frame::new();
    first.colors[0] = a;
    first.colors[1] = b;
    first.depth = d;
    first.stencil = s;
    assert_eq!(renderer.bind_frame(&first), Wait::Done(()));
    assert_eq!(
        renderer.take_requests(),
        vec![
            Request::Cast(CastRequest::BindFrameBuffer(9)),
            Request::Cast(CastRequest::BindTarget(Target::TargetColor(0), a)),
            Request::Cast(CastRequest::BindTarget(Target::TargetColor(1), b)),
            Request::Cast(CastRequest::BindTarget(Target::TargetDepth, d)),
            Request::Cast(CastRequest::BindTarget(Target::TargetStencil, s)),
        ]
    );
    assert_eq!(renderer.state.frame, first);
    let mut second = first;
    second.colors[1] = c;
    assert_eq!(renderer.bind_frame(&second), Wait::Done(()));
    assert_eq!(
        renderer.take_requests(),
        vec![
            Request::Cast(CastRequest::BindFrameBuffer(9)),
            Request::Cast(CastRequest::BindTarget(Target::TargetColor(1), c)),
        ]
    );
    assert_eq!(renderer.state.frame, second);
    // binding the same frame again sends the frame buffer object alone
    assert_eq!(renderer.bind_frame(&second), Wait::Done(()));
    assert_eq!(
        renderer.take_requests(),
        vec![Request::Cast(CastRequest::BindFrameBuffer(9))]
    );
}

#[test]
fn detached_planes_are_bound_as_empty() {
    let mut renderer = renderer_with_frame_buffer(9);
    let mut first = Frame::new();
    first.colors[3] = Plane::PlaneSurface(1);
    first.depth = Plane::PlaneSurface(2);
    assert_eq!(renderer.bind_frame(&first), Wait::Done(()));
    renderer.take_requests();
    let mut second = Frame::new();
    second.depth = Plane::PlaneSurface(2);
    assert_eq!(renderer.bind_frame(&second), Wait::Done(()));
    assert_eq!(
        renderer.take_requests(),
        vec![
            Request::Cast(CastRequest::BindFrameBuffer(9)),
            Request::Cast(CastRequest::BindTarget(Target::TargetColor(3), Plane::PlaneEmpty)),
        ]
    );
}

#[test]
fn default_frame_is_bound_whatever_came_before() {
    let mut renderer = renderer_with_frame_buffer(9);
    renderer.default_frame_buffer = 6;
    assert_eq!(renderer.bind_frame(&Frame::new()), Wait::Done(()));
    assert_eq!(
        renderer.take_requests(),
        vec![Request::Cast(CastRequest::BindFrameBuffer(6))]
    );
    let mut frame = Frame::new();
    frame.colors[2] = Plane::PlaneSurface(1);
    assert_eq!(renderer.bind_frame(&frame), Wait::Done(()));
    renderer.take_requests();
    assert_eq!(renderer.bind_frame(&Frame::new()), Wait::Done(()));
    assert_eq!(renderer.bind_frame(&Frame::new()), Wait::Done(()));
    assert_eq!(
        renderer.take_requests(),
        vec![
            Request::Cast(CastRequest::BindFrameBuffer(6)),
            Request::Cast(CastRequest::BindFrameBuffer(6)),
        ]
    );
    // the default target does not replace the frame that is remembered
    assert_eq!(renderer.state.frame, frame);
    // and it does not wait for the shared frame buffer object
    let mut fresh = Renderer::new();
    fresh.take_requests();
    assert_eq!(fresh.bind_frame(&Frame::new()), Wait::Done(()));
    assert_eq!(fresh.dispatcher.resource.frame_buffers, vec![Future::Pending]);
}

#[test]
fn frame_without_attachments_is_the_default() {
    let mut frame = Frame::new();
    assert!(frame.is_default());
    frame.stencil = Plane::PlaneSurface(0);
    assert!(!frame.is_default());
    frame.stencil = Plane::PlaneEmpty;
    frame.colors[3] = Plane::PlaneTexture(0, 0, None);
    assert!(!frame.is_default());
    frame.colors[3] = Plane::PlaneEmpty;
    frame.depth = Plane::PlaneSurface(0);
    assert!(!frame.is_default());
    assert!(Plane::PlaneTexture(1, 2, Some(3)).same(&Plane::PlaneTexture(1, 2, Some(3))));
    assert!(!Plane::PlaneTexture(1, 2, Some(3)).same(&Plane::PlaneTexture(1, 2, None)));
    assert!(!Plane::PlaneTexture(1, 2, Some(3)).same(&Plane::PlaneTexture(1, 2, Some(4))));
    assert!(!Plane::PlaneSurface(1).same(&Plane::PlaneTexture(1, 0, None)));
}

fn cache() -> Cache {
    let mut cache = Cache::new();
    // buffers: 0 loaded, 1 failed, 2 pending, 3 loaded
    cache.buffers = vec![
        Future::Loaded(10),
        Future::Failed(()),
        Future::Pending,
        Future::Loaded(13),
    ];
    // textures: 0 loaded, 1 pending, 2 loaded
    cache.textures = vec![Future::Loaded(20), Future::Pending, Future::Loaded(22)];
    cache.samplers = vec![Future::Loaded(30)];
    cache
}

fn meta(attributes: Vec<Attribute>) -> ProgramMeta {
    ProgramMeta {
        name: 50,
        attributes,
        uniforms: Vec::new(),
        blocks: Vec::new(),
        textures: Vec::new(),
    }
}

fn bundle(plan: Vec<Binding>) -> ShaderBundle {
    ShaderBundle { program: 0, data: Vec::new(), plan }
}

#[test]
fn block_failure_is_reported_before_texture_failure() {
    let plan = vec![
        Binding::Texture { var: 4, location: 8, texture: 1, sampler: None },
        Binding::Block { var: 2, buffer: 1 },
    ];
    let mut sent = Vec::new();
    let result = Renderer::bind_shader_bundle(&mut sent, &cache(), &meta(Vec::new()), &bundle(plan));
    assert_eq!(result, Err(BundleError::ErrorBundleBlock(2)));
    assert_eq!(sent, vec![Request::Cast(CastRequest::BindProgram(50))]);
}

#[test]
fn texture_failure_is_reported_when_blocks_are_fine() {
    let plan = vec![
        Binding::Block { var: 2, buffer: 0 },
        Binding::Texture { var: 4, location: 8, texture: 1, sampler: Some(0) },
        Binding::Texture { var: 5, location: 9, texture: 1, sampler: None },
    ];
    let mut sent = Vec::new();
    let result = Renderer::bind_shader_bundle(&mut sent, &cache(), &meta(Vec::new()), &bundle(plan));
    assert_eq!(result, Err(BundleError::ErrorBundleTexture(4)));
    assert_eq!(
        sent,
        vec![
            Request::Cast(CastRequest::BindProgram(50)),
            Request::Cast(CastRequest::BindUniformBlock(50, 0, 2, 10)),
        ]
    );
}

#[test]
fn skipped_entries_take_no_slot() {
    let plan = vec![
        Binding::Block { var: 0, buffer: 2 },
        Binding::Block { var: 1, buffer: 0 },
        Binding::Texture { var: 0, location: 7, texture: 1, sampler: None },
        Binding::Uniform { var: 0, location: 3, value: UniformValue::ValueI32(-5) },
        Binding::Texture { var: 1, location: 8, texture: 0, sampler: Some(0) },
        Binding::Block { var: 2, buffer: 1 },
        Binding::Block { var: 3, buffer: 3 },
        Binding::Texture { var: 2, location: 9, texture: 2, sampler: None },
    ];
    let mut sent = vec![Request::SwapBuffers];
    let result = Renderer::bind_shader_bundle(&mut sent, &cache(), &meta(Vec::new()), &bundle(plan));
    // the first block that was skipped is reported, not the last
    assert_eq!(result, Err(BundleError::ErrorBundleBlock(0)));
    assert_eq!(
        sent,
        vec![
            Request::SwapBuffers,
            Request::Cast(CastRequest::BindProgram(50)),
            Request::Cast(CastRequest::BindUniformBlock(50, 0, 1, 10)),
            Request::Cast(CastRequest::BindUniform(3, UniformValue::ValueI32(-5))),
            Request::Cast(CastRequest::BindUniform(8, UniformValue::ValueI32(0))),
            Request::Cast(CastRequest::BindTexture(0, 20, Some(30))),
            Request::Cast(CastRequest::BindUniformBlock(50, 1, 3, 13)),
            Request::Cast(CastRequest::BindUniform(9, UniformValue::ValueI32(1))),
            Request::Cast(CastRequest::BindTexture(1, 22, None)),
        ]
    );
}

#[test]
fn complete_bundle_binds_cleanly() {
    let plan = vec![
        Binding::Uniform { var: 1, location: 4, value: UniformValue::ValueF32Vec([1, 2, 3, 4]) },
        Binding::Block { var: 0, buffer: 3 },
    ];
    let mut sent = Vec::new();
    let result = Renderer::bind_shader_bundle(&mut sent, &cache(), &meta(Vec::new()), &bundle(plan));
    assert_eq!(result, Ok(()));
    assert_eq!(
        sent,
        vec![
            Request::Cast(CastRequest::BindProgram(50)),
            Request::Cast(CastRequest::BindUniform(4, UniformValue::ValueF32Vec([1, 2, 3, 4]))),
            Request::Cast(CastRequest::BindUniformBlock(50, 0, 0, 13)),
        ]
    );
}

fn attribute(name: &str, buffer: usize, elem_type: Type) -> MeshAttribute {
    MeshAttribute {
        buffer,
        elem_count: 2,
        elem_type,
        offset: 16,
        stride: 24,
        name: String::from(name),
    }
}

fn input(name: &str, location: u8, base_type: BaseType) -> Attribute {
    Attribute { name: String::from(name), location, base_type }
}

fn float() -> Type {
    Type::Float(FloatSubType::FloatDefault, FloatSize::F32)
}

fn raw() -> Type {
    Type::Int(IntSubType::IntRaw, IntSize::U8, SignFlag::Signed)
}

#[test]
fn mesh_without_a_named_attribute_is_rejected() {
    let mesh = Mesh {
        num_vertices: 3,
        attributes: vec![attribute("a_Pos", 0, float()), attribute("a_Color", 3, float())],
    };
    let program = meta(vec![
        input("a_Color", 1, BaseType::BaseF32),
        input("a_Normal", 2, BaseType::BaseF32),
        input("a_Pos", 0, BaseType::BaseF32),
    ]);
    let mut sent = Vec::new();
    let result = Renderer::bind_mesh(&mut sent, &cache(), &mesh, &program);
    assert_eq!(result, Err(MeshError::ErrorAttributeMissing));
    // the input before the failure is bound, the one after it is not
    assert_eq!(
        sent,
        vec![Request::Cast(CastRequest::BindAttribute(1, 13, 2, float(), 24, 16))]
    );
}

#[test]
fn mesh_with_an_unfit_attribute_is_rejected() {
    let mesh = Mesh {
        num_vertices: 3,
        attributes: vec![
            attribute("a_Pos", 0, float()),
            attribute("a_Id", 3, raw()),
            attribute("a_Color", 3, float()),
        ],
    };
    let program = meta(vec![
        input("a_Pos", 0, BaseType::BaseF32),
        input("a_Id", 1, BaseType::BaseF32),
        input("a_Color", 2, BaseType::BaseF32),
    ]);
    let mut sent = Vec::new();
    let result = Renderer::bind_mesh(&mut sent, &cache(), &mesh, &program);
    assert_eq!(result, Err(MeshError::ErrorAttributeType));
    assert_eq!(
        sent,
        vec![Request::Cast(CastRequest::BindAttribute(0, 10, 2, float(), 24, 16))]
    );
}

#[test]
fn mesh_binds_the_inputs_in_program_order() {
    let mesh = Mesh {
        num_vertices: 3,
        attributes: vec![
            attribute("a_Unused", 3, float()),
            attribute("a_Pos", 0, float()),
            attribute("a_Id", 3, raw()),
            // a second attribute of the same name is never looked at
            attribute("a_Pos", 3, raw()),
        ],
    };
    let program =
        meta(vec![input("a_Id", 4, BaseType::BaseI32), input("a_Pos", 1, BaseType::BaseF32)]);
    let mut sent = Vec::new();
    let result = Renderer::bind_mesh(&mut sent, &cache(), &mesh, &program);
    assert_eq!(result, Ok(()));
    assert_eq!(
        sent,
        vec![
            Request::Cast(CastRequest::BindAttribute(4, 13, 2, raw(), 24, 16)),
            Request::Cast(CastRequest::BindAttribute(1, 10, 2, float(), 24, 16)),
        ]
    );
    let nothing = meta(Vec::new());
    let mut sent = Vec::new();
    assert_eq!(Renderer::bind_mesh(&mut sent, &cache(), &mesh, &nothing), Ok(()));
    assert!(sent.is_empty());
}

#[test]
fn prebinding_waits_without_sending() {
    let mut renderer = Renderer::new();
    renderer.take_requests();
    let first = renderer.create_buffer(None);
    let second = renderer.create_buffer(None);
    let texture = renderer.create_texture(render::device::tex::TextureInfo {
        width: 1,
        height: 1,
        depth: 1,
        levels: 1,
        kind: render::device::tex::TextureKind::Texture1D,
        format: render::device::tex::Format::R8,
    });
    renderer.take_requests();
    let mesh = Mesh { num_vertices: 1, attributes: vec![attribute("a_Pos", first, float())] };
    let slice = render::mesh::Slice::IndexSlice(second, 0, 1);
    renderer.deliver(Reply::ReplyNewBuffer(first, Ok(10)));
    renderer.deliver(Reply::ReplyNewTexture(texture, 20));
    assert!(!renderer.prebind_mesh(&mesh, &slice));
    assert!(renderer.dispatcher.channel.is_empty());
    renderer.deliver(Reply::ReplyNewBuffer(second, Ok(11)));
    renderer.deliver(Reply::ReplyNewArrayBuffer(0, Ok(1)));
    assert!(renderer.prebind_mesh(&mesh, &slice));
    // the wait ended with the reply it needed; the next one is still waiting
    assert_eq!(renderer.dispatcher.channel.len(), 1);
    let plan = vec![
        Binding::Texture { var: 0, location: 0, texture, sampler: None },
        Binding::Block { var: 0, buffer: second },
    ];
    assert!(renderer.prebind_bundle(&bundle(plan)));
    assert_eq!(renderer.dispatcher.channel.len(), 1);
    assert!(renderer.take_requests().is_empty());
    assert!(!renderer.dispatcher.resource.is_pending(Kind::Texture, texture));
    assert!(renderer.dispatcher.resource.is_pending(Kind::ArrayBuffer, 0));
}
