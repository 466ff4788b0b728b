use render::device::shade::{
    Attribute, BaseType, BlockVar, CreateShaderError, ProgramMeta, SamplerVar, UniformVar,
    UniformValue,
};
use render::device::Reply;
use render::resource::{Cache, Future, Kind};
use render::shade::{
    create_link, find_block_var, find_texture_var, find_uniform_var, Binding, MetaSink, Param,
    ParamValue, ParameterError, ParameterLinkError,
};
use render::{DeviceError, Dispatcher, Renderer, Wait};

fn meta() -> ProgramMeta {
    ProgramMeta {
        name: 50,
        attributes: vec![Attribute {
            name: String::from("a_Pos"),
            location: 0,
            base_type: BaseType::BaseF32,
        }],
        uniforms: vec![
            UniformVar { name: String::from("u_Color"), location: 3 },
            UniformVar { name: String::from("u_Scale"), location: 4 },
        ],
        blocks: vec![BlockVar { name: String::from("b_Data") }],
        textures: vec![SamplerVar { name: String::from("t_Tex"), location: 5 }],
    }
}

fn uniform(name: &str, value: i32) -> Param {
    Param { name: String::from(name), value: ParamValue::Uniform(UniformValue::ValueI32(value)) }
}

fn block(name: &str, buffer: usize) -> Param {
    Param { name: String::from(name), value: ParamValue::Block(buffer) }
}

fn texture(name: &str, texture: usize, sampler: Option<usize>) -> Param {
    Param { name: String::from(name), value: ParamValue::Texture(texture, sampler) }
}

#[test]
fn tokens_count_up_within_their_kind() {
    let mut cache = Cache::new();
    assert_eq!(cache.create_slot(Kind::Buffer), 0);
    assert_eq!(cache.create_slot(Kind::Buffer), 1);
    assert_eq!(cache.create_slot(Kind::Texture), 0);
    assert_eq!(cache.create_slot(Kind::Buffer), 2);
    assert_eq!(cache.create_slot(Kind::Sampler), 0);
    assert_eq!(cache.create_slot(Kind::Shader), 0);
    assert_eq!(cache.create_slot(Kind::Program), 0);
    assert_eq!(cache.create_slot(Kind::ArrayBuffer), 0);
    assert_eq!(cache.create_slot(Kind::FrameBuffer), 0);
    assert_eq!(cache.create_slot(Kind::Texture), 1);
    // replies do not give tokens back
    assert_eq!(cache.process(Reply::ReplyNewBuffer(1, Err(()))), Err(DeviceError::ErrorNewBuffer(1)));
    assert_eq!(cache.process(Reply::ReplyNewBuffer(0, Ok(4))), Ok(()));
    assert_eq!(cache.create_slot(Kind::Buffer), 3);
    assert_eq!(cache.len(Kind::Buffer), 4);
    assert_eq!(cache.len(Kind::Texture), 2);
    assert_eq!(cache.len(Kind::FrameBuffer), 1);
}

#[test]
fn renderer_tokens_start_after_the_shared_objects() {
    let mut renderer = Renderer::new();
    assert_eq!(renderer.dispatcher.resource.len(Kind::ArrayBuffer), 1);
    assert_eq!(renderer.dispatcher.resource.len(Kind::FrameBuffer), 1);
    assert_eq!(renderer.create_buffer(None), 0);
    assert_eq!(renderer.create_buffer(Some(vec![1])), 1);
    assert_eq!(renderer.create_program(Vec::new(), Vec::new()).fragment, 1);
    assert_eq!(renderer.create_program(Vec::new(), Vec::new()).vertex, 2);
    assert_eq!(renderer.create_buffer(None), 2);
}

#[test]
fn slot_is_settled_by_its_reply() {
    let mut cache = Cache::new();
    for kind in [
        Kind::Buffer,
        Kind::ArrayBuffer,
        Kind::Shader,
        Kind::Program,
        Kind::Texture,
        Kind::Sampler,
        Kind::FrameBuffer,
    ] {
        assert_eq!(cache.create_slot(kind), 0);
        assert_eq!(cache.create_slot(kind), 1);
        assert!(cache.is_pending(kind, 0));
        assert!(cache.is_pending(kind, 1));
    }
    assert_eq!(cache.process(Reply::ReplyNewBuffer(1, Ok(7))), Ok(()));
    assert_eq!(cache.buffers, vec![Future::Pending, Future::Loaded(7)]);
    assert_eq!(cache.process(Reply::ReplyNewArrayBuffer(0, Ok(8))), Ok(()));
    assert_eq!(cache.array_buffers, vec![Future::Loaded(8), Future::Pending]);
    assert_eq!(cache.process(Reply::ReplyNewShader(1, Ok(9))), Ok(()));
    assert_eq!(cache.shaders, vec![Future::Pending, Future::Loaded(9)]);
    assert_eq!(cache.process(Reply::ReplyNewProgram(0, Ok(meta()))), Ok(()));
    assert_eq!(cache.programs, vec![Future::Loaded(meta()), Future::Pending]);
    assert_eq!(cache.process(Reply::ReplyNewTexture(1, 10)), Ok(()));
    assert_eq!(cache.textures, vec![Future::Pending, Future::Loaded(10)]);
    assert_eq!(cache.process(Reply::ReplyNewSampler(0, 11)), Ok(()));
    assert_eq!(cache.samplers, vec![Future::Loaded(11), Future::Pending]);
    assert_eq!(cache.process(Reply::ReplyNewFrameBuffer(1, Ok(12))), Ok(()));
    assert_eq!(cache.frame_buffers, vec![Future::Pending, Future::Loaded(12)]);
    assert!(!cache.is_pending(Kind::Buffer, 1));
    assert!(cache.is_pending(Kind::Buffer, 0));
    assert!(!cache.is_pending(Kind::Program, 0));
    assert_eq!(*cache.buffers[1].unwrap(), 7);
    assert!(cache.knows(&Reply::ReplyNewBuffer(1, Ok(0))));
    assert!(!cache.knows(&Reply::ReplyNewBuffer(2, Ok(0))));
    assert!(!Cache::new().knows(&Reply::ReplyNewSampler(0, 0)));
}

#[test]
fn failed_replies_are_classified() {
    let mut cache = Cache::new();
    for kind in [Kind::Buffer, Kind::ArrayBuffer, Kind::Shader, Kind::Program, Kind::FrameBuffer] {
        cache.create_slot(kind);
        cache.create_slot(kind);
    }
    assert_eq!(
        cache.process(Reply::ReplyNewBuffer(1, Err(()))),
        Err(DeviceError::ErrorNewBuffer(1))
    );
    assert_eq!(
        cache.process(Reply::ReplyNewArrayBuffer(1, Err(()))),
        Err(DeviceError::ErrorNewArrayBuffer)
    );
    assert_eq!(
        cache.process(Reply::ReplyNewShader(0, Err(CreateShaderError::NoSupportedShaderProvided))),
        Err(DeviceError::ErrorNewShader(0, CreateShaderError::NoSupportedShaderProvided))
    );
    assert_eq!(
        cache.process(Reply::ReplyNewShader(
            1,
            Err(CreateShaderError::ShaderCompilationFailed(String::from("line 3")))
        )),
        Err(DeviceError::ErrorNewShader(
            1,
            CreateShaderError::ShaderCompilationFailed(String::from("line 3"))
        ))
    );
    assert_eq!(
        cache.process(Reply::ReplyNewProgram(1, Err(()))),
        Err(DeviceError::ErrorNewProgram(1))
    );
    assert_eq!(
        cache.process(Reply::ReplyNewFrameBuffer(0, Err(()))),
        Err(DeviceError::ErrorNewFrameBuffer)
    );
    assert_eq!(cache.buffers, vec![Future::Pending, Future::Failed(())]);
    assert_eq!(
        cache.shaders,
        vec![
            Future::Failed(CreateShaderError::NoSupportedShaderProvided),
            Future::Failed(CreateShaderError::ShaderCompilationFailed(String::from("line 3"))),
        ]
    );
    assert_eq!(cache.programs, vec![Future::Pending, Future::Failed(())]);
    assert!(!cache.is_pending(Kind::Shader, 1));
    assert!(!cache.is_pending(Kind::FrameBuffer, 0));
    assert!(cache.is_pending(Kind::FrameBuffer, 1));
}

fn dispatcher(buffers: usize) -> Dispatcher {
    let mut cache = Cache::new();
    for _ in 0..buffers {
        cache.create_slot(Kind::Buffer);
    }
    cache.create_slot(Kind::ArrayBuffer);
    cache.create_slot(Kind::FrameBuffer);
    cache.create_slot(Kind::Shader);
    cache.create_slot(Kind::Texture);
    Dispatcher::new(cache)
}

#[test]
fn demand_applies_replies_in_order_and_stops_in_time() {
    let mut ds = dispatcher(4);
    ds.deliver(Reply::ReplyNewBuffer(3, Err(())));
    ds.deliver(Reply::ReplyNewBuffer(1, Ok(11)));
    ds.deliver(Reply::ReplyNewBuffer(0, Err(())));
    ds.deliver(Reply::ReplyNewBuffer(2, Ok(12)));
    assert!(ds.demand_slot(Kind::Buffer, 1));
    // the replies before the answer were applied, those after it were not
    assert_eq!(
        ds.resource.buffers,
        vec![Future::Pending, Future::Loaded(11), Future::Pending, Future::Failed(())]
    );
    assert_eq!(ds.channel.len(), 2);
    assert_eq!(ds.errors, vec![DeviceError::ErrorNewBuffer(3)]);
    // a slot that is answered takes no reply from the channel
    assert!(ds.demand_slot(Kind::Buffer, 1));
    assert!(ds.demand_slot(Kind::Buffer, 3));
    assert_eq!(ds.channel.len(), 2);
    assert_eq!(ds.channel[0], Reply::ReplyNewBuffer(0, Err(())));
    assert!(ds.demand_slot(Kind::Buffer, 2));
    assert!(ds.channel.is_empty());
    assert_eq!(
        ds.resource.buffers,
        vec![Future::Failed(()), Future::Loaded(11), Future::Loaded(12), Future::Failed(())]
    );
    assert_eq!(
        ds.errors,
        vec![DeviceError::ErrorNewBuffer(3), DeviceError::ErrorNewBuffer(0)]
    );
}

#[test]
fn demand_takes_any_predicate() {
    let mut ds = dispatcher(3);
    ds.deliver(Reply::ReplyNewBuffer(2, Ok(12)));
    ds.deliver(Reply::ReplyNewTexture(0, 20));
    ds.deliver(Reply::ReplyNewBuffer(0, Err(())));
    ds.deliver(Reply::ReplyNewBuffer(1, Ok(11)));
    ds.deliver(Reply::ReplyNewShader(0, Ok(40)));
    let two_answered = |cache: &Cache| {
        cache.buffers.iter().filter(|slot| !slot.is_pending()).count() >= 2
    };
    // a predicate that holds already takes nothing from the channel
    assert!(ds.demand(|cache: &Cache| cache.textures.len() == 1));
    assert_eq!(ds.channel.len(), 5);
    assert!(ds.demand(two_answered));
    assert_eq!(ds.channel.len(), 2);
    assert_eq!(
        ds.resource.buffers,
        vec![Future::Failed(()), Future::Pending, Future::Loaded(12)]
    );
    assert_eq!(ds.resource.textures, vec![Future::Loaded(20)]);
    assert_eq!(ds.errors, vec![DeviceError::ErrorNewBuffer(0)]);
    // a predicate that never holds uses up the channel and says so
    assert!(!ds.demand(|_: &Cache| false));
    assert!(ds.channel.is_empty());
    assert_eq!(ds.resource.shaders, vec![Future::Loaded(40)]);
    assert!(!ds.demand(|_: &Cache| false));
    assert!(ds.demand(two_answered));
}

#[test]
fn demand_reports_when_the_replies_run_out() {
    let mut ds = dispatcher(2);
    assert!(!ds.demand_slot(Kind::Buffer, 0));
    ds.deliver(Reply::ReplyNewBuffer(1, Ok(11)));
    ds.deliver(Reply::ReplyNewTexture(0, 20));
    assert!(!ds.demand_slot(Kind::Buffer, 0));
    assert!(ds.channel.is_empty());
    assert_eq!(ds.resource.buffers, vec![Future::Pending, Future::Loaded(11)]);
    assert_eq!(ds.resource.textures, vec![Future::Loaded(20)]);
    ds.deliver(Reply::ReplyNewBuffer(0, Ok(10)));
    assert!(ds.demand_slot(Kind::Buffer, 0));
    assert_eq!(ds.resource.buffers, vec![Future::Loaded(10), Future::Loaded(11)]);
    assert!(ds.accepts(&Reply::ReplyNewBuffer(1, Ok(0))));
    assert!(!ds.accepts(&Reply::ReplyNewBuffer(2, Ok(0))));
    assert!(!ds.accepts(&Reply::ReplyNewProgram(0, Err(()))));
}

#[test]
fn getters_return_the_state_of_their_slot() {
    let mut ds = dispatcher(2);
    assert_eq!(ds.get_buffer(0), Future::Pending);
    assert_eq!(ds.get_common_array_buffer(), Future::Pending);
    assert_eq!(ds.get_common_frame_buffer(), Future::Pending);
    assert_eq!(ds.get_shader(0), Future::Pending);
    assert_eq!(ds.get_texture(0), Future::Pending);
    ds.deliver(Reply::ReplyNewTexture(0, 20));
    ds.deliver(Reply::ReplyNewShader(0, Err(CreateShaderError::NoSupportedShaderProvided)));
    ds.deliver(Reply::ReplyNewFrameBuffer(0, Ok(8)));
    ds.deliver(Reply::ReplyNewArrayBuffer(0, Err(())));
    ds.deliver(Reply::ReplyNewBuffer(0, Ok(10)));
    ds.deliver(Reply::ReplyNewBuffer(1, Err(())));
    assert_eq!(ds.get_texture(0), Future::Loaded(20));
    assert_eq!(ds.channel.len(), 5);
    assert_eq!(ds.get_common_frame_buffer(), Future::Loaded(8));
    assert_eq!(ds.channel.len(), 3);
    assert_eq!(ds.get_shader(0), Future::Failed(CreateShaderError::NoSupportedShaderProvided));
    assert_eq!(ds.get_common_array_buffer(), Future::Failed(()));
    assert_eq!(ds.get_buffer(1), Future::Failed(()));
    assert_eq!(ds.get_buffer(0), Future::Loaded(10));
    assert!(ds.channel.is_empty());
    assert_eq!(
        ds.errors,
        vec![
            DeviceError::ErrorNewShader(0, CreateShaderError::NoSupportedShaderProvided),
            DeviceError::ErrorNewArrayBuffer,
            DeviceError::ErrorNewBuffer(1),
        ]
    );
}

#[test]
fn variables_are_found_by_kind_and_name() {
    let mut program = meta();
    program.uniforms.push(UniformVar { name: String::from("u_Color"), location: 9 });
    assert_eq!(find_uniform_var(&program, &String::from("u_Scale")), Some(1));
    // of two variables with one name the first is found
    assert_eq!(find_uniform_var(&program, &String::from("u_Color")), Some(0));
    assert_eq!(find_uniform_var(&program, &String::from("b_Data")), None);
    assert_eq!(find_block_var(&program, &String::from("b_Data")), Some(0));
    assert_eq!(find_block_var(&program, &String::from("t_Tex")), None);
    assert_eq!(find_texture_var(&program, &String::from("t_Tex")), Some(0));
    assert_eq!(find_texture_var(&program, &String::from("")), None);
}

#[test]
fn sink_reports_the_first_variable_left_out() {
    let program = meta();
    let mut sink = MetaSink::new(&program);
    assert_eq!(
        sink.complete(),
        Err(ParameterError::ErrorParamUniform(String::from("u_Color")))
    );
    assert_eq!(sink.find_uniform(&String::from("u_Color")), Some(0));
    assert_eq!(sink.find_uniform(&String::from("u_Missing")), None);
    assert_eq!(
        sink.complete(),
        Err(ParameterError::ErrorParamUniform(String::from("u_Scale")))
    );
    assert_eq!(sink.find_texture(&String::from("t_Tex")), Some(0));
    assert_eq!(sink.find_uniform(&String::from("u_Scale")), Some(1));
    assert_eq!(sink.complete(), Err(ParameterError::ErrorParamBlock(String::from("b_Data"))));
    assert_eq!(sink.find_block(&String::from("b_Data")), Some(0));
    assert_eq!(sink.complete(), Ok(()));
    let mut sink = MetaSink::new(&program);
    sink.find_uniform(&String::from("u_Scale"));
    sink.find_uniform(&String::from("u_Color"));
    sink.find_block(&String::from("b_Data"));
    assert_eq!(sink.complete(), Err(ParameterError::ErrorParamTexture(String::from("t_Tex"))));
}

#[test]
fn link_follows_the_order_of_the_parameters() {
    let program = meta();
    let mut sink = MetaSink::new(&program);
    let data = vec![
        texture("t_Tex", 2, Some(1)),
        uniform("u_Scale", 7),
        block("b_Data", 3),
        uniform("u_Color", 8),
    ];
    assert_eq!(
        create_link(&data, &mut sink),
        Ok(vec![
            Binding::Texture { var: 0, location: 5, texture: 2, sampler: Some(1) },
            Binding::Uniform { var: 1, location: 4, value: UniformValue::ValueI32(7) },
            Binding::Block { var: 0, buffer: 3 },
            Binding::Uniform { var: 0, location: 3, value: UniformValue::ValueI32(8) },
        ])
    );
    assert_eq!(sink.complete(), Ok(()));
    let mut sink = MetaSink::new(&program);
    // a name is only looked up among the variables of the parameter's kind
    let data = vec![uniform("u_Color", 1), block("u_Scale", 0), uniform("nothing", 0)];
    assert_eq!(
        create_link(&data, &mut sink),
        Err(ParameterError::ErrorParamBlock(String::from("u_Scale")))
    );
}

fn renderer_with_program(reply: Result<ProgramMeta, ()>) -> Renderer {
    let mut renderer = Renderer::new();
    let pending = renderer.create_program(Vec::new(), Vec::new());
    renderer.deliver(Reply::ReplyNewShader(0, Ok(40)));
    renderer.deliver(Reply::ReplyNewShader(1, Ok(41)));
    assert_eq!(renderer.link_program(&pending), Wait::Done(0));
    renderer.deliver(Reply::ReplyNewProgram(0, reply));
    renderer.take_requests();
    renderer
}

#[test]
fn bundle_of_a_refused_program_is_bad() {
    let mut renderer = renderer_with_program(Err(()));
    assert_eq!(
        renderer.bundle_program(0, &vec![uniform("u_Color", 1)]),
        Wait::Done(Err(ParameterLinkError::ErrorBadProgram))
    );
    assert_eq!(renderer.errors(), vec![DeviceError::ErrorNewProgram(0)]);
    assert!(renderer.take_requests().is_empty());
}

#[test]
fn bundle_waits_for_its_program() {
    let mut renderer = Renderer::new();
    let pending = renderer.create_program(Vec::new(), Vec::new());
    renderer.deliver(Reply::ReplyNewShader(0, Ok(40)));
    renderer.deliver(Reply::ReplyNewShader(1, Ok(41)));
    assert_eq!(renderer.link_program(&pending), Wait::Done(0));
    renderer.take_requests();
    renderer.deliver(Reply::ReplyNewArrayBuffer(0, Ok(1)));
    assert_eq!(renderer.bundle_program(0, &Vec::new()), Wait::Blocked);
    assert_eq!(renderer.dispatcher.resource.array_buffers, vec![Future::Loaded(1)]);
    assert!(renderer.take_requests().is_empty());
}

#[test]
fn bundle_rejects_a_parameter_the_program_lacks() {
    let mut renderer = renderer_with_program(Ok(meta()));
    let data = vec![
        uniform("u_Color", 1),
        texture("t_Other", 0, None),
        uniform("u_Other", 2),
    ];
    assert_eq!(
        renderer.bundle_program(0, &data),
        Wait::Done(Err(ParameterLinkError::ErrorUnusedParameter(
            ParameterError::ErrorParamTexture(String::from("t_Other"))
        )))
    );
    // an unused parameter is reported even when a variable is missing as well
    let data = vec![uniform("u_Other", 2)];
    assert_eq!(
        renderer.bundle_program(0, &data),
        Wait::Done(Err(ParameterLinkError::ErrorUnusedParameter(
            ParameterError::ErrorParamUniform(String::from("u_Other"))
        )))
    );
}

#[test]
fn bundle_rejects_a_variable_left_without_value() {
    let mut renderer = renderer_with_program(Ok(meta()));
    let data = vec![uniform("u_Scale", 2), texture("t_Tex", 0, None), uniform("u_Color", 1)];
    assert_eq!(
        renderer.bundle_program(0, &data),
        Wait::Done(Err(ParameterLinkError::ErrorMissingParameter(
            ParameterError::ErrorParamBlock(String::from("b_Data"))
        )))
    );
    assert_eq!(
        renderer.bundle_program(0, &Vec::new()),
        Wait::Done(Err(ParameterLinkError::ErrorMissingParameter(
            ParameterError::ErrorParamUniform(String::from("u_Color"))
        )))
    );
    let data = vec![uniform("u_Scale", 2), block("b_Data", 0), uniform("u_Color", 1)];
    assert_eq!(
        renderer.bundle_program(0, &data),
        Wait::Done(Err(ParameterLinkError::ErrorMissingParameter(
            ParameterError::ErrorParamTexture(String::from("t_Tex"))
        )))
    );
}

#[test]
fn bundle_pairs_program_parameters_and_plan() {
    let mut renderer = renderer_with_program(Ok(meta()));
    let data = vec![
        block("b_Data", 4),
        uniform("u_Scale", 2),
        texture("t_Tex", 6, None),
        uniform("u_Color", 1),
    ];
    let bundle = match renderer.bundle_program(0, &data) {
        Wait::Done(Ok(bundle)) => bundle,
        other => panic!("unexpected {:?}", other),
    };
    assert_eq!(bundle.get_program(), 0);
    assert!(bundle.is_wf());
    assert_eq!(bundle.data, data);
    assert_eq!(
        bundle.plan,
        vec![
            Binding::Block { var: 0, buffer: 4 },
            Binding::Uniform { var: 1, location: 4, value: UniformValue::ValueI32(2) },
            Binding::Texture { var: 0, location: 5, texture: 6, sampler: None },
            Binding::Uniform { var: 0, location: 3, value: UniformValue::ValueI32(1) },
        ]
    );
    // the tokens in the plan were never handed out, so the bundle cannot be drawn
    let mesh = render::mesh::Mesh::new(0);
    assert!(!renderer.can_draw(&mesh, &render::mesh::Slice::VertexSlice(0, 0), &bundle));
    assert!(renderer.take_requests().is_empty());
}
